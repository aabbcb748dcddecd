//! The delivery router: which channel carries a message, and how the
//! destination terminal session is resolved.
//!
//! The caller performs the HTTP attempt and the terminal injection; this
//! module makes every decision between them. The remote channel is tried
//! first where the mode and a configured client allow it; only on the
//! terminal fallback path is the identity mapping recorded, so that later
//! deliveries skip the live search.

use vstd::prelude::*;

use crate::error::TmuxError;
use crate::session_mapping::{spec_lookup_remote, SessionMapping, SessionMappingStore};
use crate::text::concat2;
use crate::types::{PaneId, Session};

verus! {

/// Which channels a delivery may use.
#[derive(Debug, Clone, Copy, PartialEq, Eq, Structural)]
pub enum MessageMode {
    /// Try the agent channel, fall back to terminal injection.
    Auto,
    /// Only the agent channel; its failure is the caller's error.
    AgentOnly,
    /// Only direct terminal injection.
    TerminalOnly,
}

/// The router's verdict after the agent channel has been considered.
#[derive(Debug, Clone, Copy, PartialEq, Eq, Structural)]
pub enum RouteDecision {
    /// The agent accepted the message; delivery is done.
    DeliveredViaAgent,
    /// Inject the message into the terminal.
    DeliverViaTerminal,
    /// Report failure: the mode forbids falling back.
    AgentRequired,
}

/// Whether the agent channel is attempted at all: a client must be
/// configured and the mode must permit the agent.
pub fn should_attempt_agent(mode: MessageMode, client_available: bool) -> (r: bool)
    ensures
        r == (client_available && (mode is Auto || mode is AgentOnly)),
{
    client_available && (mode == MessageMode::Auto || mode == MessageMode::AgentOnly)
}

/// The verdict once the agent attempt has resolved (or was never made):
/// a successful attempt delivers; otherwise `Auto` and `TerminalOnly`
/// fall through to the terminal, while `AgentOnly` never falls back
/// silently and reports failure instead.
pub fn route_after_agent(mode: MessageMode, attempted: bool, agent_ok: bool) -> (r: RouteDecision)
    ensures
        attempted && agent_ok ==> r is DeliveredViaAgent,
        !(attempted && agent_ok) && mode is AgentOnly ==> r is AgentRequired,
        !(attempted && agent_ok) && !(mode is AgentOnly) ==> r is DeliverViaTerminal,
{
    if attempted && agent_ok {
        RouteDecision::DeliveredViaAgent
    } else if mode == MessageMode::AgentOnly {
        RouteDecision::AgentRequired
    } else {
        RouteDecision::DeliverViaTerminal
    }
}

/// The first live session named `name`, if any.
pub open spec fn spec_find_session_by_name(ss: Seq<Session>, name: Seq<char>) -> Option<Session>
    decreases ss.len(),
{
    if ss.len() == 0 {
        None
    } else if ss[0].name@ == name {
        Some(ss[0])
    } else {
        spec_find_session_by_name(ss.drop_first(), name)
    }
}

/// What resolution yields: the local session name and whether it came
/// from the identity map (rather than a live search).
pub open spec fn spec_resolve(
    entries: Seq<SessionMapping>,
    sessions: Seq<Session>,
    remote_id: Seq<char>,
) -> Option<(Seq<char>, bool)> {
    match spec_lookup_remote(entries, remote_id) {
        Some(m) => Some((m.tmux_session_name@, true)),
        None => match spec_find_session_by_name(sessions, remote_id) {
            Some(s) => Some((s.name@, false)),
            None => None,
        },
    }
}

/// A resolved destination: the local session name and whether the
/// identity map supplied it.
#[derive(Debug, Clone)]
pub struct ResolvedSession {
    pub name: String,
    pub from_map: bool,
}

/// Resolves the destination terminal session for `remote_id`: the
/// identity map decides when it has an entry; otherwise the live sessions
/// are searched for a name equal to the remote identifier.
pub fn resolve_session_name(
    store: &SessionMappingStore,
    sessions: &Vec<Session>,
    remote_id: &str,
) -> (r: Option<ResolvedSession>)
    ensures
        (match spec_resolve(store.entries(), sessions@, remote_id@) {
            Some(p) => r matches Some(res) && res.name@ == p.0 && res.from_map == p.1,
            None => r is None,
        }),
{
    match store.lookup_tmux(remote_id) {
        Some(name) => Some(ResolvedSession { name, from_map: true }),
        None => {
            let n = sessions.len();
            let key = String::from_str(remote_id);
            let mut i: usize = 0;
            proof {
                assert(sessions@.skip(0) =~= sessions@);
            }
            while i < n
                invariant
                    n == sessions@.len(),
                    key@ == remote_id@,
                    spec_lookup_remote(store.entries(), remote_id@) is None,
                    i <= n,
                    spec_find_session_by_name(sessions@, remote_id@) == spec_find_session_by_name(
                        sessions@.skip(i as int),
                        remote_id@,
                    ),
                    forall|k: int| 0 <= k < i ==> (#[trigger] sessions@[k]).name@ != remote_id@,
                decreases n - i,
            {
                proof {
                    assert(sessions@.skip(i as int)[0] == sessions@[i as int]);
                    assert(sessions@.skip(i as int).drop_first() =~= sessions@.skip(i + 1));
                }
                if sessions[i].name == key {
                    return Some(
                        ResolvedSession { name: sessions[i].name.clone(), from_map: false },
                    );
                }
                i = i + 1;
            }
            proof {
                assert(sessions@.skip(n as int) =~= Seq::<Session>::empty());
            }
            None
        },
    }
}

/// The default destination pane of a terminal session: its first window's
/// first pane.
pub fn default_pane_for(session_name: &str) -> (r: PaneId)
    ensures
        r.0@ == session_name@ + ":0.0"@,
{
    PaneId(concat2(session_name, ":0.0"))
}

/// Records the identity mapping discovered on a fallback delivery, so
/// that a later delivery for the same remote identifier resolves through
/// the map instead of searching.
pub fn record_fallback(
    store: &mut SessionMappingStore,
    remote_id: &str,
    local_name: &str,
) -> (r: Result<(), TmuxError>)
    requires
        old(store).wf(),
    ensures
        r is Ok,
        final(store).wf(),
        (spec_lookup_remote(final(store).entries(), remote_id@) matches Some(m)
            && m.tmux_session_name@ == local_name@),
        forall|id: Seq<char>|
            id != remote_id@ ==> #[trigger] spec_lookup_remote(final(store).entries(), id)
                == spec_lookup_remote(old(store).entries(), id),
{
    store.insert(String::from_str(remote_id), String::from_str(local_name))
}

/// A mapped remote identifier resolves through the map alone: the live
/// sessions play no part, so no search happens.
pub proof fn lemma_mapping_short_circuits(
    entries: Seq<SessionMapping>,
    sessions_then: Seq<Session>,
    sessions_now: Seq<Session>,
    remote_id: Seq<char>,
)
    requires
        spec_lookup_remote(entries, remote_id) is Some,
    ensures
        spec_resolve(entries, sessions_then, remote_id) == spec_resolve(
            entries,
            sessions_now,
            remote_id,
        ),
        spec_resolve(entries, sessions_then, remote_id) matches Some(p) && p.1,
{
}

/// An unmapped remote identifier falls back to the live search; once the
/// found name is recorded, resolution returns the recorded mapping.
pub proof fn lemma_fallback_then_cached(
    entries: Seq<SessionMapping>,
    entries_after: Seq<SessionMapping>,
    sessions: Seq<Session>,
    remote_id: Seq<char>,
    found: Session,
)
    requires
        spec_lookup_remote(entries, remote_id) is None,
        spec_find_session_by_name(sessions, remote_id) == Some(found),
        (spec_lookup_remote(entries_after, remote_id) matches Some(m) && m.tmux_session_name@
            == found.name@),
    ensures
        spec_resolve(entries, sessions, remote_id) == Some((found.name@, false)),
        forall|other: Seq<Session>|
            #[trigger] spec_resolve(entries_after, other, remote_id) == Some(
                (found.name@, true),
            ),
{
}

} // verus!
