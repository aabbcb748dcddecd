//! Session-level commands and the parser for session listings.
//!
//! Each operation is split into a command builder, whose contract pins the
//! exact argument vector handed to the multiplexer, and a parser or lookup
//! over the captured output. The caller runs the built [`Command`] and hands
//! its output back.

use vstd::prelude::*;

use crate::error::TmuxError;
use crate::text::{
    chars_of, concat3, copy_chars, eq_lit, spec_lines, spec_split, split_char, split_lines,
    string_of, views_of,
};
use crate::types::{Command, CommandTarget, Session, SessionId};

verus! {

/// The record one listing line yields: id, name and attached flag. A line
/// with fewer than three `:`-separated fields yields nothing and is skipped.
pub open spec fn spec_session_record(l: Seq<char>) -> Option<(Seq<char>, Seq<char>, bool)> {
    let parts = spec_split(l, ':');
    if parts.len() >= 3 {
        Some((parts[0], parts[1], parts[2] != "0"@))
    } else {
        None
    }
}

/// The records of a sequence of listing lines, in order, skipped lines
/// omitted.
pub open spec fn spec_session_records_of(lines: Seq<Seq<char>>) -> Seq<
    (Seq<char>, Seq<char>, bool),
>
    decreases lines.len(),
{
    if lines.len() == 0 {
        Seq::empty()
    } else {
        let rest = spec_session_records_of(lines.drop_first());
        match spec_session_record(lines[0]) {
            Some(rec) => seq![rec] + rest,
            None => rest,
        }
    }
}

/// The session records a raw listing output yields.
pub open spec fn spec_session_records(out: Seq<char>) -> Seq<(Seq<char>, Seq<char>, bool)> {
    spec_session_records_of(spec_lines(out))
}

/// `s` is the snapshot described by the record, with no windows attached
/// yet.
pub open spec fn session_matches(rec: (Seq<char>, Seq<char>, bool), s: Session) -> bool {
    &&& s.id.0@ == rec.0
    &&& s.name@ == rec.1
    &&& s.attached == rec.2
    &&& s.windows@.len() == 0
}

/// `ss` lists exactly the sessions the records describe, in order.
pub open spec fn sessions_match(recs: Seq<(Seq<char>, Seq<char>, bool)>, ss: Seq<Session>) -> bool {
    ss.len() == recs.len() && forall|i: int|
        0 <= i < recs.len() ==> session_matches(recs[i], #[trigger] ss[i])
}

/// The command that creates a detached session named `name`.
pub fn new_session(name: &str) -> (c: Command)
    ensures
        c.command@ == "new-session"@,
        c.target is Server,
        views_of_strings(c.args@) == seq!["-s"@, name@, "-d"@],
{
    let mut args: Vec<String> = Vec::new();
    args.push(String::from_str("-s"));
    args.push(String::from_str(name));
    args.push(String::from_str("-d"));
    assert(views_of_strings(args@) =~= seq!["-s"@, name@, "-d"@]);
    Command { command: String::from_str("new-session"), target: CommandTarget::Server, args }
}

/// The views of a vector of strings.
pub open spec fn views_of_strings(args: Seq<String>) -> Seq<Seq<char>> {
    args.map_values(|s: String| s@)
}

/// The command that kills the session `id`.
pub fn kill_session(id: &SessionId) -> (c: Command)
    ensures
        c.command@ == "kill-session"@,
        c.target matches CommandTarget::Session(s) && s.0@ == id.0@,
        c.args@.len() == 0,
{
    Command {
        command: String::from_str("kill-session"),
        target: CommandTarget::Session(SessionId(id.0.clone())),
        args: Vec::new(),
    }
}

/// The command that lists sessions, one `id:name:attached` line each.
pub fn list_sessions() -> (c: Command)
    ensures
        c.command@ == "list-sessions"@,
        c.target is Server,
        views_of_strings(c.args@) == seq![
            "-F"@,
            "#{session_id}:#{session_name}:#{session_attached}"@,
        ],
{
    let mut args: Vec<String> = Vec::new();
    args.push(String::from_str("-F"));
    args.push(String::from_str("#{session_id}:#{session_name}:#{session_attached}"));
    assert(views_of_strings(args@) =~= seq![
        "-F"@,
        "#{session_id}:#{session_name}:#{session_attached}"@,
    ]);
    Command { command: String::from_str("list-sessions"), target: CommandTarget::Server, args }
}

fn sessions_from(lines: &Vec<Vec<char>>, from: usize) -> (r: Vec<Session>)
    requires
        from <= lines@.len(),
    ensures
        sessions_match(spec_session_records_of(views_of(lines@).skip(from as int)), r@),
    decreases lines@.len() - from,
{
    let ghost lv = views_of(lines@).skip(from as int);
    if from == lines.len() {
        let r: Vec<Session> = Vec::new();
        assert(lv =~= Seq::<Seq<char>>::empty());
        return r;
    }
    let mut rest = sessions_from(lines, from + 1);
    proof {
        assert(lv.drop_first() =~= views_of(lines@).skip(from + 1));
        assert(lv[0] == lines@[from as int]@);
    }
    let parts = split_char(copy_chars(&lines[from]), ':');
    if parts.len() >= 3 {
        let id = string_of(&parts[0]);
        let name = string_of(&parts[1]);
        let attached = !eq_lit(&parts[2], "0");
        let s = Session { id: SessionId(id), name, windows: Vec::new(), attached };
        let ghost rec = spec_session_record(lv[0])->0;
        assert(session_matches(rec, s)) by {
            assert(views_of(parts@)[0] == spec_split(lv[0], ':')[0]);
            assert(views_of(parts@)[1] == spec_split(lv[0], ':')[1]);
            assert(views_of(parts@)[2] == spec_split(lv[0], ':')[2]);
        }
        let mut r: Vec<Session> = Vec::new();
        r.push(s);
        r.append(&mut rest);
        proof {
            let recs = spec_session_records_of(lv);
            assert(recs =~= seq![rec] + spec_session_records_of(lv.drop_first()));
            assert forall|i: int| 0 <= i < recs.len() implies session_matches(
                recs[i],
                #[trigger] r@[i],
            ) by {
                if i > 0 {
                    assert(recs[i] == spec_session_records_of(lv.drop_first())[i - 1]);
                }
            }
        }
        r
    } else {
        assert(views_of(parts@).len() == parts@.len());
        assert(spec_session_record(lv[0]) is None);
        rest
    }
}

/// Parses a session-listing output into session snapshots with empty window
/// lists; a line with fewer than three fields is silently skipped.
pub fn parse_sessions_output(output: &str) -> (r: Vec<Session>)
    ensures
        sessions_match(spec_session_records(output@), r@),
{
    let lines = split_lines(chars_of(output));
    let r = sessions_from(&lines, 0);
    assert(views_of(lines@).skip(0) =~= spec_lines(output@));
    r
}

/// Replaces the window list of a session snapshot.
pub fn with_windows(session: Session, windows: Vec<crate::types::Window>) -> (r: Session)
    ensures
        r.id == session.id,
        r.name == session.name,
        r.attached == session.attached,
        r.windows == windows,
{
    Session { windows, ..session }
}

/// Picks the session with identifier `id` out of a listing; the listing is
/// consumed. Returns the first match, or `NotFound` naming the identifier.
pub fn get_session(sessions: Vec<Session>, id: &SessionId) -> (r: Result<Session, TmuxError>)
    ensures
        r matches Ok(s) ==> exists|i: int|
            0 <= i < sessions@.len() && sessions@[i] == s && s.id.0@ == id.0@,
        r is Ok <==> exists|i: int|
            0 <= i < sessions@.len() && (#[trigger] sessions@[i]).id.0@ == id.0@,
        r matches Err(e) ==> e matches TmuxError::NotFound(m) && m@ == "Session '"@ + id.0@
            + "' not found"@,
{
    let mut ss = sessions;
    let n = ss.len();
    let mut i: usize = 0;
    while i < n
        invariant
            n == ss@.len(),
            i <= n,
            ss@ == sessions@,
            forall|j: int| 0 <= j < i ==> (#[trigger] ss@[j]).id.0@ != id.0@,
        decreases n - i,
    {
        if ss[i].id.0 == id.0 {
            let s = ss.remove(i);
            return Ok(s);
        }
        i = i + 1;
    }
    Err(TmuxError::NotFound(concat3("Session '", id.0.as_str(), "' not found")))
}

/// Picks the session named `name` out of a listing; the listing is consumed.
/// Returns the first match, or `NotFound` reporting that the session was not
/// found after creation.
pub fn find_created_session(sessions: Vec<Session>, name: &str) -> (r: Result<
    Session,
    TmuxError,
>)
    ensures
        r matches Ok(s) ==> exists|i: int|
            0 <= i < sessions@.len() && sessions@[i] == s && s.name@ == name@,
        r is Ok <==> exists|i: int|
            0 <= i < sessions@.len() && (#[trigger] sessions@[i]).name@ == name@,
        r matches Err(e) ==> e matches TmuxError::NotFound(m) && m@ == "Session '"@ + name@
            + "' not found after creation"@,
{
    let mut ss = sessions;
    let name_str = String::from_str(name);
    let n = ss.len();
    let mut i: usize = 0;
    while i < n
        invariant
            name_str@ == name@,
            n == ss@.len(),
            i <= n,
            ss@ == sessions@,
            forall|j: int| 0 <= j < i ==> (#[trigger] ss@[j]).name@ != name@,
        decreases n - i,
    {
        if ss[i].name == name_str {
            let s = ss.remove(i);
            return Ok(s);
        }
        i = i + 1;
    }
    Err(TmuxError::NotFound(concat3("Session '", name, "' not found after creation")))
}

/// The command that attaches the client to session `id`.
pub fn attach_session(id: &SessionId) -> (c: Command)
    ensures
        c.command@ == "attach-session"@,
        c.target matches CommandTarget::Session(s) && s.0@ == id.0@,
        c.args@.len() == 0,
{
    Command {
        command: String::from_str("attach-session"),
        target: CommandTarget::Session(SessionId(id.0.clone())),
        args: Vec::new(),
    }
}

/// The command that detaches the client from session `id`.
pub fn detach_session(id: &SessionId) -> (c: Command)
    ensures
        c.command@ == "detach-client"@,
        c.target matches CommandTarget::Session(s) && s.0@ == id.0@,
        c.args@.len() == 0,
{
    Command {
        command: String::from_str("detach-client"),
        target: CommandTarget::Session(SessionId(id.0.clone())),
        args: Vec::new(),
    }
}

/// The command that renames session `id` to `new_name`.
pub fn rename_session(id: &SessionId, new_name: &str) -> (c: Command)
    ensures
        c.command@ == "rename-session"@,
        c.target matches CommandTarget::Session(s) && s.0@ == id.0@,
        views_of_strings(c.args@) == seq![new_name@],
{
    let mut args: Vec<String> = Vec::new();
    args.push(String::from_str(new_name));
    assert(views_of_strings(args@) =~= seq![new_name@]);
    Command {
        command: String::from_str("rename-session"),
        target: CommandTarget::Session(SessionId(id.0.clone())),
        args,
    }
}

} // verus!
