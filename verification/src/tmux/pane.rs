//! Pane-level commands and the parser for pane listings.

use vstd::prelude::*;

use crate::error::TmuxError;
use crate::text::{
    chars_of, concat3, copy_chars, eq_lit, spec_lines, spec_parse_u32, spec_split,
    spec_u64_digits, split_char, split_lines, string_of, u64_chars, views_of,
};
use crate::tmux::cli::arg_views;
use crate::tmux::window::spec_id_prefix;
use crate::types::{Command, CommandTarget, Pane, PaneId, SessionId, WindowId};

verus! {

/// The record one listing line yields: id, optional current path, optional
/// process id and active flag. A line with fewer than four `:`-separated
/// fields yields nothing and is skipped; an empty path field means no path,
/// and a pid field that is no decimal number means no pid.
pub open spec fn spec_pane_record(l: Seq<char>) -> Option<
    (Seq<char>, Option<Seq<char>>, Option<u32>, bool),
> {
    let parts = spec_split(l, ':');
    if parts.len() >= 4 {
        Some(
            (
                parts[0],
                if parts[1].len() == 0 {
                    None
                } else {
                    Some(parts[1])
                },
                spec_parse_u32(parts[2]),
                parts[3] != "0"@,
            ),
        )
    } else {
        None
    }
}

/// The records of a sequence of listing lines, in order, skipped lines
/// omitted.
pub open spec fn spec_pane_records_of(lines: Seq<Seq<char>>) -> Seq<
    (Seq<char>, Option<Seq<char>>, Option<u32>, bool),
>
    decreases lines.len(),
{
    if lines.len() == 0 {
        Seq::empty()
    } else {
        let rest = spec_pane_records_of(lines.drop_first());
        match spec_pane_record(lines[0]) {
            Some(rec) => seq![rec] + rest,
            None => rest,
        }
    }
}

/// The pane records a raw listing output yields.
pub open spec fn spec_pane_records(out: Seq<char>) -> Seq<
    (Seq<char>, Option<Seq<char>>, Option<u32>, bool),
> {
    spec_pane_records_of(spec_lines(out))
}

/// `p` is the snapshot described by the record, owned by window `wid` of
/// session `sid`.
pub open spec fn pane_matches(
    rec: (Seq<char>, Option<Seq<char>>, Option<u32>, bool),
    wid: Seq<char>,
    sid: Seq<char>,
    p: Pane,
) -> bool {
    &&& p.id.0@ == rec.0
    &&& (match rec.1 {
        Some(path) => p.current_path matches Some(cp) && cp@ == path,
        None => p.current_path is None,
    })
    &&& p.pid == rec.2
    &&& p.active == rec.3
    &&& p.window_id.0@ == wid
    &&& p.session_id.0@ == sid
}

/// `ps` lists exactly the panes the records describe, in order.
pub open spec fn panes_match(
    recs: Seq<(Seq<char>, Option<Seq<char>>, Option<u32>, bool)>,
    wid: Seq<char>,
    sid: Seq<char>,
    ps: Seq<Pane>,
) -> bool {
    ps.len() == recs.len() && forall|i: int|
        0 <= i < recs.len() ==> pane_matches(recs[i], wid, sid, #[trigger] ps[i])
}

/// The command that splits window `window_id` vertically, leaving focus
/// where it is.
pub fn new_pane(window_id: &WindowId) -> (c: Command)
    ensures
        c.command@ == "split-window"@,
        c.target matches CommandTarget::Window(w) && w.0@ == window_id.0@,
        arg_views(c.args@) == seq!["-d"@, "-v"@],
{
    let mut args: Vec<String> = Vec::new();
    args.push(String::from_str("-d"));
    args.push(String::from_str("-v"));
    assert(arg_views(args@) =~= seq!["-d"@, "-v"@]);
    Command {
        command: String::from_str("split-window"),
        target: CommandTarget::Window(WindowId(window_id.0.clone())),
        args,
    }
}

/// The command that splits window `window_id` horizontally, leaving focus
/// where it is.
pub fn split_pane_horizontal(window_id: &WindowId) -> (c: Command)
    ensures
        c.command@ == "split-window"@,
        c.target matches CommandTarget::Window(w) && w.0@ == window_id.0@,
        arg_views(c.args@) == seq!["-d"@, "-h"@],
{
    let mut args: Vec<String> = Vec::new();
    args.push(String::from_str("-d"));
    args.push(String::from_str("-h"));
    assert(arg_views(args@) =~= seq!["-d"@, "-h"@]);
    Command {
        command: String::from_str("split-window"),
        target: CommandTarget::Window(WindowId(window_id.0.clone())),
        args,
    }
}

/// The command that kills pane `pane_id`.
pub fn kill_pane(pane_id: &PaneId) -> (c: Command)
    ensures
        c.command@ == "kill-pane"@,
        c.target matches CommandTarget::Pane(p) && p.0@ == pane_id.0@,
        c.args@.len() == 0,
{
    Command {
        command: String::from_str("kill-pane"),
        target: CommandTarget::Pane(PaneId(pane_id.0.clone())),
        args: Vec::new(),
    }
}

/// The command that lists the panes of a window, one
/// `id:path:pid:active` line each.
pub fn list_panes(window_id: &WindowId) -> (c: Command)
    ensures
        c.command@ == "list-panes"@,
        c.target matches CommandTarget::Window(w) && w.0@ == window_id.0@,
        arg_views(c.args@) == seq![
            "-F"@,
            "#{pane_id}:#{pane_current_path}:#{pane_pid}:#{pane_active}"@,
        ],
{
    let mut args: Vec<String> = Vec::new();
    args.push(String::from_str("-F"));
    args.push(String::from_str("#{pane_id}:#{pane_current_path}:#{pane_pid}:#{pane_active}"));
    assert(arg_views(args@) =~= seq![
        "-F"@,
        "#{pane_id}:#{pane_current_path}:#{pane_pid}:#{pane_active}"@,
    ]);
    Command {
        command: String::from_str("list-panes"),
        target: CommandTarget::Window(WindowId(window_id.0.clone())),
        args,
    }
}

fn panes_from(
    window_id: &WindowId,
    session_id: &SessionId,
    lines: &Vec<Vec<char>>,
    from: usize,
) -> (r: Vec<Pane>)
    requires
        from <= lines@.len(),
    ensures
        panes_match(
            spec_pane_records_of(views_of(lines@).skip(from as int)),
            window_id.0@,
            session_id.0@,
            r@,
        ),
    decreases lines@.len() - from,
{
    let ghost lv = views_of(lines@).skip(from as int);
    if from == lines.len() {
        let r: Vec<Pane> = Vec::new();
        assert(lv =~= Seq::<Seq<char>>::empty());
        return r;
    }
    let mut rest = panes_from(window_id, session_id, lines, from + 1);
    proof {
        assert(lv.drop_first() =~= views_of(lines@).skip(from + 1));
        assert(lv[0] == lines@[from as int]@);
    }
    let parts = split_char(copy_chars(&lines[from]), ':');
    if parts.len() >= 4 {
        let id = string_of(&parts[0]);
        let current_path = if parts[1].len() == 0 {
            None
        } else {
            Some(string_of(&parts[1]))
        };
        let pid = crate::text::parse_u32(&parts[2]);
        let active = !eq_lit(&parts[3], "0");
        let p = Pane {
            id: PaneId(id),
            window_id: WindowId(window_id.0.clone()),
            session_id: SessionId(session_id.0.clone()),
            current_path,
            pid,
            active,
        };
        let ghost rec = spec_pane_record(lv[0])->0;
        assert(pane_matches(rec, window_id.0@, session_id.0@, p)) by {
            assert(views_of(parts@)[0] == spec_split(lv[0], ':')[0]);
            assert(views_of(parts@)[1] == spec_split(lv[0], ':')[1]);
            assert(views_of(parts@)[2] == spec_split(lv[0], ':')[2]);
            assert(views_of(parts@)[3] == spec_split(lv[0], ':')[3]);
        }
        let mut r: Vec<Pane> = Vec::new();
        r.push(p);
        r.append(&mut rest);
        proof {
            let recs = spec_pane_records_of(lv);
            assert(recs =~= seq![rec] + spec_pane_records_of(lv.drop_first()));
            assert forall|i: int| 0 <= i < recs.len() implies pane_matches(
                recs[i],
                window_id.0@,
                session_id.0@,
                #[trigger] r@[i],
            ) by {
                if i > 0 {
                    assert(recs[i] == spec_pane_records_of(lv.drop_first())[i - 1]);
                }
            }
        }
        r
    } else {
        assert(views_of(parts@).len() == parts@.len());
        assert(spec_pane_record(lv[0]) is None);
        rest
    }
}

/// Parses a pane-listing output into pane snapshots owned by `window_id`;
/// the owning session id is recovered from the window id by the `@`
/// separator convention. A line with fewer than four fields is silently
/// skipped.
pub fn parse_panes_output(window_id: &WindowId, output: &str) -> (r: Vec<Pane>)
    ensures
        panes_match(
            spec_pane_records(output@),
            window_id.0@,
            spec_id_prefix(window_id.0@, '@'),
            r@,
        ),
{
    let session_id = crate::tmux::window::extract_session_id(window_id);
    let lines = split_lines(chars_of(output));
    let r = panes_from(window_id, &session_id, &lines, 0);
    assert(views_of(lines@).skip(0) =~= spec_lines(output@));
    r
}

/// Picks the pane with identifier `pane_id` out of a listing; the listing
/// is consumed. Returns the first match, or `NotFound` naming the
/// identifier.
pub fn get_pane(panes: Vec<Pane>, pane_id: &PaneId) -> (r: Result<Pane, TmuxError>)
    ensures
        r matches Ok(p) ==> exists|i: int|
            0 <= i < panes@.len() && panes@[i] == p && p.id.0@ == pane_id.0@,
        r is Ok <==> exists|i: int|
            0 <= i < panes@.len() && (#[trigger] panes@[i]).id.0@ == pane_id.0@,
        r matches Err(e) ==> e matches TmuxError::NotFound(m) && m@ == "Pane '"@ + pane_id.0@
            + "' not found"@,
{
    let mut ps = panes;
    let n = ps.len();
    let mut i: usize = 0;
    while i < n
        invariant
            n == ps@.len(),
            i <= n,
            ps@ == panes@,
            forall|j: int| 0 <= j < i ==> (#[trigger] ps@[j]).id.0@ != pane_id.0@,
        decreases n - i,
    {
        if ps[i].id.0 == pane_id.0 {
            let p = ps.remove(i);
            return Ok(p);
        }
        i = i + 1;
    }
    Err(TmuxError::NotFound(concat3("Pane '", pane_id.0.as_str(), "' not found")))
}

/// The last pane of a listing, as returned after a split; the listing is
/// consumed. `NotFound` when the listing is empty.
pub fn last_pane(panes: Vec<Pane>, what: &str) -> (r: Result<Pane, TmuxError>)
    ensures
        panes@.len() > 0 ==> (r matches Ok(p) && p == panes@.last()),
        panes@.len() == 0 ==> (r matches Err(e) && e matches TmuxError::NotFound(m) && m@
            == what@),
{
    let mut ps = panes;
    match ps.pop() {
        Some(p) => Ok(p),
        None => Err(TmuxError::NotFound(String::from_str(what))),
    }
}

/// The command that types `keys` into pane `pane_id`.
pub fn send_keys(pane_id: &PaneId, keys: &str) -> (c: Command)
    ensures
        c.command@ == "send-keys"@,
        c.target matches CommandTarget::Pane(p) && p.0@ == pane_id.0@,
        arg_views(c.args@) == seq![keys@],
{
    let mut args: Vec<String> = Vec::new();
    args.push(String::from_str(keys));
    assert(arg_views(args@) =~= seq![keys@]);
    Command {
        command: String::from_str("send-keys"),
        target: CommandTarget::Pane(PaneId(pane_id.0.clone())),
        args,
    }
}

/// The two commands that type `keys` into pane `pane_id` and then submit
/// them: the text itself, followed by a literal `Enter` key name. They are
/// sequential, not atomic: a crash between them leaves text typed but not
/// submitted.
pub fn send_keys_enter(pane_id: &PaneId, keys: &str) -> (cs: Vec<Command>)
    ensures
        cs@.len() == 2,
        cs@[0].command@ == "send-keys"@ && (cs@[0].target matches CommandTarget::Pane(p) && p.0@
            == pane_id.0@) && arg_views(cs@[0].args@) == seq![keys@],
        cs@[1].command@ == "send-keys"@ && (cs@[1].target matches CommandTarget::Pane(p) && p.0@
            == pane_id.0@) && arg_views(cs@[1].args@) == seq!["Enter"@],
{
    let mut cs: Vec<Command> = Vec::new();
    cs.push(send_keys(pane_id, keys));
    cs.push(send_keys(pane_id, "Enter"));
    cs
}

/// The command that prints the visible contents of pane `pane_id`.
pub fn capture_pane_output(pane_id: &PaneId) -> (c: Command)
    ensures
        c.command@ == "capture-pane"@,
        c.target matches CommandTarget::Pane(p) && p.0@ == pane_id.0@,
        arg_views(c.args@) == seq!["-p"@],
{
    let mut args: Vec<String> = Vec::new();
    args.push(String::from_str("-p"));
    assert(arg_views(args@) =~= seq!["-p"@]);
    Command {
        command: String::from_str("capture-pane"),
        target: CommandTarget::Pane(PaneId(pane_id.0.clone())),
        args,
    }
}

/// The command that prints the contents of pane `pane_id` including
/// `lines` lines of history: `capture-pane -p -S -<lines>`.
pub fn capture_pane_start(pane_id: &PaneId, lines: usize) -> (c: Command)
    ensures
        c.command@ == "capture-pane"@,
        c.target matches CommandTarget::Pane(p) && p.0@ == pane_id.0@,
        arg_views(c.args@) == seq![
            "-p"@,
            "-S"@,
            seq!['-'] + spec_u64_digits(lines as nat),
        ],
{
    let mut offset: Vec<char> = Vec::new();
    offset.push('-');
    let digits = u64_chars(lines as u64);
    crate::text::append_chars(&mut offset, &digits);
    let mut args: Vec<String> = Vec::new();
    args.push(String::from_str("-p"));
    args.push(String::from_str("-S"));
    args.push(string_of(&offset));
    assert(arg_views(args@) =~= seq![
        "-p"@,
        "-S"@,
        seq!['-'] + spec_u64_digits(lines as nat),
    ]);
    Command {
        command: String::from_str("capture-pane"),
        target: CommandTarget::Pane(PaneId(pane_id.0.clone())),
        args,
    }
}

/// The command that selects pane `pane_id`.
pub fn select_pane(pane_id: &PaneId) -> (c: Command)
    ensures
        c.command@ == "select-pane"@,
        c.target matches CommandTarget::Pane(p) && p.0@ == pane_id.0@,
        c.args@.len() == 0,
{
    Command {
        command: String::from_str("select-pane"),
        target: CommandTarget::Pane(PaneId(pane_id.0.clone())),
        args: Vec::new(),
    }
}

/// The commands that resize pane `pane_id`: one `-x <width>` command when a
/// width is given, then one `-y <height>` command when a height is given.
pub fn resize_pane(pane_id: &PaneId, width: Option<usize>, height: Option<usize>) -> (cs: Vec<
    Command,
>)
    ensures
        cs@.len() == (if width is Some {
            1int
        } else {
            0int
        }) + (if height is Some {
            1int
        } else {
            0int
        }),
        width matches Some(w) ==> cs@[0].command@ == "resize-pane"@ && (cs@[0].target matches
            CommandTarget::Pane(p) && p.0@ == pane_id.0@) && arg_views(cs@[0].args@) == seq![
            "-x"@,
            spec_u64_digits(w as nat),
        ],
        height matches Some(h) ==> {
            let i = if width is Some {
                1int
            } else {
                0int
            };
            cs@[i].command@ == "resize-pane"@ && (cs@[i].target matches CommandTarget::Pane(p)
                && p.0@ == pane_id.0@) && arg_views(cs@[i].args@) == seq![
                "-y"@,
                spec_u64_digits(h as nat),
            ]
        },
{
    let mut cs: Vec<Command> = Vec::new();
    if let Some(w) = width {
        let mut args: Vec<String> = Vec::new();
        args.push(String::from_str("-x"));
        args.push(crate::text::u64_string(w as u64));
        assert(arg_views(args@) =~= seq!["-x"@, spec_u64_digits(w as nat)]);
        cs.push(
            Command {
                command: String::from_str("resize-pane"),
                target: CommandTarget::Pane(PaneId(pane_id.0.clone())),
                args,
            },
        );
    }
    if let Some(h) = height {
        let mut args: Vec<String> = Vec::new();
        args.push(String::from_str("-y"));
        args.push(crate::text::u64_string(h as u64));
        assert(arg_views(args@) =~= seq!["-y"@, spec_u64_digits(h as nat)]);
        cs.push(
            Command {
                command: String::from_str("resize-pane"),
                target: CommandTarget::Pane(PaneId(pane_id.0.clone())),
                args,
            },
        );
    }
    cs
}

/// Recovers the containing window id from a pane id by the documented
/// separator convention: the part before the first `%`.
pub fn extract_window_id(pane_id: &PaneId) -> (r: WindowId)
    ensures
        r.0@ == spec_id_prefix(pane_id.0@, '%'),
{
    let v = chars_of(pane_id.0.as_str());
    match crate::text::find_char(&v, '%') {
        None => WindowId(string_of(&v)),
        Some(i) => {
            proof {
                crate::text::lemma_char_index(v@, '%');
            }
            WindowId(string_of(&crate::text::subvec(&v, 0, i)))
        },
    }
}

} // verus!
