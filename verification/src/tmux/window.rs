//! Window-level commands and the parser for window listings.

use vstd::prelude::*;

use crate::error::TmuxError;
use crate::text::{
    char_index, chars_of, concat3, copy_chars, eq_lit, lemma_char_index, spec_lines, spec_split,
    split_char, split_lines, string_of, subvec, views_of,
};
use crate::tmux::cli::arg_views;
use crate::types::{Command, CommandTarget, SessionId, Window, WindowId};

verus! {

/// The record one listing line yields: id, name and active flag. A line
/// with fewer than three `:`-separated fields yields nothing and is skipped.
pub open spec fn spec_window_record(l: Seq<char>) -> Option<(Seq<char>, Seq<char>, bool)> {
    let parts = spec_split(l, ':');
    if parts.len() >= 3 {
        Some((parts[0], parts[1], parts[2] != "0"@))
    } else {
        None
    }
}

/// The records of a sequence of listing lines, in order, skipped lines
/// omitted.
pub open spec fn spec_window_records_of(lines: Seq<Seq<char>>) -> Seq<(Seq<char>, Seq<char>, bool)>
    decreases lines.len(),
{
    if lines.len() == 0 {
        Seq::empty()
    } else {
        let rest = spec_window_records_of(lines.drop_first());
        match spec_window_record(lines[0]) {
            Some(rec) => seq![rec] + rest,
            None => rest,
        }
    }
}

/// The window records a raw listing output yields.
pub open spec fn spec_window_records(out: Seq<char>) -> Seq<(Seq<char>, Seq<char>, bool)> {
    spec_window_records_of(spec_lines(out))
}

/// `w` is the snapshot described by the record, belonging to `sid`, with no
/// panes attached yet.
pub open spec fn window_matches(rec: (Seq<char>, Seq<char>, bool), sid: Seq<char>, w: Window) -> bool {
    &&& w.id.0@ == rec.0
    &&& w.name@ == rec.1
    &&& w.active == rec.2
    &&& w.session_id.0@ == sid
    &&& w.panes@.len() == 0
}

/// `ws` lists exactly the windows the records describe, in order, all owned
/// by `sid`.
pub open spec fn windows_match(
    recs: Seq<(Seq<char>, Seq<char>, bool)>,
    sid: Seq<char>,
    ws: Seq<Window>,
) -> bool {
    ws.len() == recs.len() && forall|i: int|
        0 <= i < recs.len() ==> window_matches(recs[i], sid, #[trigger] ws[i])
}

/// The command that creates a detached window named `name` in session
/// `session_id`.
pub fn new_window(session_id: &SessionId, name: &str) -> (c: Command)
    ensures
        c.command@ == "new-window"@,
        c.target matches CommandTarget::Session(s) && s.0@ == session_id.0@,
        arg_views(c.args@) == seq!["-n"@, name@, "-d"@],
{
    let mut args: Vec<String> = Vec::new();
    args.push(String::from_str("-n"));
    args.push(String::from_str(name));
    args.push(String::from_str("-d"));
    assert(arg_views(args@) =~= seq!["-n"@, name@, "-d"@]);
    Command {
        command: String::from_str("new-window"),
        target: CommandTarget::Session(SessionId(session_id.0.clone())),
        args,
    }
}

/// The command that kills window `window_id`.
pub fn kill_window(window_id: &WindowId) -> (c: Command)
    ensures
        c.command@ == "kill-window"@,
        c.target matches CommandTarget::Window(w) && w.0@ == window_id.0@,
        c.args@.len() == 0,
{
    Command {
        command: String::from_str("kill-window"),
        target: CommandTarget::Window(WindowId(window_id.0.clone())),
        args: Vec::new(),
    }
}

/// The command that lists the windows of a session, one `id:name:active`
/// line each.
pub fn list_windows(session_id: &SessionId) -> (c: Command)
    ensures
        c.command@ == "list-windows"@,
        c.target matches CommandTarget::Session(s) && s.0@ == session_id.0@,
        arg_views(c.args@) == seq!["-F"@, "#{window_id}:#{window_name}:#{window_active}"@],
{
    let mut args: Vec<String> = Vec::new();
    args.push(String::from_str("-F"));
    args.push(String::from_str("#{window_id}:#{window_name}:#{window_active}"));
    assert(arg_views(args@) =~= seq!["-F"@, "#{window_id}:#{window_name}:#{window_active}"@]);
    Command {
        command: String::from_str("list-windows"),
        target: CommandTarget::Session(SessionId(session_id.0.clone())),
        args,
    }
}

fn windows_from(session_id: &SessionId, lines: &Vec<Vec<char>>, from: usize) -> (r: Vec<Window>)
    requires
        from <= lines@.len(),
    ensures
        windows_match(
            spec_window_records_of(views_of(lines@).skip(from as int)),
            session_id.0@,
            r@,
        ),
    decreases lines@.len() - from,
{
    let ghost lv = views_of(lines@).skip(from as int);
    if from == lines.len() {
        let r: Vec<Window> = Vec::new();
        assert(lv =~= Seq::<Seq<char>>::empty());
        return r;
    }
    let mut rest = windows_from(session_id, lines, from + 1);
    proof {
        assert(lv.drop_first() =~= views_of(lines@).skip(from + 1));
        assert(lv[0] == lines@[from as int]@);
    }
    let parts = split_char(copy_chars(&lines[from]), ':');
    if parts.len() >= 3 {
        let id = string_of(&parts[0]);
        let name = string_of(&parts[1]);
        let active = !eq_lit(&parts[2], "0");
        let w = Window {
            id: WindowId(id),
            session_id: SessionId(session_id.0.clone()),
            name,
            panes: Vec::new(),
            active,
        };
        let ghost rec = spec_window_record(lv[0])->0;
        assert(window_matches(rec, session_id.0@, w)) by {
            assert(views_of(parts@)[0] == spec_split(lv[0], ':')[0]);
            assert(views_of(parts@)[1] == spec_split(lv[0], ':')[1]);
            assert(views_of(parts@)[2] == spec_split(lv[0], ':')[2]);
        }
        let mut r: Vec<Window> = Vec::new();
        r.push(w);
        r.append(&mut rest);
        proof {
            let recs = spec_window_records_of(lv);
            assert(recs =~= seq![rec] + spec_window_records_of(lv.drop_first()));
            assert forall|i: int| 0 <= i < recs.len() implies window_matches(
                recs[i],
                session_id.0@,
                #[trigger] r@[i],
            ) by {
                if i > 0 {
                    assert(recs[i] == spec_window_records_of(lv.drop_first())[i - 1]);
                }
            }
        }
        r
    } else {
        assert(views_of(parts@).len() == parts@.len());
        assert(spec_window_record(lv[0]) is None);
        rest
    }
}

/// Parses a window-listing output into window snapshots owned by
/// `session_id`, with empty pane lists; a line with fewer than three fields
/// is silently skipped.
pub fn parse_windows_output(session_id: &SessionId, output: &str) -> (r: Vec<Window>)
    ensures
        windows_match(spec_window_records(output@), session_id.0@, r@),
{
    let lines = split_lines(chars_of(output));
    let r = windows_from(session_id, &lines, 0);
    assert(views_of(lines@).skip(0) =~= spec_lines(output@));
    r
}

/// Replaces the pane list of a window snapshot.
pub fn with_panes(window: Window, panes: Vec<crate::types::Pane>) -> (r: Window)
    ensures
        r.id == window.id,
        r.session_id == window.session_id,
        r.name == window.name,
        r.active == window.active,
        r.panes == panes,
{
    Window { panes, ..window }
}

/// Picks the window with identifier `window_id` out of a listing; the
/// listing is consumed. Returns the first match, or `NotFound` naming the
/// identifier.
pub fn get_window(windows: Vec<Window>, window_id: &WindowId) -> (r: Result<Window, TmuxError>)
    ensures
        r matches Ok(w) ==> exists|i: int|
            0 <= i < windows@.len() && windows@[i] == w && w.id.0@ == window_id.0@,
        r is Ok <==> exists|i: int|
            0 <= i < windows@.len() && (#[trigger] windows@[i]).id.0@ == window_id.0@,
        r matches Err(e) ==> e matches TmuxError::NotFound(m) && m@ == "Window '"@ + window_id.0@
            + "' not found"@,
{
    let mut ws = windows;
    let n = ws.len();
    let mut i: usize = 0;
    while i < n
        invariant
            n == ws@.len(),
            i <= n,
            ws@ == windows@,
            forall|j: int| 0 <= j < i ==> (#[trigger] ws@[j]).id.0@ != window_id.0@,
        decreases n - i,
    {
        if ws[i].id.0 == window_id.0 {
            let w = ws.remove(i);
            return Ok(w);
        }
        i = i + 1;
    }
    Err(TmuxError::NotFound(concat3("Window '", window_id.0.as_str(), "' not found")))
}

/// The command that selects window `window_id`.
pub fn select_window(window_id: &WindowId) -> (c: Command)
    ensures
        c.command@ == "select-window"@,
        c.target matches CommandTarget::Window(w) && w.0@ == window_id.0@,
        c.args@.len() == 0,
{
    Command {
        command: String::from_str("select-window"),
        target: CommandTarget::Window(WindowId(window_id.0.clone())),
        args: Vec::new(),
    }
}

/// The command that renames window `window_id` to `new_name`.
pub fn rename_window(window_id: &WindowId, new_name: &str) -> (c: Command)
    ensures
        c.command@ == "rename-window"@,
        c.target matches CommandTarget::Window(w) && w.0@ == window_id.0@,
        arg_views(c.args@) == seq![new_name@],
{
    let mut args: Vec<String> = Vec::new();
    args.push(String::from_str(new_name));
    assert(arg_views(args@) =~= seq![new_name@]);
    Command {
        command: String::from_str("rename-window"),
        target: CommandTarget::Window(WindowId(window_id.0.clone())),
        args,
    }
}

/// The command that switches session `session_id` to its previously
/// selected window.
pub fn last_window(session_id: &SessionId) -> (c: Command)
    ensures
        c.command@ == "last-window"@,
        c.target matches CommandTarget::Session(s) && s.0@ == session_id.0@,
        c.args@.len() == 0,
{
    Command {
        command: String::from_str("last-window"),
        target: CommandTarget::Session(SessionId(session_id.0.clone())),
        args: Vec::new(),
    }
}

/// The command that switches session `session_id` to its next window.
pub fn next_window(session_id: &SessionId) -> (c: Command)
    ensures
        c.command@ == "next-window"@,
        c.target matches CommandTarget::Session(s) && s.0@ == session_id.0@,
        c.args@.len() == 0,
{
    Command {
        command: String::from_str("next-window"),
        target: CommandTarget::Session(SessionId(session_id.0.clone())),
        args: Vec::new(),
    }
}

/// The command that switches session `session_id` to its previous window.
pub fn previous_window(session_id: &SessionId) -> (c: Command)
    ensures
        c.command@ == "previous-window"@,
        c.target matches CommandTarget::Session(s) && s.0@ == session_id.0@,
        c.args@.len() == 0,
{
    Command {
        command: String::from_str("previous-window"),
        target: CommandTarget::Session(SessionId(session_id.0.clone())),
        args: Vec::new(),
    }
}

/// The session-id prefix of an identifier: everything before the first
/// separator, or the whole identifier if the separator is absent.
pub open spec fn spec_id_prefix(id: Seq<char>, sep: char) -> Seq<char> {
    let i = char_index(id, sep);
    if !(0 <= i < id.len()) {
        id
    } else {
        id.take(i)
    }
}

/// Recovers the containing session id from a window id by the documented
/// separator convention: the part before the first `@`.
pub fn extract_session_id(window_id: &WindowId) -> (r: SessionId)
    ensures
        r.0@ == spec_id_prefix(window_id.0@, '@'),
{
    let v = chars_of(window_id.0.as_str());
    match crate::text::find_char(&v, '@') {
        None => SessionId(string_of(&v)),
        Some(i) => {
            proof {
                lemma_char_index(v@, '@');
            }
            SessionId(string_of(&subvec(&v, 0, i)))
        },
    }
}

} // verus!
