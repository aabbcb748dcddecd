//! Shaping session log data: log file paths, tailing, searching and
//! name recovery. Reading the files themselves is the caller's concern;
//! it hands the lines in.

use vstd::prelude::*;

use crate::text::{chars_of, contains_seq, contains_sub, ends_with, starts_with, string_of};
use crate::types::{PaneId, SessionId};

verus! {

/// Computes log paths and shapes log lines under a log directory.
#[derive(Debug, Clone)]
pub struct LogReader {
    pub log_dir: String,
}

/// The views of a vector of lines.
pub open spec fn line_views(lines: Seq<String>) -> Seq<Seq<char>> {
    lines.map_values(|l: String| l@)
}

/// The lines holding `pattern`, in order.
pub open spec fn spec_matching_lines(lines: Seq<Seq<char>>, pattern: Seq<char>) -> Seq<Seq<char>>
    decreases lines.len(),
{
    if lines.len() == 0 {
        Seq::empty()
    } else {
        let rest = spec_matching_lines(lines.drop_first(), pattern);
        if contains_seq(lines[0], pattern) {
            seq![lines[0]] + rest
        } else {
            rest
        }
    }
}

/// A file name of the form `session_<id>.log`, long enough to carry both
/// affixes.
pub open spec fn spec_is_session_log_name(l: Seq<char>) -> bool {
    starts_with(l, "session_"@) && ends_with(l, ".log"@) && l.len() >= 12
}

/// The session ids of the log files among `names`, in order.
pub open spec fn spec_session_log_ids(names: Seq<Seq<char>>) -> Seq<Seq<char>>
    decreases names.len(),
{
    if names.len() == 0 {
        Seq::empty()
    } else {
        let rest = spec_session_log_ids(names.drop_first());
        if spec_is_session_log_name(names[0]) {
            seq![names[0].subrange(8, names[0].len() - 4)] + rest
        } else {
            rest
        }
    }
}

impl LogReader {
    /// A reader over the conventional log directory.
    pub fn new() -> (r: LogReader)
        ensures
            r.log_dir@ == "/tmp/tmux_logs"@,
    {
        LogReader { log_dir: String::from_str("/tmp/tmux_logs") }
    }

    /// A reader over `log_dir`.
    pub fn with_dir(log_dir: String) -> (r: LogReader)
        ensures
            r.log_dir == log_dir,
    {
        LogReader { log_dir }
    }

    /// The log file of session `session_id`.
    pub fn session_log_path(&self, session_id: &SessionId) -> (r: String)
        ensures
            r@ == self.log_dir@ + "/session_"@ + session_id.0@ + ".log"@,
    {
        let mut v: Vec<char> = Vec::new();
        crate::text::append_str(&mut v, self.log_dir.as_str());
        crate::text::append_str(&mut v, "/session_");
        crate::text::append_str(&mut v, session_id.0.as_str());
        crate::text::append_str(&mut v, ".log");
        string_of(&v)
    }

    /// The log file of pane `pane_id`.
    pub fn pane_log_path(&self, pane_id: &PaneId) -> (r: String)
        ensures
            r@ == self.log_dir@ + "/pane_"@ + pane_id.0@ + ".log"@,
    {
        let mut v: Vec<char> = Vec::new();
        crate::text::append_str(&mut v, self.log_dir.as_str());
        crate::text::append_str(&mut v, "/pane_");
        crate::text::append_str(&mut v, pane_id.0.as_str());
        crate::text::append_str(&mut v, ".log");
        string_of(&v)
    }

    /// The lines from `offset` on; all consumed when the offset is past
    /// the end.
    pub fn read_log_from(&self, lines: Vec<String>, offset: usize) -> (r: Vec<String>)
        ensures
            offset >= lines@.len() ==> r@.len() == 0,
            offset < lines@.len() ==> r@ == lines@.skip(offset as int),
    {
        let mut ms = lines;
        let mut dropped: usize = 0;
        while dropped < offset && ms.len() > 0
            invariant
                dropped <= offset,
                ms@ == lines@.skip(dropped as int),
                dropped <= lines@.len(),
            decreases offset - dropped,
        {
            ms.remove(0);
            dropped = dropped + 1;
            assert(ms@ =~= lines@.skip(dropped as int));
        }
        proof {
            if offset >= lines@.len() {
                assert(ms@ =~= lines@.skip(dropped as int));
            }
        }
        ms
    }

    /// The last `n` lines; all of them when `n` covers the whole log.
    pub fn tail_log(&self, lines: Vec<String>, n: usize) -> (r: Vec<String>)
        ensures
            n >= lines@.len() ==> r@ == lines@,
            n < lines@.len() ==> r@ == lines@.skip(lines@.len() - n),
    {
        let len = lines.len();
        if n >= len {
            return lines;
        }
        self.read_log_from(lines, len - n)
    }

    /// The lines holding `pattern`, in order.
    pub fn search_log(&self, lines: &Vec<String>, pattern: &str) -> (r: Vec<String>)
        ensures
            line_views(r@) == spec_matching_lines(line_views(lines@), pattern@),
    {
        let pat = chars_of(pattern);
        let r = search_from(lines, 0, &pat);
        assert(line_views(lines@).skip(0) =~= line_views(lines@));
        r
    }

    /// The session ids named by the log files among `names`: every name
    /// of the form `session_<id>.log` yields its `<id>`, in order.
    pub fn list_session_logs(&self, names: &Vec<String>) -> (r: Vec<SessionId>)
        ensures
            r@.len() == spec_session_log_ids(line_views(names@)).len(),
            forall|i: int|
                0 <= i < r@.len() ==> (#[trigger] r@[i]).0@ == spec_session_log_ids(
                    line_views(names@),
                )[i],
    {
        let r = log_ids_from(names, 0);
        assert(line_views(names@).skip(0) =~= line_views(names@));
        r
    }
}

fn search_from(lines: &Vec<String>, from: usize, pat: &Vec<char>) -> (r: Vec<String>)
    requires
        from <= lines@.len(),
    ensures
        line_views(r@) == spec_matching_lines(line_views(lines@).skip(from as int), pat@),
    decreases lines@.len() - from,
{
    let ghost lv = line_views(lines@).skip(from as int);
    if from == lines.len() {
        let r: Vec<String> = Vec::new();
        assert(lv =~= Seq::<Seq<char>>::empty());
        assert(line_views(r@) =~= spec_matching_lines(lv, pat@));
        return r;
    }
    let mut rest = search_from(lines, from + 1, pat);
    proof {
        assert(lv.drop_first() =~= line_views(lines@).skip(from + 1));
        assert(lv[0] == lines@[from as int]@);
    }
    let line = chars_of(lines[from].as_str());
    if contains_sub(&line, pat) {
        let mut r: Vec<String> = Vec::new();
        r.push(lines[from].clone());
        let ghost rest0 = rest@;
        r.append(&mut rest);
        proof {
            let ms = spec_matching_lines(lv, pat@);
            assert(ms =~= seq![lv[0]] + spec_matching_lines(lv.drop_first(), pat@));
            assert forall|i: int| 0 <= i < ms.len() implies #[trigger] line_views(r@)[i] == ms[i] by {
                assert(line_views(r@)[i] == r@[i]@);
                if i > 0 {
                    assert(r@[i] == rest0[i - 1]);
                    assert(line_views(rest0)[i - 1] == rest0[i - 1]@);
                }
            }
            assert(line_views(r@) =~= ms);
        }
        r
    } else {
        assert(line_views(rest@) =~= spec_matching_lines(lv, pat@));
        rest
    }
}

fn log_ids_from(names: &Vec<String>, from: usize) -> (r: Vec<SessionId>)
    requires
        from <= names@.len(),
    ensures
        r@.len() == spec_session_log_ids(line_views(names@).skip(from as int)).len(),
        forall|i: int|
            0 <= i < r@.len() ==> (#[trigger] r@[i]).0@ == spec_session_log_ids(
                line_views(names@).skip(from as int),
            )[i],
    decreases names@.len() - from,
{
    let ghost lv = line_views(names@).skip(from as int);
    if from == names.len() {
        let r: Vec<SessionId> = Vec::new();
        assert(lv =~= Seq::<Seq<char>>::empty());
        return r;
    }
    let mut rest = log_ids_from(names, from + 1);
    proof {
        assert(lv.drop_first() =~= line_views(names@).skip(from + 1));
        assert(lv[0] == names@[from as int]@);
    }
    let name = chars_of(names[from].as_str());
    if crate::text::starts_with_lit(&name, "session_") && crate::text::ends_with_lit(&name, ".log")
        && name.len() >= 12 {
        let id = crate::text::subvec(&name, 8, name.len() - 4);
        proof {
            reveal_strlit("session_");
            reveal_strlit(".log");
            assert(id@ =~= lv[0].subrange(8, lv[0].len() - 4));
        }
        let mut r: Vec<SessionId> = Vec::new();
        r.push(SessionId(string_of(&id)));
        let ghost rest0 = rest@;
        r.append(&mut rest);
        proof {
            let ms = spec_session_log_ids(lv);
            assert(ms =~= seq![lv[0].subrange(8, lv[0].len() - 4)] + spec_session_log_ids(
                lv.drop_first(),
            ));
            assert forall|i: int| 0 <= i < ms.len() implies (#[trigger] r@[i]).0@ == ms[i] by {
                if i > 0 {
                    assert(r@[i] == rest0[i - 1]);
                    assert(ms[i] == spec_session_log_ids(lv.drop_first())[i - 1]);
                }
            }
        }
        r
    } else {
        assert(!spec_is_session_log_name(lv[0])) by {
            reveal_strlit("session_");
            reveal_strlit(".log");
        }
        rest
    }
}

} // verus!
