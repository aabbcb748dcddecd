//! The agent-output parser: a pure text classifier turning raw agent output
//! into typed [`AgentResponse`] events, plus auxiliary extractors for tool
//! calls, fenced blocks and timestamps.
//!
//! The classifier is deterministic: the same input text always yields the
//! same classification and fields, with no dependency on wall-clock time or
//! outside state.

use vstd::prelude::*;

use crate::error::TmuxError;
use crate::opencode::protocol::{arg_pair_views, AgentResponse, MessageType, ToolCall};
use crate::text::{
    chars_of, contains_lit, contains_seq, copy_chars, join_chars, replace_lit, spec_join,
    spec_lines, spec_replace, spec_tokens, spec_trim, spec_trim_matches_char, split_lines,
    starts_with, starts_with_lit, string_of, sub_index, tokens_of, trim_chars, trim_matches_char,
    views_of,
};

verus! {

/// A parser over raw agent output.
pub struct OutputParser;

// ---------------------------------------------------------------------------
// Classification predicates
// ---------------------------------------------------------------------------

/// The output carries an error marker.
pub open spec fn spec_is_error(s: Seq<char>) -> bool {
    contains_seq(s, "<error>"@) || contains_seq(s, "Error:"@) || contains_seq(s, "error:"@)
}

/// The output carries a tool-invocation marker.
pub open spec fn spec_is_tool_call(s: Seq<char>) -> bool {
    contains_seq(s, "Running:"@) || contains_seq(s, "<tool_call>"@)
}

/// The output carries a completion marker.
pub open spec fn spec_is_completion(s: Seq<char>) -> bool {
    contains_seq(s, "<complete>"@) || contains_seq(s, "I'll complete"@) || contains_seq(
        s,
        "Done."@,
    )
}

/// The line matched one of the error markers.
pub open spec fn spec_line_is_error(l: Seq<char>) -> bool {
    contains_seq(l, "<error>"@) || contains_seq(l, "Error:"@) || contains_seq(l, "error:"@)
}

/// The line names an error inline, without tags.
pub open spec fn spec_line_has_error_word(l: Seq<char>) -> bool {
    contains_seq(l, "Error:"@) || contains_seq(l, "error:"@)
}

// ---------------------------------------------------------------------------
// Error content and error lines
// ---------------------------------------------------------------------------

/// The lines of `lines` without an inline error word, in order.
pub open spec fn spec_non_error_lines(lines: Seq<Seq<char>>) -> Seq<Seq<char>>
    decreases lines.len(),
{
    if lines.len() == 0 {
        Seq::empty()
    } else {
        let rest = spec_non_error_lines(lines.drop_first());
        if !spec_line_has_error_word(lines[0]) {
            seq![lines[0]] + rest
        } else {
            rest
        }
    }
}

/// The input with error tags removed and error lines dropped, trimmed.
pub open spec fn spec_strip_error_tags(s: Seq<char>) -> Seq<char> {
    let untagged = spec_replace(spec_replace(s, "<error>"@, Seq::empty()), "</error>"@, Seq::empty());
    spec_trim(spec_join(spec_non_error_lines(spec_lines(untagged)), '\n'))
}

/// The lines of `lines` that matched an error marker, in order.
pub open spec fn spec_error_marker_lines(lines: Seq<Seq<char>>) -> Seq<Seq<char>>
    decreases lines.len(),
{
    if lines.len() == 0 {
        Seq::empty()
    } else {
        let rest = spec_error_marker_lines(lines.drop_first());
        if spec_line_is_error(lines[0]) {
            seq![lines[0]] + rest
        } else {
            rest
        }
    }
}

/// The error detail of the output: the concatenation of exactly the lines
/// that matched an error marker, trimmed.
pub open spec fn spec_error_message(s: Seq<char>) -> Seq<char> {
    spec_trim(spec_join(spec_error_marker_lines(spec_lines(s)), '\n'))
}

fn non_error_lines_from(lines: &Vec<Vec<char>>, from: usize) -> (r: Vec<Vec<char>>)
    requires
        from <= lines@.len(),
    ensures
        views_of(r@) == spec_non_error_lines(views_of(lines@).skip(from as int)),
    decreases lines@.len() - from,
{
    let ghost lv = views_of(lines@).skip(from as int);
    if from == lines.len() {
        let r: Vec<Vec<char>> = Vec::new();
        assert(lv =~= Seq::<Seq<char>>::empty());
        assert(views_of(r@) =~= spec_non_error_lines(lv));
        return r;
    }
    let mut rest = non_error_lines_from(lines, from + 1);
    proof {
        assert(lv.drop_first() =~= views_of(lines@).skip(from + 1));
        assert(lv[0] == lines@[from as int]@);
    }
    let line = &lines[from];
    if !(contains_lit(line, "Error:") || contains_lit(line, "error:")) {
        let mut r: Vec<Vec<char>> = Vec::new();
        r.push(copy_chars(line));
        r.append(&mut rest);
        assert(views_of(r@) =~= spec_non_error_lines(lv));
        r
    } else {
        assert(views_of(rest@) =~= spec_non_error_lines(lv));
        rest
    }
}

fn error_marker_lines_from(lines: &Vec<Vec<char>>, from: usize) -> (r: Vec<Vec<char>>)
    requires
        from <= lines@.len(),
    ensures
        views_of(r@) == spec_error_marker_lines(views_of(lines@).skip(from as int)),
    decreases lines@.len() - from,
{
    let ghost lv = views_of(lines@).skip(from as int);
    if from == lines.len() {
        let r: Vec<Vec<char>> = Vec::new();
        assert(lv =~= Seq::<Seq<char>>::empty());
        assert(views_of(r@) =~= spec_error_marker_lines(lv));
        return r;
    }
    let mut rest = error_marker_lines_from(lines, from + 1);
    proof {
        assert(lv.drop_first() =~= views_of(lines@).skip(from + 1));
        assert(lv[0] == lines@[from as int]@);
    }
    let line = &lines[from];
    if contains_lit(line, "<error>") || contains_lit(line, "Error:") || contains_lit(
        line,
        "error:",
    ) {
        let mut r: Vec<Vec<char>> = Vec::new();
        r.push(copy_chars(line));
        r.append(&mut rest);
        assert(views_of(r@) =~= spec_error_marker_lines(lv));
        r
    } else {
        assert(views_of(rest@) =~= spec_error_marker_lines(lv));
        rest
    }
}

fn strip_error_tags_exec(s: &Vec<char>) -> (r: String)
    ensures
        r@ == spec_strip_error_tags(s@),
{
    proof {
        reveal_strlit("");
        assert(""@ =~= Seq::<char>::empty());
    }
    let untagged = replace_lit(&replace_lit(s, "<error>", ""), "</error>", "");
    let lines = split_lines(untagged);
    let kept = non_error_lines_from(&lines, 0);
    assert(views_of(lines@).skip(0) =~= views_of(lines@));
    let joined = join_chars(&kept, '\n');
    string_of(&trim_chars(joined))
}

fn error_message_exec(s: &Vec<char>) -> (r: String)
    ensures
        r@ == spec_error_message(s@),
{
    let lines = split_lines(copy_chars(s));
    let kept = error_marker_lines_from(&lines, 0);
    assert(views_of(lines@).skip(0) =~= views_of(lines@));
    let joined = join_chars(&kept, '\n');
    string_of(&trim_chars(joined))
}

// ---------------------------------------------------------------------------
// Tool calls
// ---------------------------------------------------------------------------

/// A tool call, as a mathematical value: a name and its argument pairs in
/// the order they were read.
pub open spec fn tool_call_matches(m: (Seq<char>, Seq<(Seq<char>, Seq<char>)>), t: ToolCall) -> bool {
    t.tool_name@ == m.0 && arg_pair_views(t.arguments@) == m.1
}

pub open spec fn tool_calls_match(
    ms: Seq<(Seq<char>, Seq<(Seq<char>, Seq<char>)>)>,
    ts: Seq<ToolCall>,
) -> bool {
    ts.len() == ms.len() && forall|i: int|
        0 <= i < ms.len() ==> tool_call_matches(ms[i], #[trigger] ts[i])
}

/// The call a `Running: ` line yields: the first token after the prefix is
/// the tool name; the arguments carry the remaining tokens joined by single
/// spaces under `raw_args` and the whole text after the prefix under
/// `command`.
pub open spec fn spec_running_line_call(l: Seq<char>) -> Option<
    (Seq<char>, Seq<(Seq<char>, Seq<char>)>),
> {
    if starts_with(l, "Running: "@) {
        let rest = l.skip("Running: "@.len() as int);
        let toks = spec_tokens(rest);
        if toks.len() == 0 {
            None
        } else {
            Some(
                (
                    toks[0],
                    seq![
                        ("raw_args"@, spec_join(toks.drop_first(), ' ')),
                        ("command"@, rest),
                    ],
                ),
            )
        }
    } else {
        None
    }
}

/// The call an inline `<tool_call>...</tool_call>` span yields: the span
/// between the first opening and the first closing tag, its first token the
/// tool name, every later `key=value` token an argument with quotes trimmed
/// from the value. A line without a well-formed span, or with an empty one,
/// yields none.
pub open spec fn spec_xml_tool_call(l: Seq<char>) -> Option<
    (Seq<char>, Seq<(Seq<char>, Seq<char>)>),
> {
    let i = sub_index(l, "<tool_call>"@);
    let j = sub_index(l, "</tool_call>"@);
    if i == -1 || j == -1 || j < i + "<tool_call>"@.len() {
        None
    } else {
        let content = l.subrange(i + "<tool_call>"@.len(), j);
        let toks = spec_tokens(content);
        if toks.len() == 0 {
            None
        } else {
            Some((toks[0], spec_kv_pairs(toks.drop_first())))
        }
    }
}

/// The `key=value` pairs of a token sequence: each token split at its first
/// `=`, quotes trimmed from the value; a token without `=` is skipped.
pub open spec fn spec_kv_pairs(toks: Seq<Seq<char>>) -> Seq<(Seq<char>, Seq<char>)>
    decreases toks.len(),
{
    if toks.len() == 0 {
        Seq::empty()
    } else {
        let rest = spec_kv_pairs(toks.drop_first());
        let t = toks[0];
        let e = crate::text::char_index(t, '=');
        if 0 <= e < t.len() {
            seq![(t.take(e), spec_trim_matches_char(t.skip(e + 1), '"'))] + rest
        } else {
            rest
        }
    }
}

/// The tool calls a single line yields: its `Running: ` call, if any, then
/// its inline span call, if any.
pub open spec fn spec_line_calls(l: Seq<char>) -> Seq<(Seq<char>, Seq<(Seq<char>, Seq<char>)>)> {
    (match spec_running_line_call(l) {
        Some(c) => seq![c],
        None => Seq::empty(),
    }) + (match spec_xml_tool_call(l) {
        Some(c) => seq![c],
        None => Seq::empty(),
    })
}

/// The tool calls of all lines, in line order.
pub open spec fn spec_output_calls(lines: Seq<Seq<char>>) -> Seq<
    (Seq<char>, Seq<(Seq<char>, Seq<char>)>),
>
    decreases lines.len(),
{
    if lines.len() == 0 {
        Seq::empty()
    } else {
        spec_line_calls(lines[0]) + spec_output_calls(lines.drop_first())
    }
}

fn kv_pairs_from(toks: &Vec<Vec<char>>, from: usize) -> (r: Vec<(String, String)>)
    requires
        from <= toks@.len(),
    ensures
        arg_pair_views(r@) == spec_kv_pairs(views_of(toks@).skip(from as int)),
    decreases toks@.len() - from,
{
    let ghost tv = views_of(toks@).skip(from as int);
    if from == toks.len() {
        let r: Vec<(String, String)> = Vec::new();
        assert(tv =~= Seq::<Seq<char>>::empty());
        assert(arg_pair_views(r@) =~= spec_kv_pairs(tv));
        return r;
    }
    let mut rest = kv_pairs_from(toks, from + 1);
    proof {
        assert(tv.drop_first() =~= views_of(toks@).skip(from + 1));
        assert(tv[0] == toks@[from as int]@);
    }
    let t = &toks[from];
    match crate::text::find_char(t, '=') {
        Some(e) => {
            proof {
                crate::text::lemma_char_index(t@, '=');
            }
            let tl = t.len();
            assert(e < tl);
            let key = string_of(&crate::text::subvec(t, 0, e));
            let raw_val = crate::text::subvec(t, e + 1, tl);
            assert(raw_val@ =~= t@.skip(e + 1));
            let value = string_of(&trim_matches_char(raw_val, '"'));
            let mut r: Vec<(String, String)> = Vec::new();
            r.push((key, value));
            r.append(&mut rest);
            assert(arg_pair_views(r@) =~= spec_kv_pairs(tv));
            r
        },
        None => {
            proof {
                crate::text::lemma_char_index(t@, '=');
            }
            assert(arg_pair_views(rest@) =~= spec_kv_pairs(tv));
            rest
        },
    }
}

fn running_line_call(line: &Vec<char>) -> (r: Option<ToolCall>)
    ensures
        (match spec_running_line_call(line@) {
            Some(m) => r matches Some(t) && tool_call_matches(m, t),
            None => r is None,
        }),
{
    match crate::text::strip_prefix_lit(line, "Running: ") {
        None => None,
        Some(rest) => {
            let toks = tokens_of(copy_chars(&rest));
            if toks.len() == 0 {
                None
            } else {
                let name = string_of(&toks[0]);
                let tail = crate::text::subvec_of_vecs(&toks, 1, toks.len());
                proof {
                    assert(views_of(tail@) =~= spec_tokens(rest@).drop_first());
                }
                let raw_args = string_of(&join_chars(&tail, ' '));
                let mut arguments: Vec<(String, String)> = Vec::new();
                arguments.push((String::from_str("raw_args"), raw_args));
                arguments.push((String::from_str("command"), string_of(&rest)));
                let t = ToolCall { tool_name: name, arguments };
                proof {
                    let m = spec_running_line_call(line@)->0;
                    assert(views_of(toks@)[0] == spec_tokens(rest@)[0]);
                    assert(arg_pair_views(t.arguments@) =~= m.1);
                }
                Some(t)
            }
        },
    }
}

fn xml_line_call(line: &Vec<char>) -> (r: Option<ToolCall>)
    ensures
        (match spec_xml_tool_call(line@) {
            Some(m) => r matches Some(t) && tool_call_matches(m, t),
            None => r is None,
        }),
{
    let open_tag = chars_of("<tool_call>");
    let close_tag = chars_of("</tool_call>");
    let i = match crate::text::find_sub(line, &open_tag) {
        None => {
            return None;
        },
        Some(i) => i,
    };
    let j = match crate::text::find_sub(line, &close_tag) {
        None => {
            return None;
        },
        Some(j) => j,
    };
    let llen = line.len();
    assert(i + open_tag@.len() <= llen);
    if j < i + open_tag.len() {
        return None;
    }
    let content = crate::text::subvec(line, i + open_tag.len(), j);
    let toks = tokens_of(content);
    if toks.len() == 0 {
        return None;
    }
    let name = string_of(&toks[0]);
    let arguments = kv_pairs_from(&toks, 1);
    let t = ToolCall { tool_name: name, arguments };
    proof {
        let m = spec_xml_tool_call(line@)->0;
        let cv = line@.subrange(i + "<tool_call>"@.len(), j as int);
        assert(views_of(toks@)[0] == spec_tokens(cv)[0]);
        assert(views_of(toks@).skip(1) =~= spec_tokens(cv).drop_first());
        assert(tool_call_matches(m, t));
    }
    Some(t)
}

fn output_calls_from(lines: &Vec<Vec<char>>, from: usize) -> (r: Vec<ToolCall>)
    requires
        from <= lines@.len(),
    ensures
        tool_calls_match(spec_output_calls(views_of(lines@).skip(from as int)), r@),
    decreases lines@.len() - from,
{
    let ghost lv = views_of(lines@).skip(from as int);
    if from == lines.len() {
        let r: Vec<ToolCall> = Vec::new();
        assert(lv =~= Seq::<Seq<char>>::empty());
        return r;
    }
    let mut rest = output_calls_from(lines, from + 1);
    proof {
        assert(lv.drop_first() =~= views_of(lines@).skip(from + 1));
        assert(lv[0] == lines@[from as int]@);
    }
    let line = &lines[from];
    let mut r: Vec<ToolCall> = Vec::new();
    let ghost mhead = spec_line_calls(lv[0]);
    if let Some(t) = running_line_call(line) {
        r.push(t);
    }
    if let Some(t) = xml_line_call(line) {
        r.push(t);
    }
    proof {
        assert(tool_calls_match(mhead, r@));
    }
    r.append(&mut rest);
    proof {
        let ms = spec_output_calls(lv);
        assert(ms == mhead + spec_output_calls(lv.drop_first()));
        assert forall|i: int| 0 <= i < ms.len() implies tool_call_matches(
            ms[i],
            #[trigger] r@[i],
        ) by {
            if i < mhead.len() {
                assert(ms[i] == mhead[i]);
            } else {
                assert(ms[i] == spec_output_calls(lv.drop_first())[i - mhead.len()]);
            }
        }
    }
    r
}

// ---------------------------------------------------------------------------
// Tool-call content and completion content
// ---------------------------------------------------------------------------

/// A line kept in the content of a tool-call response: neither a command
/// line nor an inline span line.
pub open spec fn spec_is_tool_content_line(l: Seq<char>) -> bool {
    !starts_with(l, "Running:"@) && !starts_with(l, "<tool_call>"@)
}

/// The lines kept in the content of a tool-call response, in order.
pub open spec fn spec_tool_content_lines(lines: Seq<Seq<char>>) -> Seq<Seq<char>>
    decreases lines.len(),
{
    if lines.len() == 0 {
        Seq::empty()
    } else {
        let rest = spec_tool_content_lines(lines.drop_first());
        if spec_is_tool_content_line(lines[0]) {
            seq![lines[0]] + rest
        } else {
            rest
        }
    }
}

/// The content of a tool-call response: its non-command lines, joined and
/// trimmed.
pub open spec fn spec_tool_content(s: Seq<char>) -> Seq<char> {
    spec_trim(spec_join(spec_tool_content_lines(spec_lines(s)), '\n'))
}

fn tool_content_lines_from(lines: &Vec<Vec<char>>, from: usize) -> (r: Vec<Vec<char>>)
    requires
        from <= lines@.len(),
    ensures
        views_of(r@) == spec_tool_content_lines(views_of(lines@).skip(from as int)),
    decreases lines@.len() - from,
{
    let ghost lv = views_of(lines@).skip(from as int);
    if from == lines.len() {
        let r: Vec<Vec<char>> = Vec::new();
        assert(lv =~= Seq::<Seq<char>>::empty());
        assert(views_of(r@) =~= spec_tool_content_lines(lv));
        return r;
    }
    let mut rest = tool_content_lines_from(lines, from + 1);
    proof {
        assert(lv.drop_first() =~= views_of(lines@).skip(from + 1));
        assert(lv[0] == lines@[from as int]@);
    }
    let line = &lines[from];
    if !starts_with_lit(line, "Running:") && !starts_with_lit(line, "<tool_call>") {
        let mut r: Vec<Vec<char>> = Vec::new();
        r.push(copy_chars(line));
        r.append(&mut rest);
        assert(views_of(r@) =~= spec_tool_content_lines(lv));
        r
    } else {
        assert(views_of(rest@) =~= spec_tool_content_lines(lv));
        rest
    }
}

fn tool_content_exec(s: &Vec<char>) -> (r: String)
    ensures
        r@ == spec_tool_content(s@),
{
    let lines = split_lines(copy_chars(s));
    let kept = tool_content_lines_from(&lines, 0);
    assert(views_of(lines@).skip(0) =~= views_of(lines@));
    let joined = join_chars(&kept, '\n');
    string_of(&trim_chars(joined))
}

/// A line kept in completion content: no completion phrase on it.
pub open spec fn spec_is_completion_content_line(l: Seq<char>) -> bool {
    !contains_seq(l, "I'll complete"@) && !contains_seq(l, "Done."@)
}

/// The lines kept in completion content, in order.
pub open spec fn spec_completion_content_lines(lines: Seq<Seq<char>>) -> Seq<Seq<char>>
    decreases lines.len(),
{
    if lines.len() == 0 {
        Seq::empty()
    } else {
        let rest = spec_completion_content_lines(lines.drop_first());
        if spec_is_completion_content_line(lines[0]) {
            seq![lines[0]] + rest
        } else {
            rest
        }
    }
}

/// The content of a completion response: the input with completion tags
/// removed and completion-phrase lines dropped, trimmed.
pub open spec fn spec_strip_completion_tags(s: Seq<char>) -> Seq<char> {
    let untagged = spec_replace(
        spec_replace(s, "<complete>"@, Seq::empty()),
        "</complete>"@,
        Seq::empty(),
    );
    spec_trim(spec_join(spec_completion_content_lines(spec_lines(untagged)), '\n'))
}

fn completion_content_lines_from(lines: &Vec<Vec<char>>, from: usize) -> (r: Vec<Vec<char>>)
    requires
        from <= lines@.len(),
    ensures
        views_of(r@) == spec_completion_content_lines(views_of(lines@).skip(from as int)),
    decreases lines@.len() - from,
{
    let ghost lv = views_of(lines@).skip(from as int);
    if from == lines.len() {
        let r: Vec<Vec<char>> = Vec::new();
        assert(lv =~= Seq::<Seq<char>>::empty());
        assert(views_of(r@) =~= spec_completion_content_lines(lv));
        return r;
    }
    let mut rest = completion_content_lines_from(lines, from + 1);
    proof {
        assert(lv.drop_first() =~= views_of(lines@).skip(from + 1));
        assert(lv[0] == lines@[from as int]@);
    }
    let line = &lines[from];
    if !contains_lit(line, "I'll complete") && !contains_lit(line, "Done.") {
        let mut r: Vec<Vec<char>> = Vec::new();
        r.push(copy_chars(line));
        r.append(&mut rest);
        assert(views_of(r@) =~= spec_completion_content_lines(lv));
        r
    } else {
        assert(views_of(rest@) =~= spec_completion_content_lines(lv));
        rest
    }
}

fn strip_completion_tags_exec(s: &Vec<char>) -> (r: String)
    ensures
        r@ == spec_strip_completion_tags(s@),
{
    proof {
        reveal_strlit("");
        assert(""@ =~= Seq::<char>::empty());
    }
    let untagged = replace_lit(&replace_lit(s, "<complete>", ""), "</complete>", "");
    let lines = split_lines(untagged);
    let kept = completion_content_lines_from(&lines, 0);
    assert(views_of(lines@).skip(0) =~= views_of(lines@));
    let joined = join_chars(&kept, '\n');
    string_of(&trim_chars(joined))
}

// ---------------------------------------------------------------------------
// Classification
// ---------------------------------------------------------------------------

/// Exactly what the parser returns for output `s`. First match wins: an
/// error marker, then a tool-invocation marker, then a completion marker,
/// then a plain message.
pub open spec fn parser_response_matches(s: Seq<char>, r: AgentResponse) -> bool {
    if spec_is_error(s) {
        &&& !r.success
        &&& r.message_type is Error
        &&& r.content@ == spec_strip_error_tags(s)
        &&& r.tool_calls@.len() == 0
        &&& r.error matches Some(e) && e@ == spec_error_message(s)
    } else if spec_is_tool_call(s) {
        &&& r.success
        &&& r.message_type is ToolCall
        &&& r.content@ == spec_tool_content(s)
        &&& tool_calls_match(spec_output_calls(spec_lines(s)), r.tool_calls@)
        &&& r.error is None
    } else if spec_is_completion(s) {
        &&& r.success
        &&& r.message_type is Completion
        &&& r.content@ == spec_strip_completion_tags(s)
        &&& r.tool_calls@.len() == 0
        &&& r.error is None
    } else {
        &&& r.success
        &&& r.message_type is Message
        &&& r.content@ == s
        &&& r.tool_calls@.len() == 0
        &&& r.error is None
    }
}

/// The error classification takes precedence: output holding both an error
/// marker and a tool-call marker is classified as an error.
pub proof fn lemma_error_takes_precedence(s: Seq<char>, r: AgentResponse)
    requires
        spec_is_error(s),
        spec_is_tool_call(s),
        parser_response_matches(s, r),
    ensures
        r.message_type is Error,
        !r.success,
{
}

/// Classification is pure: the same output text is always classified the
/// same way.
pub proof fn lemma_parser_deterministic(s: Seq<char>, r1: AgentResponse, r2: AgentResponse)
    requires
        parser_response_matches(s, r1),
        parser_response_matches(s, r2),
    ensures
        r1.success == r2.success,
        r1.message_type == r2.message_type,
        r1.content@ == r2.content@,
        r1.tool_calls@.len() == r2.tool_calls@.len(),
        r1.error is Some <==> r2.error is Some,
{
    if spec_is_error(s) {
    } else if spec_is_tool_call(s) {
    } else if spec_is_completion(s) {
    } else {
    }
}

impl OutputParser {
    /// Classifies one block of raw agent output. First match wins: an error
    /// marker, then a tool-invocation marker, then a completion marker;
    /// anything else is a plain message.
    pub fn parse_agent_output(output: &str) -> (r: Result<AgentResponse, TmuxError>)
        ensures
            r matches Ok(resp) && parser_response_matches(output@, resp),
    {
        let chars = chars_of(output);
        if contains_lit(&chars, "<error>") || contains_lit(&chars, "Error:") || contains_lit(
            &chars,
            "error:",
        ) {
            return Ok(
                AgentResponse {
                    success: false,
                    message_type: MessageType::Error,
                    content: strip_error_tags_exec(&chars),
                    tool_calls: Vec::new(),
                    error: Some(error_message_exec(&chars)),
                },
            );
        }
        if contains_lit(&chars, "Running:") || contains_lit(&chars, "<tool_call>") {
            let lines = split_lines(copy_chars(&chars));
            let tool_calls = output_calls_from(&lines, 0);
            assert(views_of(lines@).skip(0) =~= spec_lines(output@));
            return Ok(
                AgentResponse {
                    success: true,
                    message_type: MessageType::ToolCall,
                    content: tool_content_exec(&chars),
                    tool_calls,
                    error: None,
                },
            );
        }
        if contains_lit(&chars, "<complete>") || contains_lit(&chars, "I'll complete")
            || contains_lit(&chars, "Done.") {
            return Ok(
                AgentResponse {
                    success: true,
                    message_type: MessageType::Completion,
                    content: strip_completion_tags_exec(&chars),
                    tool_calls: Vec::new(),
                    error: None,
                },
            );
        }
        Ok(
            AgentResponse {
                success: true,
                message_type: MessageType::Message,
                content: String::from_str(output),
                tool_calls: Vec::new(),
                error: None,
            },
        )
    }

    /// The tool calls of a response, copied out.
    pub fn extract_tool_calls(response: &AgentResponse) -> (r: Vec<ToolCall>)
        ensures
            tool_calls_match(
                response.tool_calls@.map_values(
                    |t: ToolCall| (t.tool_name@, arg_pair_views(t.arguments@)),
                ),
                r@,
            ),
    {
        let n = response.tool_calls.len();
        let mut r: Vec<ToolCall> = Vec::new();
        let mut i: usize = 0;
        while i < n
            invariant
                n == response.tool_calls@.len(),
                i <= n,
                r@.len() == i,
                forall|k: int|
                    0 <= k < i ==> tool_call_matches(
                        (
                            response.tool_calls@[k].tool_name@,
                            arg_pair_views(response.tool_calls@[k].arguments@),
                        ),
                        #[trigger] r@[k],
                    ),
            decreases n - i,
        {
            r.push(clone_tool_call(&response.tool_calls[i]));
            i = i + 1;
        }
        proof {
            let ms = response.tool_calls@.map_values(
                |t: ToolCall| (t.tool_name@, arg_pair_views(t.arguments@)),
            );
            assert forall|k: int| 0 <= k < ms.len() implies tool_call_matches(
                ms[k],
                #[trigger] r@[k],
            ) by {
                assert(ms[k] == (
                    response.tool_calls@[k].tool_name@,
                    arg_pair_views(response.tool_calls@[k].arguments@),
                ));
            }
        }
        r
    }

    /// Splits a larger buffer into segments at each line that introduces a
    /// new marker, then classifies each segment independently.
    pub fn parse_multiple_outputs(output: &str) -> (r: Vec<AgentResponse>)
        ensures
            r@.len() == spec_segments(output@).len(),
            forall|i: int|
                0 <= i < r@.len() ==> parser_response_matches(
                    spec_segments(output@)[i],
                    #[trigger] r@[i],
                ),
    {
        let lines = split_lines(chars_of(output));
        let segments = segments_from(&lines, 0, Vec::new());
        proof {
            assert(views_of(lines@).skip(0) =~= spec_lines(output@));
        }
        assert(views_of(segments@) == spec_segments(output@));
        let n = segments.len();
        let mut r: Vec<AgentResponse> = Vec::new();
        let mut i: usize = 0;
        while i < n
            invariant
                n == segments@.len(),
                views_of(segments@) == spec_segments(output@),
                i <= n,
                r@.len() == i,
                forall|k: int|
                    0 <= k < i ==> parser_response_matches(
                        views_of(segments@)[k],
                        #[trigger] r@[k],
                    ),
            decreases n - i,
        {
            let text = string_of(&segments[i]);
            match Self::parse_agent_output(text.as_str()) {
                Ok(resp) => {
                    r.push(resp);
                },
                Err(_) => {
                    proof {
                        assert(false);
                    }
                },
            }
            i = i + 1;
        }
        r
    }

    /// The JSON-looking blocks of the output, each trimmed, found by
    /// tracking opening lines and a brace-depth counter.
    pub fn extract_json_blocks(output: &str) -> (r: Vec<String>)
        ensures
            r@.len() == spec_json_acc(spec_lines(output@), false, Seq::empty(), 0).len(),
            forall|i: int|
                0 <= i < r@.len() ==> (#[trigger] r@[i])@ == spec_json_acc(
                    spec_lines(output@),
                    false,
                    Seq::empty(),
                    0,
                )[i],
    {
        let lines = split_lines(chars_of(output));
        let blocks = json_blocks_from(&lines, 0, false, Vec::new(), 0);
        proof {
            assert(views_of(lines@).skip(0) =~= spec_lines(output@));
        }
        let n = blocks.len();
        let mut r: Vec<String> = Vec::new();
        let mut i: usize = 0;
        while i < n
            invariant
                n == blocks@.len(),
                views_of(blocks@) == spec_json_acc(spec_lines(output@), false, Seq::empty(), 0),
                i <= n,
                r@.len() == i,
                forall|k: int| 0 <= k < i ==> (#[trigger] r@[k])@ == views_of(blocks@)[k],
            decreases n - i,
        {
            r.push(string_of(&blocks[i]));
            i = i + 1;
        }
        r
    }

    /// The fenced code blocks of the output, as `(language, content)`
    /// pairs, tracking a toggling fence state; an unterminated block is
    /// dropped.
    pub fn extract_code_blocks(output: &str) -> (r: Vec<(String, String)>)
        ensures
            pairs_match(
                spec_code_acc(spec_lines(output@), false, Seq::empty(), Seq::empty()),
                r@,
            ),
    {
        let lines = split_lines(chars_of(output));
        let r = code_blocks_from(&lines, 0, false, Vec::new(), Vec::new());
        proof {
            assert(views_of(lines@).skip(0) =~= spec_lines(output@));
        }
        r
    }

    /// Splits a command line into its name and arguments at whitespace;
    /// nothing for a blank line.
    pub fn extract_command_line(command: &str) -> (r: Option<(String, Vec<String>)>)
        ensures
            spec_tokens(command@).len() == 0 <==> r is None,
            r matches Some(p) ==> {
                let toks = spec_tokens(command@);
                &&& p.0@ == toks[0]
                &&& p.1@.len() == toks.len() - 1
                &&& forall|k: int| 0 <= k < toks.len() - 1 ==> (#[trigger] p.1@[k])@ == toks[k + 1]
            },
    {
        let toks = tokens_of(chars_of(command));
        if toks.len() == 0 {
            return None;
        }
        let name = string_of(&toks[0]);
        let n = toks.len();
        let mut args: Vec<String> = Vec::new();
        let mut i: usize = 1;
        while i < n
            invariant
                n == toks@.len(),
                views_of(toks@) == spec_tokens(command@),
                1 <= i <= n,
                args@.len() == i - 1,
                forall|k: int|
                    0 <= k < i - 1 ==> (#[trigger] args@[k])@ == views_of(toks@)[k + 1],
            decreases n - i,
        {
            args.push(string_of(&toks[i]));
            i = i + 1;
        }
        assert(name@ == views_of(toks@)[0]);
        Some((name, args))
    }

    /// Extracts an epoch-seconds timestamp from a line, trying an ordered
    /// list of patterns: bracketed ten-digit epoch seconds, bracketed
    /// thirteen-digit epoch milliseconds, `T`-prefixed ten-digit epoch
    /// seconds, then a bracketed civil date-time.
    pub fn parse_timestamp(line: &str) -> (r: Option<u64>)
        ensures
            r == spec_parse_timestamp(line@),
    {
        let v = chars_of(line);
        if let Some(i) = find_bracket_ts(&v, 10) {
            proof {
                lemma_first_bracket_ts(v@, 10, 0);
                assert(crate::text::all_digits(v@.subrange(i + 1, i + 11)));
                lemma_digits_val_bound(v@.subrange(i + 1, i + 11));
                lemma_pow10_mono(10, 13);
                lemma_pow10_13();
            }
            let d = digits_to_u64(&v, i + 1, i + 11);
            return Some(d);
        }
        if let Some(i) = find_bracket_ts(&v, 13) {
            proof {
                lemma_first_bracket_ts(v@, 13, 0);
                assert(crate::text::all_digits(v@.subrange(i + 1, i + 14)));
                lemma_digits_val_bound(v@.subrange(i + 1, i + 14));
                lemma_pow10_13();
            }
            let d = digits_to_u64(&v, i + 1, i + 14);
            return Some(d / 1000);
        }
        if let Some(i) = find_t_ts(&v) {
            proof {
                lemma_first_t_ts(v@, 0);
                assert(crate::text::all_digits(v@.subrange(i + 1, i + 11)));
                lemma_digits_val_bound(v@.subrange(i + 1, i + 11));
                lemma_pow10_mono(10, 13);
                lemma_pow10_13();
            }
            let vl = v.len();
            assert(i + 11 <= vl);
            let d = digits_to_u64(&v, i + 1, i + 11);
            return Some(d);
        }
        if let Some(i) = find_iso_ts(&v) {
            proof {
                lemma_first_iso_ts(v@, 0);
            }
            let vl = v.len();
            assert(i + 21 <= vl);
            let inner = crate::text::subvec(&v, i + 1, i + 20);
            let text = string_of(&inner);
            return match datetime_epoch(text.as_str()) {
                Some(e) => if e >= 0 {
                    Some(e as u64)
                } else {
                    None
                },
                None => None,
            };
        }
        None
    }

    /// The lines of the output that matched an error marker, each with its
    /// tags and inline error lines stripped.
    pub fn extract_errors(output: &str) -> (r: Vec<String>)
        ensures
            r@.len() == spec_error_marker_lines(spec_lines(output@)).len(),
            forall|i: int|
                0 <= i < r@.len() ==> (#[trigger] r@[i])@ == spec_strip_error_tags(
                    spec_error_marker_lines(spec_lines(output@))[i],
                ),
    {
        let lines = split_lines(chars_of(output));
        let kept = error_marker_lines_from(&lines, 0);
        assert(views_of(lines@).skip(0) =~= spec_lines(output@));
        let n = kept.len();
        let mut r: Vec<String> = Vec::new();
        let mut i: usize = 0;
        while i < n
            invariant
                n == kept@.len(),
                views_of(kept@) == spec_error_marker_lines(spec_lines(output@)),
                i <= n,
                r@.len() == i,
                forall|k: int|
                    0 <= k < i ==> (#[trigger] r@[k])@ == spec_strip_error_tags(
                        views_of(kept@)[k],
                    ),
            decreases n - i,
        {
            r.push(strip_error_tags_exec(&kept[i]));
            i = i + 1;
        }
        r
    }
}

// ---------------------------------------------------------------------------
// Segment splitting
// ---------------------------------------------------------------------------

/// A line that introduces a new segment.
pub open spec fn spec_is_segment_marker(l: Seq<char>) -> bool {
    contains_seq(l, "<error>"@) || contains_seq(l, "<complete>"@) || contains_seq(l, "Running:"@)
}

/// The segments of a sequence of lines, given text `acc` already
/// accumulated: a marker line closes the accumulated segment and starts a
/// new one; every line is carried with a trailing newline; a final
/// non-empty accumulation is its own segment. This is a heuristic boundary
/// detector, not a strict grammar: a marker within a segment's later lines
/// does not retroactively split what was accumulated before it.
pub open spec fn spec_segments_acc(lines: Seq<Seq<char>>, acc: Seq<char>) -> Seq<Seq<char>>
    decreases lines.len(),
{
    if lines.len() == 0 {
        if acc.len() == 0 {
            Seq::empty()
        } else {
            seq![acc]
        }
    } else {
        let l = lines[0];
        if spec_is_segment_marker(l) && acc.len() > 0 {
            seq![acc] + spec_segments_acc(lines.drop_first(), l + seq!['\n'])
        } else {
            spec_segments_acc(lines.drop_first(), acc + l + seq!['\n'])
        }
    }
}

/// The segments of a raw buffer.
pub open spec fn spec_segments(s: Seq<char>) -> Seq<Seq<char>> {
    spec_segments_acc(spec_lines(s), Seq::empty())
}

fn segments_from(lines: &Vec<Vec<char>>, from: usize, acc: Vec<char>) -> (r: Vec<Vec<char>>)
    requires
        from <= lines@.len(),
    ensures
        views_of(r@) == spec_segments_acc(views_of(lines@).skip(from as int), acc@),
    decreases lines@.len() - from,
{
    let ghost lv = views_of(lines@).skip(from as int);
    if from == lines.len() {
        let mut r: Vec<Vec<char>> = Vec::new();
        assert(lv =~= Seq::<Seq<char>>::empty());
        if acc.len() == 0 {
            assert(views_of(r@) =~= spec_segments_acc(lv, acc@));
            return r;
        }
        r.push(acc);
        assert(views_of(r@) =~= spec_segments_acc(lv, r@[0]@));
        return r;
    }
    proof {
        assert(lv.drop_first() =~= views_of(lines@).skip(from + 1));
        assert(lv[0] == lines@[from as int]@);
    }
    let line = &lines[from];
    let marker = contains_lit(line, "<error>") || contains_lit(line, "<complete>") || contains_lit(
        line,
        "Running:",
    );
    if marker && acc.len() > 0 {
        let mut fresh: Vec<char> = copy_chars(line);
        fresh.push('\n');
        assert(fresh@ =~= lv[0] + seq!['\n']);
        let mut rest = segments_from(lines, from + 1, fresh);
        let mut r: Vec<Vec<char>> = Vec::new();
        r.push(acc);
        r.append(&mut rest);
        assert(views_of(r@) =~= spec_segments_acc(lv, r@[0]@));
        r
    } else {
        let mut acc2 = acc;
        crate::text::append_chars(&mut acc2, line);
        acc2.push('\n');
        assert(acc2@ =~= acc@ + lv[0] + seq!['\n']);
        segments_from(lines, from + 1, acc2)
    }
}

// ---------------------------------------------------------------------------
// Fenced blocks
// ---------------------------------------------------------------------------

/// The JSON-looking blocks of a sequence of lines, given the carried state:
/// whether a block is open, the text accumulated for it, and the running
/// brace depth. A line whose trimmed text opens a brace or a ```json fence
/// opens a block; inside a block every line is accumulated and the brace
/// depth updated; a line closing the depth to zero with a `}` emits the
/// trimmed accumulation; a fence line at depth zero closes the block
/// without emitting, keeping the accumulation for a later block.
pub open spec fn spec_json_acc(
    lines: Seq<Seq<char>>,
    in_json: bool,
    cur: Seq<char>,
    depth: int,
) -> Seq<Seq<char>>
    decreases lines.len(),
{
    if lines.len() == 0 {
        Seq::empty()
    } else {
        let l = lines[0];
        let started = in_json || starts_with(spec_trim(l), "{"@) || starts_with(
            spec_trim(l),
            "```json"@,
        );
        if started {
            let cur2 = cur + l + seq!['\n'];
            let depth2 = depth + crate::text::count_char(l, '{') - crate::text::count_char(l, '}');
            if depth2 == 0 && contains_seq(l, "}"@) {
                seq![spec_trim(cur2)] + spec_json_acc(lines.drop_first(), false, Seq::empty(), 0)
            } else {
                let still = !(contains_seq(spec_trim(l), "```"@) && depth2 == 0);
                spec_json_acc(lines.drop_first(), still, cur2, depth2)
            }
        } else {
            spec_json_acc(lines.drop_first(), false, cur, depth)
        }
    }
}

fn json_blocks_from(lines: &Vec<Vec<char>>, from: usize, in_json: bool, cur: Vec<char>, depth: i128)
    -> (r: Vec<Vec<char>>)
    requires
        from <= lines@.len(),
        -(cur@.len() as int) <= depth as int <= cur@.len() as int,
    ensures
        views_of(r@) == spec_json_acc(views_of(lines@).skip(from as int), in_json, cur@, depth as int),
    decreases lines@.len() - from,
{
    let ghost lv = views_of(lines@).skip(from as int);
    if from == lines.len() {
        let r: Vec<Vec<char>> = Vec::new();
        assert(lv =~= Seq::<Seq<char>>::empty());
        assert(views_of(r@) =~= spec_json_acc(lv, in_json, cur@, depth as int));
        return r;
    }
    proof {
        assert(lv.drop_first() =~= views_of(lines@).skip(from + 1));
        assert(lv[0] == lines@[from as int]@);
    }
    let line = &lines[from];
    let trimmed = trim_chars(copy_chars(line));
    let started = in_json || starts_with_lit(&trimmed, "{") || starts_with_lit(&trimmed, "```json");
    if started {
        let mut cur2 = cur;
        crate::text::append_chars(&mut cur2, line);
        cur2.push('\n');
        assert(cur2@ =~= cur@ + lv[0] + seq!['\n']);
        let opens = crate::text::count_char_exec(line, '{');
        let closes = crate::text::count_char_exec(line, '}');
        let cl = cur2.len();
        proof {
            crate::text::lemma_count_char_bound(line@, '{');
            crate::text::lemma_count_char_bound(line@, '}');
            assert(cur2@.len() == cl);
            assert(cur@.len() <= cl && line@.len() < cl);
        }
        let depth2: i128 = depth + opens as i128 - closes as i128;
        assert(-(cl as int) <= depth2 as int <= cl as int);
        if depth2 == 0 && contains_lit(line, "}") {
            let rest = json_blocks_from(lines, from + 1, false, Vec::new(), 0);
            let mut r: Vec<Vec<char>> = Vec::new();
            r.push(trim_chars(cur2));
            let mut rest2 = rest;
            r.append(&mut rest2);
            assert(views_of(r@) =~= spec_json_acc(lv, in_json, cur@, depth as int));
            r
        } else {
            let still = !(contains_lit(&trimmed, "```") && depth2 == 0);
            let r = json_blocks_from(lines, from + 1, still, cur2, depth2);
            assert(views_of(r@) =~= spec_json_acc(lv, in_json, cur@, depth as int));
            r
        }
    } else {
        let r = json_blocks_from(lines, from + 1, false, cur, depth);
        assert(views_of(r@) =~= spec_json_acc(lv, in_json, cur@, depth as int));
        r
    }
}

/// The code blocks of a sequence of lines, given the carried state: whether
/// a fence is open, its language tag, and the text accumulated so far. A
/// fence line toggles: opening stores the trimmed rest of the line as the
/// language, closing emits the pair of language and trimmed content. An
/// unterminated block is dropped.
pub open spec fn spec_code_acc(
    lines: Seq<Seq<char>>,
    in_block: bool,
    lang: Seq<char>,
    content: Seq<char>,
) -> Seq<(Seq<char>, Seq<char>)>
    decreases lines.len(),
{
    if lines.len() == 0 {
        Seq::empty()
    } else {
        let l = lines[0];
        if starts_with(l, "```"@) {
            if in_block {
                seq![(lang, spec_trim(content))] + spec_code_acc(
                    lines.drop_first(),
                    false,
                    Seq::empty(),
                    Seq::empty(),
                )
            } else {
                spec_code_acc(lines.drop_first(), true, spec_trim(l.skip(3)), Seq::empty())
            }
        } else if in_block {
            spec_code_acc(lines.drop_first(), true, lang, content + l + seq!['\n'])
        } else {
            spec_code_acc(lines.drop_first(), false, lang, content)
        }
    }
}

/// `ps` lists exactly the pairs `ms`, componentwise.
pub open spec fn pairs_match(ms: Seq<(Seq<char>, Seq<char>)>, ps: Seq<(String, String)>) -> bool {
    ps.len() == ms.len() && forall|i: int|
        0 <= i < ms.len() ==> (#[trigger] ps[i]).0@ == ms[i].0 && ps[i].1@ == ms[i].1
}

fn code_blocks_from(
    lines: &Vec<Vec<char>>,
    from: usize,
    in_block: bool,
    lang: Vec<char>,
    content: Vec<char>,
) -> (r: Vec<(String, String)>)
    requires
        from <= lines@.len(),
    ensures
        pairs_match(
            spec_code_acc(views_of(lines@).skip(from as int), in_block, lang@, content@),
            r@,
        ),
    decreases lines@.len() - from,
{
    let ghost lv = views_of(lines@).skip(from as int);
    if from == lines.len() {
        let r: Vec<(String, String)> = Vec::new();
        assert(lv =~= Seq::<Seq<char>>::empty());
        return r;
    }
    proof {
        assert(lv.drop_first() =~= views_of(lines@).skip(from + 1));
        assert(lv[0] == lines@[from as int]@);
    }
    let line = &lines[from];
    if starts_with_lit(line, "```") {
        if in_block {
            let mut rest = code_blocks_from(lines, from + 1, false, Vec::new(), Vec::new());
            let mut r: Vec<(String, String)> = Vec::new();
            r.push((string_of(&lang), string_of(&trim_chars(content))));
            r.append(&mut rest);
            proof {
                let ms = spec_code_acc(lv, in_block, lang@, content@);
                assert forall|i: int| 0 <= i < ms.len() implies (#[trigger] r@[i]).0@ == ms[i].0
                    && r@[i].1@ == ms[i].1 by {
                    if i > 0 {
                        assert(ms[i] == spec_code_acc(
                            lv.drop_first(),
                            false,
                            Seq::<char>::empty(),
                            Seq::<char>::empty(),
                        )[i - 1]);
                    }
                }
            }
            r
        } else {
            proof {
                reveal_strlit("```");
                assert(3 <= line@.len());
            }
            let rest_of_line = crate::text::subvec(line, 3, line.len());
            assert(rest_of_line@ =~= lv[0].skip(3));
            code_blocks_from(lines, from + 1, true, trim_chars(rest_of_line), Vec::new())
        }
    } else if in_block {
        let mut content2 = content;
        crate::text::append_chars(&mut content2, line);
        content2.push('\n');
        assert(content2@ =~= content@ + lv[0] + seq!['\n']);
        code_blocks_from(lines, from + 1, true, lang, content2)
    } else {
        code_blocks_from(lines, from + 1, false, lang, content)
    }
}

// ---------------------------------------------------------------------------
// Timestamps
// ---------------------------------------------------------------------------

/// Every character of `s` in `[from, to)` is an ASCII digit.
pub open spec fn digits_at(s: Seq<char>, from: int, to: int) -> bool {
    forall|k: int| from <= k < to ==> '0' <= #[trigger] s[k] <= '9'
}

/// At position `i`, `s` holds a `[`, `n` digits, and a `]`.
pub open spec fn is_bracket_ts_at(s: Seq<char>, i: int, n: int) -> bool {
    &&& 0 <= i
    &&& i + n + 2 <= s.len()
    &&& s[i] == '['
    &&& s[i + n + 1] == ']'
    &&& digits_at(s, i + 1, i + n + 1)
}

/// At position `i`, `s` holds a `T` followed by ten digits.
pub open spec fn is_t_ts_at(s: Seq<char>, i: int) -> bool {
    &&& 0 <= i
    &&& i + 11 <= s.len()
    &&& s[i] == 'T'
    &&& digits_at(s, i + 1, i + 11)
}

/// At position `i`, `s` holds a bracketed civil date-time,
/// `[dddd-dd-dd dd:dd:dd]` with `d` a digit.
pub open spec fn is_iso_ts_at(s: Seq<char>, i: int) -> bool {
    &&& 0 <= i
    &&& i + 21 <= s.len()
    &&& s[i] == '['
    &&& s[i + 20] == ']'
    &&& digits_at(s, i + 1, i + 5)
    &&& s[i + 5] == '-'
    &&& digits_at(s, i + 6, i + 8)
    &&& s[i + 8] == '-'
    &&& digits_at(s, i + 9, i + 11)
    &&& s[i + 11] == ' '
    &&& digits_at(s, i + 12, i + 14)
    &&& s[i + 14] == ':'
    &&& digits_at(s, i + 15, i + 17)
    &&& s[i + 17] == ':'
    &&& digits_at(s, i + 18, i + 20)
}

/// The first position at or after `i` where `s` holds a bracketed run of
/// `n` digits, or -1.
pub open spec fn first_bracket_ts(s: Seq<char>, n: int, i: int) -> int
    decreases s.len() - i,
{
    if !(0 <= i < s.len()) {
        -1
    } else if is_bracket_ts_at(s, i, n) {
        i
    } else {
        first_bracket_ts(s, n, i + 1)
    }
}

/// The first position at or after `i` where `s` holds a `T` and ten
/// digits, or -1.
pub open spec fn first_t_ts(s: Seq<char>, i: int) -> int
    decreases s.len() - i,
{
    if !(0 <= i < s.len()) {
        -1
    } else if is_t_ts_at(s, i) {
        i
    } else {
        first_t_ts(s, i + 1)
    }
}

/// The first position at or after `i` where `s` holds a bracketed civil
/// date-time, or -1.
pub open spec fn first_iso_ts(s: Seq<char>, i: int) -> int
    decreases s.len() - i,
{
    if !(0 <= i < s.len()) {
        -1
    } else if is_iso_ts_at(s, i) {
        i
    } else {
        first_iso_ts(s, i + 1)
    }
}

proof fn lemma_first_bracket_ts(s: Seq<char>, n: int, i: int)
    requires
        0 <= i,
        0 <= n,
    ensures
        first_bracket_ts(s, n, i) == -1 ==> forall|j: int| i <= j ==> !is_bracket_ts_at(s, j, n),
        first_bracket_ts(s, n, i) != -1 ==> {
            &&& i <= first_bracket_ts(s, n, i) < s.len()
            &&& is_bracket_ts_at(s, first_bracket_ts(s, n, i), n)
            &&& forall|j: int| i <= j < first_bracket_ts(s, n, i) ==> !is_bracket_ts_at(s, j, n)
        },
    decreases s.len() - i,
{
    if 0 <= i < s.len() && !is_bracket_ts_at(s, i, n) {
        lemma_first_bracket_ts(s, n, i + 1);
    } else if !(0 <= i < s.len()) {
        assert forall|j: int| i <= j implies !is_bracket_ts_at(s, j, n) by {
            if is_bracket_ts_at(s, j, n) {
                assert(j + n + 2 <= s.len());
            }
        }
    }
}

proof fn lemma_first_t_ts(s: Seq<char>, i: int)
    requires
        0 <= i,
    ensures
        first_t_ts(s, i) == -1 ==> forall|j: int| i <= j ==> !is_t_ts_at(s, j),
        first_t_ts(s, i) != -1 ==> {
            &&& i <= first_t_ts(s, i) < s.len()
            &&& is_t_ts_at(s, first_t_ts(s, i))
            &&& forall|j: int| i <= j < first_t_ts(s, i) ==> !is_t_ts_at(s, j)
        },
    decreases s.len() - i,
{
    if 0 <= i < s.len() && !is_t_ts_at(s, i) {
        lemma_first_t_ts(s, i + 1);
    } else if !(0 <= i < s.len()) {
        assert forall|j: int| i <= j implies !is_t_ts_at(s, j) by {
            if is_t_ts_at(s, j) {
                assert(j + 11 <= s.len());
            }
        }
    }
}

proof fn lemma_first_iso_ts(s: Seq<char>, i: int)
    requires
        0 <= i,
    ensures
        first_iso_ts(s, i) == -1 ==> forall|j: int| i <= j ==> !is_iso_ts_at(s, j),
        first_iso_ts(s, i) != -1 ==> {
            &&& i <= first_iso_ts(s, i) < s.len()
            &&& is_iso_ts_at(s, first_iso_ts(s, i))
            &&& forall|j: int| i <= j < first_iso_ts(s, i) ==> !is_iso_ts_at(s, j)
        },
    decreases s.len() - i,
{
    if 0 <= i < s.len() && !is_iso_ts_at(s, i) {
        lemma_first_iso_ts(s, i + 1);
    } else if !(0 <= i < s.len()) {
        assert forall|j: int| i <= j implies !is_iso_ts_at(s, j) by {
            if is_iso_ts_at(s, j) {
                assert(j + 21 <= s.len());
            }
        }
    }
}

/// Ten to the power `n`.
pub open spec fn pow10(n: nat) -> nat
    decreases n,
{
    if n == 0 {
        1
    } else {
        10 * pow10((n - 1) as nat)
    }
}

proof fn lemma_pow10_13()
    ensures
        pow10(13) == 10000000000000,
{
    reveal_with_fuel(pow10, 14);
}

proof fn lemma_pow10_mono(a: nat, b: nat)
    requires
        a <= b,
    ensures
        pow10(a) <= pow10(b),
    decreases b,
{
    if a < b {
        lemma_pow10_mono(a, (b - 1) as nat);
        assert(pow10(b) == 10 * pow10((b - 1) as nat));
        assert(pow10((b - 1) as nat) >= 1) by {
            lemma_pow10_pos((b - 1) as nat);
        }
    }
}

proof fn lemma_pow10_pos(n: nat)
    ensures
        pow10(n) >= 1,
    decreases n,
{
    if n > 0 {
        lemma_pow10_pos((n - 1) as nat);
    }
}

/// The value of a digit run is below ten to its length.
proof fn lemma_digits_val_bound(s: Seq<char>)
    requires
        crate::text::all_digits(s),
    ensures
        crate::text::digits_val(s) < pow10(s.len()),
    decreases s.len(),
{
    if s.len() > 0 {
        assert(crate::text::all_digits(s.drop_last())) by {
            assert(forall|i: int| 0 <= i < s.len() - 1 ==> s.drop_last()[i] == s[i]);
        }
        lemma_digits_val_bound(s.drop_last());
        assert(pow10(s.len()) == 10 * pow10((s.len() - 1) as nat));
    }
}

fn digits_range_exec(v: &Vec<char>, from: usize, to: usize) -> (b: bool)
    requires
        from <= to <= v@.len(),
    ensures
        b == digits_at(v@, from as int, to as int),
{
    let mut i: usize = from;
    while i < to
        invariant
            from <= i <= to <= v@.len(),
            forall|k: int| from <= k < i ==> '0' <= #[trigger] v@[k] <= '9',
        decreases to - i,
    {
        if !('0' <= v[i] && v[i] <= '9') {
            return false;
        }
        i = i + 1;
    }
    true
}

fn bracket_ts_at_exec(v: &Vec<char>, i: usize, n: usize) -> (b: bool)
    requires
        n <= 13,
    ensures
        b == is_bracket_ts_at(v@, i as int, n as int),
{
    let len = v.len();
    if i >= len || len - i < n + 2 {
        return false;
    }
    if v[i] != '[' || v[i + n + 1] != ']' {
        return false;
    }
    digits_range_exec(v, i + 1, i + n + 1)
}

fn t_ts_at_exec(v: &Vec<char>, i: usize) -> (b: bool)
    ensures
        b == is_t_ts_at(v@, i as int),
{
    let len = v.len();
    if i >= len || len - i < 11 {
        return false;
    }
    if v[i] != 'T' {
        return false;
    }
    digits_range_exec(v, i + 1, i + 11)
}

fn iso_ts_at_exec(v: &Vec<char>, i: usize) -> (b: bool)
    ensures
        b == is_iso_ts_at(v@, i as int),
{
    let len = v.len();
    if i >= len || len - i < 21 {
        return false;
    }
    let b = v[i] == '[' && v[i + 20] == ']' && digits_range_exec(v, i + 1, i + 5) && v[i + 5] == '-'
        && digits_range_exec(v, i + 6, i + 8) && v[i + 8] == '-' && digits_range_exec(
        v,
        i + 9,
        i + 11,
    ) && v[i + 11] == ' ' && digits_range_exec(v, i + 12, i + 14) && v[i + 14] == ':'
        && digits_range_exec(v, i + 15, i + 17) && v[i + 17] == ':' && digits_range_exec(
        v,
        i + 18,
        i + 20,
    );
    b
}

fn find_bracket_ts(v: &Vec<char>, n: usize) -> (r: Option<usize>)
    requires
        n <= 13,
    ensures
        r is Some ==> first_bracket_ts(v@, n as int, 0) == r->0 as int,
        r is None ==> first_bracket_ts(v@, n as int, 0) == -1,
{
    let len = v.len();
    let mut i: usize = 0;
    while i < len
        invariant
            len == v@.len(),
            i <= len,
            n <= 13,
            forall|j: int| 0 <= j < i ==> !is_bracket_ts_at(v@, j, n as int),
        decreases len - i,
    {
        if bracket_ts_at_exec(v, i, n) {
            proof {
                lemma_first_bracket_ts(v@, n as int, 0);
            }
            return Some(i);
        }
        i = i + 1;
    }
    proof {
        lemma_first_bracket_ts(v@, n as int, 0);
    }
    None
}

fn find_t_ts(v: &Vec<char>) -> (r: Option<usize>)
    ensures
        r is Some ==> first_t_ts(v@, 0) == r->0 as int,
        r is None ==> first_t_ts(v@, 0) == -1,
{
    let len = v.len();
    let mut i: usize = 0;
    while i < len
        invariant
            len == v@.len(),
            i <= len,
            forall|j: int| 0 <= j < i ==> !is_t_ts_at(v@, j),
        decreases len - i,
    {
        if t_ts_at_exec(v, i) {
            proof {
                lemma_first_t_ts(v@, 0);
            }
            return Some(i);
        }
        i = i + 1;
    }
    proof {
        lemma_first_t_ts(v@, 0);
    }
    None
}

fn find_iso_ts(v: &Vec<char>) -> (r: Option<usize>)
    ensures
        r is Some ==> first_iso_ts(v@, 0) == r->0 as int,
        r is None ==> first_iso_ts(v@, 0) == -1,
{
    let len = v.len();
    let mut i: usize = 0;
    while i < len
        invariant
            len == v@.len(),
            i <= len,
            forall|j: int| 0 <= j < i ==> !is_iso_ts_at(v@, j),
        decreases len - i,
    {
        if iso_ts_at_exec(v, i) {
            proof {
                lemma_first_iso_ts(v@, 0);
            }
            return Some(i);
        }
        i = i + 1;
    }
    proof {
        lemma_first_iso_ts(v@, 0);
    }
    None
}

fn digits_to_u64(v: &Vec<char>, from: usize, to: usize) -> (r: u64)
    requires
        from <= to <= v@.len(),
        to - from <= 13,
        digits_at(v@, from as int, to as int),
    ensures
        r == crate::text::digits_val(v@.subrange(from as int, to as int)),
{
    let mut acc: u64 = 0;
    let mut i: usize = from;
    proof {
        assert(v@.subrange(from as int, from as int) =~= Seq::<char>::empty());
    }
    while i < to
        invariant
            from <= i <= to <= v@.len(),
            to - from <= 13,
            digits_at(v@, from as int, to as int),
            crate::text::all_digits(v@.subrange(from as int, i as int)),
            acc == crate::text::digits_val(v@.subrange(from as int, i as int)),
            acc < pow10((i - from) as nat),
        decreases to - i,
    {
        proof {
            lemma_pow10_mono((i - from) as nat, 12);
            lemma_pow10_13();
            reveal_with_fuel(pow10, 14);
        }
        let d = (v[i] as u32) as u64 - 48;
        let next = acc * 10 + d;
        proof {
            assert(v@.subrange(from as int, i + 1).drop_last() =~= v@.subrange(
                from as int,
                i as int,
            ));
            assert(pow10((i + 1 - from) as nat) == 10 * pow10((i - from) as nat));
        }
        acc = next;
        i = i + 1;
    }
    assert(v@.subrange(from as int, to as int) =~= v@.subrange(from as int, i as int));
    acc
}

/// What chrono computes for a civil date-time rendered as
/// `YYYY-MM-DD HH:MM:SS`: its UTC epoch seconds, or nothing when the text
/// is not a valid date-time. The result depends on the text alone.
pub uninterp spec fn epoch_of_datetime(s: Seq<char>) -> Option<int>;

/// Relies on chrono's `NaiveDateTime::parse_from_str` with format
/// `%Y-%m-%d %H:%M:%S`, followed by `and_utc` and `DateTime::timestamp`:
/// parses a civil date-time and converts it to UTC epoch seconds. The
/// outcome is a function of the text alone.
#[verifier::external_body]
fn datetime_epoch(s: &str) -> (r: Option<i64>)
    ensures
        r is Some <==> epoch_of_datetime(s@) is Some,
        r matches Some(e) ==> epoch_of_datetime(s@) == Some(e as int),
{
    chrono::NaiveDateTime::parse_from_str(s, "%Y-%m-%d %H:%M:%S").ok().map(
        |d| d.and_utc().timestamp(),
    )
}

/// The timestamp a line yields, in epoch seconds, trying in order:
/// bracketed ten-digit epoch seconds, bracketed thirteen-digit epoch
/// milliseconds, `T`-prefixed ten-digit epoch seconds, then a bracketed
/// civil date-time read by chrono; the first pattern that occurs decides,
/// and a date-time that chrono rejects, or one before the epoch, yields
/// nothing.
pub open spec fn spec_parse_timestamp(s: Seq<char>) -> Option<u64> {
    let b10 = first_bracket_ts(s, 10, 0);
    let b13 = first_bracket_ts(s, 13, 0);
    let t10 = first_t_ts(s, 0);
    let iso = first_iso_ts(s, 0);
    if b10 != -1 {
        Some(crate::text::digits_val(s.subrange(b10 + 1, b10 + 11)) as u64)
    } else if b13 != -1 {
        Some((crate::text::digits_val(s.subrange(b13 + 1, b13 + 14)) / 1000) as u64)
    } else if t10 != -1 {
        Some(crate::text::digits_val(s.subrange(t10 + 1, t10 + 11)) as u64)
    } else if iso != -1 {
        match epoch_of_datetime(s.subrange(iso + 1, iso + 20)) {
            Some(e) => if e >= 0 {
                Some(e as u64)
            } else {
                None
            },
            None => None,
        }
    } else {
        None
    }
}

/// A fresh copy of a tool call.
fn clone_tool_call(t: &ToolCall) -> (r: ToolCall)
    ensures
        r.tool_name@ == t.tool_name@,
        arg_pair_views(r.arguments@) == arg_pair_views(t.arguments@),
{
    let n = t.arguments.len();
    let mut arguments: Vec<(String, String)> = Vec::new();
    let mut i: usize = 0;
    while i < n
        invariant
            n == t.arguments@.len(),
            i <= n,
            arguments@.len() == i,
            forall|k: int|
                0 <= k < i ==> (#[trigger] arguments@[k]).0@ == t.arguments@[k].0@
                    && arguments@[k].1@ == t.arguments@[k].1@,
        decreases n - i,
    {
        arguments.push((t.arguments[i].0.clone(), t.arguments[i].1.clone()));
        i = i + 1;
    }
    let r = ToolCall { tool_name: t.tool_name.clone(), arguments };
    proof {
        assert forall|k: int| 0 <= k < arg_pair_views(r.arguments@).len() implies arg_pair_views(
            r.arguments@,
        )[k] == arg_pair_views(t.arguments@)[k] by {
            assert(arg_pair_views(r.arguments@)[k] == (r.arguments@[k].0@, r.arguments@[k].1@));
            assert(arg_pair_views(t.arguments@)[k] == (t.arguments@[k].0@, t.arguments@[k].1@));
        }
        assert(arg_pair_views(r.arguments@) =~= arg_pair_views(t.arguments@));
    }
    r
}

} // verus!
