//! Filters and summaries over classified agent responses.
//!
//! Every function is pure over its input list and returns copies, so each
//! contract says exactly which responses are kept, in their original
//! order.

use vstd::prelude::*;

use crate::error::TmuxError;
use crate::messaging::parser::{spec_parse_timestamp, OutputParser};
use crate::opencode::protocol::{arg_pair_views, AgentResponse, MessageType, ToolCall};
use crate::text::{chars_of, contains_seq, spec_lines, spec_trim};

verus! {

/// Filters and summaries over lists of agent responses.
pub struct MessageFilter;

// ---------------------------------------------------------------------------
// Copies and correspondence
// ---------------------------------------------------------------------------

/// `b` carries exactly the observable content of `a`.
pub open spec fn resp_matches(a: AgentResponse, b: AgentResponse) -> bool {
    &&& b.success == a.success
    &&& b.message_type == a.message_type
    &&& b.content@ == a.content@
    &&& b.tool_calls@.len() == a.tool_calls@.len()
    &&& forall|j: int|
        0 <= j < a.tool_calls@.len() ==> (#[trigger] b.tool_calls@[j]).tool_name@
            == a.tool_calls@[j].tool_name@ && arg_pair_views(b.tool_calls@[j].arguments@)
            == arg_pair_views(a.tool_calls@[j].arguments@)
    &&& (match a.error {
        Some(e) => b.error matches Some(f) && f@ == e@,
        None => b.error is None,
    })
}

/// `rs` copies exactly the responses `ms`, in order.
pub open spec fn resps_match(ms: Seq<AgentResponse>, rs: Seq<AgentResponse>) -> bool {
    rs.len() == ms.len() && forall|i: int|
        0 <= i < ms.len() ==> resp_matches(ms[i], #[trigger] rs[i])
}

fn clone_tool_call_local(t: &ToolCall) -> (r: ToolCall)
    ensures
        r.tool_name@ == t.tool_name@,
        arg_pair_views(r.arguments@) == arg_pair_views(t.arguments@),
{
    let n = t.arguments.len();
    let mut arguments: Vec<(String, String)> = Vec::new();
    let mut i: usize = 0;
    while i < n
        invariant
            n == t.arguments@.len(),
            i <= n,
            arguments@.len() == i,
            forall|k: int|
                0 <= k < i ==> (#[trigger] arguments@[k]).0@ == t.arguments@[k].0@
                    && arguments@[k].1@ == t.arguments@[k].1@,
        decreases n - i,
    {
        arguments.push((t.arguments[i].0.clone(), t.arguments[i].1.clone()));
        i = i + 1;
    }
    let r = ToolCall { tool_name: t.tool_name.clone(), arguments };
    proof {
        assert forall|k: int| 0 <= k < arg_pair_views(r.arguments@).len() implies arg_pair_views(
            r.arguments@,
        )[k] == arg_pair_views(t.arguments@)[k] by {
            assert(arg_pair_views(r.arguments@)[k] == (r.arguments@[k].0@, r.arguments@[k].1@));
            assert(arg_pair_views(t.arguments@)[k] == (t.arguments@[k].0@, t.arguments@[k].1@));
        }
        assert(arg_pair_views(r.arguments@) =~= arg_pair_views(t.arguments@));
    }
    r
}

/// A fresh copy of a response.
fn clone_response(m: &AgentResponse) -> (r: AgentResponse)
    ensures
        resp_matches(*m, r),
{
    let n = m.tool_calls.len();
    let mut tool_calls: Vec<ToolCall> = Vec::new();
    let mut i: usize = 0;
    while i < n
        invariant
            n == m.tool_calls@.len(),
            i <= n,
            tool_calls@.len() == i,
            forall|k: int|
                0 <= k < i ==> (#[trigger] tool_calls@[k]).tool_name@
                    == m.tool_calls@[k].tool_name@ && arg_pair_views(tool_calls@[k].arguments@)
                    == arg_pair_views(m.tool_calls@[k].arguments@),
        decreases n - i,
    {
        tool_calls.push(clone_tool_call_local(&m.tool_calls[i]));
        i = i + 1;
    }
    let error = match &m.error {
        Some(e) => Some(e.clone()),
        None => None,
    };
    AgentResponse {
        success: m.success,
        message_type: m.message_type,
        content: m.content.clone(),
        tool_calls,
        error,
    }
}

// ---------------------------------------------------------------------------
// Predicates over single responses
// ---------------------------------------------------------------------------

/// The response carries a call of tool `name`.
pub open spec fn spec_has_tool(m: AgentResponse, name: Seq<char>) -> bool {
    exists|j: int| 0 <= j < m.tool_calls@.len() && (#[trigger] m.tool_calls@[j]).tool_name@ == name
}

/// Some argument value of some call of the response holds `text`.
pub open spec fn spec_some_argument_contains(m: AgentResponse, text: Seq<char>) -> bool {
    exists|j: int, k: int|
        0 <= j < m.tool_calls@.len() && 0 <= k < m.tool_calls@[j].arguments@.len()
            && contains_seq(#[trigger] arg_pair_views(m.tool_calls@[j].arguments@)[k].1, text)
}

/// The response reports an error: unsuccessful with an error detail.
pub open spec fn spec_is_error_response(m: AgentResponse) -> bool {
    !m.success && m.error is Some
}

fn has_tool_exec(m: &AgentResponse, name: &Vec<char>) -> (b: bool)
    ensures
        b == spec_has_tool(*m, name@),
{
    let n = m.tool_calls.len();
    let mut j: usize = 0;
    while j < n
        invariant
            n == m.tool_calls@.len(),
            j <= n,
            forall|k: int| 0 <= k < j ==> (#[trigger] m.tool_calls@[k]).tool_name@ != name@,
        decreases n - j,
    {
        let tn = chars_of(m.tool_calls[j].tool_name.as_str());
        if crate::text::eq_chars(&tn, name) {
            return true;
        }
        j = j + 1;
    }
    false
}

fn some_argument_contains_exec(m: &AgentResponse, text: &Vec<char>) -> (b: bool)
    ensures
        b == spec_some_argument_contains(*m, text@),
{
    let n = m.tool_calls.len();
    let mut j: usize = 0;
    while j < n
        invariant
            n == m.tool_calls@.len(),
            j <= n,
            forall|jj: int, k: int|
                0 <= jj < j && 0 <= k < m.tool_calls@[jj].arguments@.len() ==> !contains_seq(
                    #[trigger] arg_pair_views(m.tool_calls@[jj].arguments@)[k].1,
                    text@,
                ),
        decreases n - j,
    {
        let an = m.tool_calls[j].arguments.len();
        let mut k: usize = 0;
        while k < an
            invariant
                n == m.tool_calls@.len(),
                j < n,
                an == m.tool_calls@[j as int].arguments@.len(),
                k <= an,
                forall|kk: int|
                    0 <= kk < k ==> !contains_seq(
                        arg_pair_views(m.tool_calls@[j as int].arguments@)[kk].1,
                        text@,
                    ),
            decreases an - k,
        {
            let value = chars_of(m.tool_calls[j].arguments[k].1.as_str());
            proof {
                assert(arg_pair_views(m.tool_calls@[j as int].arguments@)[k as int].1
                    == m.tool_calls@[j as int].arguments@[k as int].1@);
            }
            if crate::text::contains_sub(&value, text) {
                return true;
            }
            k = k + 1;
        }
        j = j + 1;
    }
    false
}

// ---------------------------------------------------------------------------
// Kept-subset specifications
// ---------------------------------------------------------------------------

/// The responses of kind `t`, in order.
pub open spec fn spec_of_type(ms: Seq<AgentResponse>, t: MessageType) -> Seq<AgentResponse>
    decreases ms.len(),
{
    if ms.len() == 0 {
        Seq::empty()
    } else {
        let rest = spec_of_type(ms.drop_first(), t);
        if ms[0].message_type == t {
            seq![ms[0]] + rest
        } else {
            rest
        }
    }
}

/// The responses with success flag `s`, in order.
pub open spec fn spec_of_success(ms: Seq<AgentResponse>, s: bool) -> Seq<AgentResponse>
    decreases ms.len(),
{
    if ms.len() == 0 {
        Seq::empty()
    } else {
        let rest = spec_of_success(ms.drop_first(), s);
        if ms[0].success == s {
            seq![ms[0]] + rest
        } else {
            rest
        }
    }
}

/// The responses calling tool `name`, in order.
pub open spec fn spec_with_tool(ms: Seq<AgentResponse>, name: Seq<char>) -> Seq<AgentResponse>
    decreases ms.len(),
{
    if ms.len() == 0 {
        Seq::empty()
    } else {
        let rest = spec_with_tool(ms.drop_first(), name);
        if spec_has_tool(ms[0], name) {
            seq![ms[0]] + rest
        } else {
            rest
        }
    }
}

/// The responses whose content holds `pattern`, in order.
pub open spec fn spec_with_content(ms: Seq<AgentResponse>, pattern: Seq<char>) -> Seq<
    AgentResponse,
>
    decreases ms.len(),
{
    if ms.len() == 0 {
        Seq::empty()
    } else {
        let rest = spec_with_content(ms.drop_first(), pattern);
        if contains_seq(ms[0].content@, pattern) {
            seq![ms[0]] + rest
        } else {
            rest
        }
    }
}

/// The error responses, in order.
pub open spec fn spec_error_responses(ms: Seq<AgentResponse>) -> Seq<AgentResponse>
    decreases ms.len(),
{
    if ms.len() == 0 {
        Seq::empty()
    } else {
        let rest = spec_error_responses(ms.drop_first());
        if spec_is_error_response(ms[0]) {
            seq![ms[0]] + rest
        } else {
            rest
        }
    }
}

/// The responses carrying at least one tool call, in order.
pub open spec fn spec_with_tool_calls(ms: Seq<AgentResponse>) -> Seq<AgentResponse>
    decreases ms.len(),
{
    if ms.len() == 0 {
        Seq::empty()
    } else {
        let rest = spec_with_tool_calls(ms.drop_first());
        if ms[0].tool_calls@.len() > 0 {
            seq![ms[0]] + rest
        } else {
            rest
        }
    }
}

/// The responses touching `file_path`: it occurs in the content or in
/// some argument value, in order.
pub open spec fn spec_with_file(ms: Seq<AgentResponse>, file_path: Seq<char>) -> Seq<AgentResponse>
    decreases ms.len(),
{
    if ms.len() == 0 {
        Seq::empty()
    } else {
        let rest = spec_with_file(ms.drop_first(), file_path);
        if contains_seq(ms[0].content@, file_path) || spec_some_argument_contains(
            ms[0],
            file_path,
        ) {
            seq![ms[0]] + rest
        } else {
            rest
        }
    }
}

/// The responses whose content yields a timestamp within `[start, end]`,
/// in order.
pub open spec fn spec_in_time_range(ms: Seq<AgentResponse>, start: u64, end: u64) -> Seq<
    AgentResponse,
>
    decreases ms.len(),
{
    if ms.len() == 0 {
        Seq::empty()
    } else {
        let rest = spec_in_time_range(ms.drop_first(), start, end);
        if (match spec_parse_timestamp(ms[0].content@) {
            Some(ts) => start <= ts <= end,
            None => false,
        }) {
            seq![ms[0]] + rest
        } else {
            rest
        }
    }
}

/// The responses whose content spans at least `min_lines` lines, in
/// order.
pub open spec fn spec_multiline(ms: Seq<AgentResponse>, min_lines: int) -> Seq<AgentResponse>
    decreases ms.len(),
{
    if ms.len() == 0 {
        Seq::empty()
    } else {
        let rest = spec_multiline(ms.drop_first(), min_lines);
        if spec_lines(ms[0].content@).len() >= min_lines {
            seq![ms[0]] + rest
        } else {
            rest
        }
    }
}

/// The responses whose content is at least `min_length` characters, in
/// order.
pub open spec fn spec_of_length(ms: Seq<AgentResponse>, min_length: int) -> Seq<AgentResponse>
    decreases ms.len(),
{
    if ms.len() == 0 {
        Seq::empty()
    } else {
        let rest = spec_of_length(ms.drop_first(), min_length);
        if ms[0].content@.len() >= min_length {
            seq![ms[0]] + rest
        } else {
            rest
        }
    }
}

/// The responses with non-blank content, in order.
pub open spec fn spec_nonempty_content(ms: Seq<AgentResponse>) -> Seq<AgentResponse>
    decreases ms.len(),
{
    if ms.len() == 0 {
        Seq::empty()
    } else {
        let rest = spec_nonempty_content(ms.drop_first());
        if spec_trim(ms[0].content@).len() > 0 {
            seq![ms[0]] + rest
        } else {
            rest
        }
    }
}

fn of_type_from(ms: &Vec<AgentResponse>, from: usize, t: MessageType) -> (r: Vec<AgentResponse>)
    requires
        from <= ms@.len(),
    ensures
        resps_match(spec_of_type(ms@.skip(from as int), t), r@),
    decreases ms@.len() - from,
{
    let ghost lv = ms@.skip(from as int);
    if from == ms.len() {
        let r: Vec<AgentResponse> = Vec::new();
        assert(lv =~= Seq::<AgentResponse>::empty());
        return r;
    }
    let mut rest = of_type_from(ms, from + 1, t);
    proof {
        assert(lv.drop_first() =~= ms@.skip(from + 1));
        assert(lv[0] == ms@[from as int]);
    }
    let keep = ms[from].message_type == t;
    if keep {
        let mut r: Vec<AgentResponse> = Vec::new();
        r.push(clone_response(&ms[from]));
        let ghost rest0 = rest@;
        r.append(&mut rest);
        proof {
            let ks = spec_of_type(lv, t);
            assert(ks =~= seq![lv[0]] + spec_of_type(lv.drop_first(), t));
            assert forall|i: int| 0 <= i < ks.len() implies resp_matches(
                ks[i],
                #[trigger] r@[i],
            ) by {
                if i > 0 {
                    assert(ks[i] == spec_of_type(lv.drop_first(), t)[i - 1]);
                    assert(r@[i] == rest0[i - 1]);
                }
            }
        }
        r
    } else {
        assert(resps_match(spec_of_type(lv, t), rest@));
        rest
    }
}

fn of_success_from(ms: &Vec<AgentResponse>, from: usize, s: bool) -> (r: Vec<AgentResponse>)
    requires
        from <= ms@.len(),
    ensures
        resps_match(spec_of_success(ms@.skip(from as int), s), r@),
    decreases ms@.len() - from,
{
    let ghost lv = ms@.skip(from as int);
    if from == ms.len() {
        let r: Vec<AgentResponse> = Vec::new();
        assert(lv =~= Seq::<AgentResponse>::empty());
        return r;
    }
    let mut rest = of_success_from(ms, from + 1, s);
    proof {
        assert(lv.drop_first() =~= ms@.skip(from + 1));
        assert(lv[0] == ms@[from as int]);
    }
    let keep = ms[from].success == s;
    if keep {
        let mut r: Vec<AgentResponse> = Vec::new();
        r.push(clone_response(&ms[from]));
        let ghost rest0 = rest@;
        r.append(&mut rest);
        proof {
            let ks = spec_of_success(lv, s);
            assert(ks =~= seq![lv[0]] + spec_of_success(lv.drop_first(), s));
            assert forall|i: int| 0 <= i < ks.len() implies resp_matches(
                ks[i],
                #[trigger] r@[i],
            ) by {
                if i > 0 {
                    assert(ks[i] == spec_of_success(lv.drop_first(), s)[i - 1]);
                    assert(r@[i] == rest0[i - 1]);
                }
            }
        }
        r
    } else {
        assert(resps_match(spec_of_success(lv, s), rest@));
        rest
    }
}

fn with_tool_from(ms: &Vec<AgentResponse>, from: usize, name: &Vec<char>) -> (r: Vec<AgentResponse>)
    requires
        from <= ms@.len(),
    ensures
        resps_match(spec_with_tool(ms@.skip(from as int), name@), r@),
    decreases ms@.len() - from,
{
    let ghost lv = ms@.skip(from as int);
    if from == ms.len() {
        let r: Vec<AgentResponse> = Vec::new();
        assert(lv =~= Seq::<AgentResponse>::empty());
        return r;
    }
    let mut rest = with_tool_from(ms, from + 1, name);
    proof {
        assert(lv.drop_first() =~= ms@.skip(from + 1));
        assert(lv[0] == ms@[from as int]);
    }
    let keep = has_tool_exec(&ms[from], name);
    if keep {
        let mut r: Vec<AgentResponse> = Vec::new();
        r.push(clone_response(&ms[from]));
        let ghost rest0 = rest@;
        r.append(&mut rest);
        proof {
            let ks = spec_with_tool(lv, name@);
            assert(ks =~= seq![lv[0]] + spec_with_tool(lv.drop_first(), name@));
            assert forall|i: int| 0 <= i < ks.len() implies resp_matches(
                ks[i],
                #[trigger] r@[i],
            ) by {
                if i > 0 {
                    assert(ks[i] == spec_with_tool(lv.drop_first(), name@)[i - 1]);
                    assert(r@[i] == rest0[i - 1]);
                }
            }
        }
        r
    } else {
        assert(resps_match(spec_with_tool(lv, name@), rest@));
        rest
    }
}

fn with_content_from(ms: &Vec<AgentResponse>, from: usize, pat: &Vec<char>) -> (r: Vec<AgentResponse>)
    requires
        from <= ms@.len(),
    ensures
        resps_match(spec_with_content(ms@.skip(from as int), pat@), r@),
    decreases ms@.len() - from,
{
    let ghost lv = ms@.skip(from as int);
    if from == ms.len() {
        let r: Vec<AgentResponse> = Vec::new();
        assert(lv =~= Seq::<AgentResponse>::empty());
        return r;
    }
    let mut rest = with_content_from(ms, from + 1, pat);
    proof {
        assert(lv.drop_first() =~= ms@.skip(from + 1));
        assert(lv[0] == ms@[from as int]);
    }
    let keep = crate::text::contains_sub(&chars_of(ms[from].content.as_str()), pat);
    if keep {
        let mut r: Vec<AgentResponse> = Vec::new();
        r.push(clone_response(&ms[from]));
        let ghost rest0 = rest@;
        r.append(&mut rest);
        proof {
            let ks = spec_with_content(lv, pat@);
            assert(ks =~= seq![lv[0]] + spec_with_content(lv.drop_first(), pat@));
            assert forall|i: int| 0 <= i < ks.len() implies resp_matches(
                ks[i],
                #[trigger] r@[i],
            ) by {
                if i > 0 {
                    assert(ks[i] == spec_with_content(lv.drop_first(), pat@)[i - 1]);
                    assert(r@[i] == rest0[i - 1]);
                }
            }
        }
        r
    } else {
        assert(resps_match(spec_with_content(lv, pat@), rest@));
        rest
    }
}

fn errors_from(ms: &Vec<AgentResponse>, from: usize) -> (r: Vec<AgentResponse>)
    requires
        from <= ms@.len(),
    ensures
        resps_match(spec_error_responses(ms@.skip(from as int)), r@),
    decreases ms@.len() - from,
{
    let ghost lv = ms@.skip(from as int);
    if from == ms.len() {
        let r: Vec<AgentResponse> = Vec::new();
        assert(lv =~= Seq::<AgentResponse>::empty());
        return r;
    }
    let mut rest = errors_from(ms, from + 1);
    proof {
        assert(lv.drop_first() =~= ms@.skip(from + 1));
        assert(lv[0] == ms@[from as int]);
    }
    let keep = !ms[from].success && (match &ms[from].error { Some(_) => true, None => false });
    if keep {
        let mut r: Vec<AgentResponse> = Vec::new();
        r.push(clone_response(&ms[from]));
        let ghost rest0 = rest@;
        r.append(&mut rest);
        proof {
            let ks = spec_error_responses(lv);
            assert(ks =~= seq![lv[0]] + spec_error_responses(lv.drop_first()));
            assert forall|i: int| 0 <= i < ks.len() implies resp_matches(
                ks[i],
                #[trigger] r@[i],
            ) by {
                if i > 0 {
                    assert(ks[i] == spec_error_responses(lv.drop_first())[i - 1]);
                    assert(r@[i] == rest0[i - 1]);
                }
            }
        }
        r
    } else {
        assert(resps_match(spec_error_responses(lv), rest@));
        rest
    }
}

fn with_calls_from(ms: &Vec<AgentResponse>, from: usize) -> (r: Vec<AgentResponse>)
    requires
        from <= ms@.len(),
    ensures
        resps_match(spec_with_tool_calls(ms@.skip(from as int)), r@),
    decreases ms@.len() - from,
{
    let ghost lv = ms@.skip(from as int);
    if from == ms.len() {
        let r: Vec<AgentResponse> = Vec::new();
        assert(lv =~= Seq::<AgentResponse>::empty());
        return r;
    }
    let mut rest = with_calls_from(ms, from + 1);
    proof {
        assert(lv.drop_first() =~= ms@.skip(from + 1));
        assert(lv[0] == ms@[from as int]);
    }
    let keep = ms[from].tool_calls.len() > 0;
    if keep {
        let mut r: Vec<AgentResponse> = Vec::new();
        r.push(clone_response(&ms[from]));
        let ghost rest0 = rest@;
        r.append(&mut rest);
        proof {
            let ks = spec_with_tool_calls(lv);
            assert(ks =~= seq![lv[0]] + spec_with_tool_calls(lv.drop_first()));
            assert forall|i: int| 0 <= i < ks.len() implies resp_matches(
                ks[i],
                #[trigger] r@[i],
            ) by {
                if i > 0 {
                    assert(ks[i] == spec_with_tool_calls(lv.drop_first())[i - 1]);
                    assert(r@[i] == rest0[i - 1]);
                }
            }
        }
        r
    } else {
        assert(resps_match(spec_with_tool_calls(lv), rest@));
        rest
    }
}

fn with_file_from(ms: &Vec<AgentResponse>, from: usize, fp: &Vec<char>) -> (r: Vec<AgentResponse>)
    requires
        from <= ms@.len(),
    ensures
        resps_match(spec_with_file(ms@.skip(from as int), fp@), r@),
    decreases ms@.len() - from,
{
    let ghost lv = ms@.skip(from as int);
    if from == ms.len() {
        let r: Vec<AgentResponse> = Vec::new();
        assert(lv =~= Seq::<AgentResponse>::empty());
        return r;
    }
    let mut rest = with_file_from(ms, from + 1, fp);
    proof {
        assert(lv.drop_first() =~= ms@.skip(from + 1));
        assert(lv[0] == ms@[from as int]);
    }
    let keep = crate::text::contains_sub(&chars_of(ms[from].content.as_str()), fp) || some_argument_contains_exec(&ms[from], fp);
    if keep {
        let mut r: Vec<AgentResponse> = Vec::new();
        r.push(clone_response(&ms[from]));
        let ghost rest0 = rest@;
        r.append(&mut rest);
        proof {
            let ks = spec_with_file(lv, fp@);
            assert(ks =~= seq![lv[0]] + spec_with_file(lv.drop_first(), fp@));
            assert forall|i: int| 0 <= i < ks.len() implies resp_matches(
                ks[i],
                #[trigger] r@[i],
            ) by {
                if i > 0 {
                    assert(ks[i] == spec_with_file(lv.drop_first(), fp@)[i - 1]);
                    assert(r@[i] == rest0[i - 1]);
                }
            }
        }
        r
    } else {
        assert(resps_match(spec_with_file(lv, fp@), rest@));
        rest
    }
}

fn in_range_from(ms: &Vec<AgentResponse>, from: usize, start: u64, end: u64) -> (r: Vec<AgentResponse>)
    requires
        from <= ms@.len(),
    ensures
        resps_match(spec_in_time_range(ms@.skip(from as int), start, end), r@),
    decreases ms@.len() - from,
{
    let ghost lv = ms@.skip(from as int);
    if from == ms.len() {
        let r: Vec<AgentResponse> = Vec::new();
        assert(lv =~= Seq::<AgentResponse>::empty());
        return r;
    }
    let mut rest = in_range_from(ms, from + 1, start, end);
    proof {
        assert(lv.drop_first() =~= ms@.skip(from + 1));
        assert(lv[0] == ms@[from as int]);
    }
    let keep = (match OutputParser::parse_timestamp(ms[from].content.as_str()) { Some(ts) => start <= ts && ts <= end, None => false });
    if keep {
        let mut r: Vec<AgentResponse> = Vec::new();
        r.push(clone_response(&ms[from]));
        let ghost rest0 = rest@;
        r.append(&mut rest);
        proof {
            let ks = spec_in_time_range(lv, start, end);
            assert(ks =~= seq![lv[0]] + spec_in_time_range(lv.drop_first(), start, end));
            assert forall|i: int| 0 <= i < ks.len() implies resp_matches(
                ks[i],
                #[trigger] r@[i],
            ) by {
                if i > 0 {
                    assert(ks[i] == spec_in_time_range(lv.drop_first(), start, end)[i - 1]);
                    assert(r@[i] == rest0[i - 1]);
                }
            }
        }
        r
    } else {
        assert(resps_match(spec_in_time_range(lv, start, end), rest@));
        rest
    }
}

fn multiline_from(ms: &Vec<AgentResponse>, from: usize, min_lines: usize) -> (r: Vec<AgentResponse>)
    requires
        from <= ms@.len(),
    ensures
        resps_match(spec_multiline(ms@.skip(from as int), min_lines as int), r@),
    decreases ms@.len() - from,
{
    let ghost lv = ms@.skip(from as int);
    if from == ms.len() {
        let r: Vec<AgentResponse> = Vec::new();
        assert(lv =~= Seq::<AgentResponse>::empty());
        return r;
    }
    let mut rest = multiline_from(ms, from + 1, min_lines);
    proof {
        assert(lv.drop_first() =~= ms@.skip(from + 1));
        assert(lv[0] == ms@[from as int]);
    }
    let keep = crate::text::split_lines(chars_of(ms[from].content.as_str())).len() >= min_lines;
    if keep {
        let mut r: Vec<AgentResponse> = Vec::new();
        r.push(clone_response(&ms[from]));
        let ghost rest0 = rest@;
        r.append(&mut rest);
        proof {
            let ks = spec_multiline(lv, min_lines as int);
            assert(ks =~= seq![lv[0]] + spec_multiline(lv.drop_first(), min_lines as int));
            assert forall|i: int| 0 <= i < ks.len() implies resp_matches(
                ks[i],
                #[trigger] r@[i],
            ) by {
                if i > 0 {
                    assert(ks[i] == spec_multiline(lv.drop_first(), min_lines as int)[i - 1]);
                    assert(r@[i] == rest0[i - 1]);
                }
            }
        }
        r
    } else {
        assert(resps_match(spec_multiline(lv, min_lines as int), rest@));
        rest
    }
}

fn of_length_from(ms: &Vec<AgentResponse>, from: usize, min_length: usize) -> (r: Vec<AgentResponse>)
    requires
        from <= ms@.len(),
    ensures
        resps_match(spec_of_length(ms@.skip(from as int), min_length as int), r@),
    decreases ms@.len() - from,
{
    let ghost lv = ms@.skip(from as int);
    if from == ms.len() {
        let r: Vec<AgentResponse> = Vec::new();
        assert(lv =~= Seq::<AgentResponse>::empty());
        return r;
    }
    let mut rest = of_length_from(ms, from + 1, min_length);
    proof {
        assert(lv.drop_first() =~= ms@.skip(from + 1));
        assert(lv[0] == ms@[from as int]);
    }
    let keep = chars_of(ms[from].content.as_str()).len() >= min_length;
    if keep {
        let mut r: Vec<AgentResponse> = Vec::new();
        r.push(clone_response(&ms[from]));
        let ghost rest0 = rest@;
        r.append(&mut rest);
        proof {
            let ks = spec_of_length(lv, min_length as int);
            assert(ks =~= seq![lv[0]] + spec_of_length(lv.drop_first(), min_length as int));
            assert forall|i: int| 0 <= i < ks.len() implies resp_matches(
                ks[i],
                #[trigger] r@[i],
            ) by {
                if i > 0 {
                    assert(ks[i] == spec_of_length(lv.drop_first(), min_length as int)[i - 1]);
                    assert(r@[i] == rest0[i - 1]);
                }
            }
        }
        r
    } else {
        assert(resps_match(spec_of_length(lv, min_length as int), rest@));
        rest
    }
}

fn nonempty_from(ms: &Vec<AgentResponse>, from: usize) -> (r: Vec<AgentResponse>)
    requires
        from <= ms@.len(),
    ensures
        resps_match(spec_nonempty_content(ms@.skip(from as int)), r@),
    decreases ms@.len() - from,
{
    let ghost lv = ms@.skip(from as int);
    if from == ms.len() {
        let r: Vec<AgentResponse> = Vec::new();
        assert(lv =~= Seq::<AgentResponse>::empty());
        return r;
    }
    let mut rest = nonempty_from(ms, from + 1);
    proof {
        assert(lv.drop_first() =~= ms@.skip(from + 1));
        assert(lv[0] == ms@[from as int]);
    }
    let keep = crate::text::trim_chars(chars_of(ms[from].content.as_str())).len() > 0;
    if keep {
        let mut r: Vec<AgentResponse> = Vec::new();
        r.push(clone_response(&ms[from]));
        let ghost rest0 = rest@;
        r.append(&mut rest);
        proof {
            let ks = spec_nonempty_content(lv);
            assert(ks =~= seq![lv[0]] + spec_nonempty_content(lv.drop_first()));
            assert forall|i: int| 0 <= i < ks.len() implies resp_matches(
                ks[i],
                #[trigger] r@[i],
            ) by {
                if i > 0 {
                    assert(ks[i] == spec_nonempty_content(lv.drop_first())[i - 1]);
                    assert(r@[i] == rest0[i - 1]);
                }
            }
        }
        r
    } else {
        assert(resps_match(spec_nonempty_content(lv), rest@));
        rest
    }
}

impl MessageFilter {

    /// The responses of kind `message_type`, in order.
    pub fn filter_by_type(messages: &Vec<AgentResponse>, message_type: MessageType) -> (r: Vec<AgentResponse>)
        ensures
            resps_match(spec_of_type(messages@, message_type), r@),
    {
        let r = of_type_from(messages, 0, message_type);
        assert(messages@.skip(0) =~= messages@);
        r
    }

    /// The responses with success flag `success`, in order.
    pub fn filter_by_success(messages: &Vec<AgentResponse>, success: bool) -> (r: Vec<AgentResponse>)
        ensures
            resps_match(spec_of_success(messages@, success), r@),
    {
        let r = of_success_from(messages, 0, success);
        assert(messages@.skip(0) =~= messages@);
        r
    }

    /// The responses carrying a call of `tool_name`, in order.
    pub fn filter_by_tool_name(messages: &Vec<AgentResponse>, tool_name: &str) -> (r: Vec<AgentResponse>)
        ensures
            resps_match(spec_with_tool(messages@, tool_name@), r@),
    {
        let namev = chars_of(tool_name);
let r = with_tool_from(messages, 0, &namev);
        assert(messages@.skip(0) =~= messages@);
        r
    }

    /// The responses whose content holds `pattern`, in order.
    pub fn filter_by_content(messages: &Vec<AgentResponse>, pattern: &str) -> (r: Vec<AgentResponse>)
        ensures
            resps_match(spec_with_content(messages@, pattern@), r@),
    {
        let patv = chars_of(pattern);
let r = with_content_from(messages, 0, &patv);
        assert(messages@.skip(0) =~= messages@);
        r
    }

    /// The error responses: unsuccessful ones carrying an error detail, in order.
    pub fn filter_by_error(messages: &Vec<AgentResponse>) -> (r: Vec<AgentResponse>)
        ensures
            resps_match(spec_error_responses(messages@), r@),
    {
        let r = errors_from(messages, 0);
        assert(messages@.skip(0) =~= messages@);
        r
    }

    /// The responses carrying at least one tool call, in order.
    pub fn filter_by_has_tool_calls(messages: &Vec<AgentResponse>) -> (r: Vec<AgentResponse>)
        ensures
            resps_match(spec_with_tool_calls(messages@), r@),
    {
        let r = with_calls_from(messages, 0);
        assert(messages@.skip(0) =~= messages@);
        r
    }

    /// The responses touching `file_path` in their content or in some tool-call argument value, in order.
    pub fn filter_by_file_operation(messages: &Vec<AgentResponse>, file_path: &str) -> (r: Vec<AgentResponse>)
        ensures
            resps_match(spec_with_file(messages@, file_path@), r@),
    {
        let fpv = chars_of(file_path);
let r = with_file_from(messages, 0, &fpv);
        assert(messages@.skip(0) =~= messages@);
        r
    }

    /// The responses whose content yields a timestamp within `[start, end]`, in order.
    pub fn filter_by_time_range(messages: &Vec<AgentResponse>, start: u64, end: u64) -> (r: Vec<AgentResponse>)
        ensures
            resps_match(spec_in_time_range(messages@, start, end), r@),
    {
        let r = in_range_from(messages, 0, start, end);
        assert(messages@.skip(0) =~= messages@);
        r
    }

    /// The responses whose content spans at least `min_lines` lines, in order.
    pub fn filter_multiline_content(messages: &Vec<AgentResponse>, min_lines: usize) -> (r: Vec<AgentResponse>)
        ensures
            resps_match(spec_multiline(messages@, min_lines as int), r@),
    {
        let r = multiline_from(messages, 0, min_lines);
        assert(messages@.skip(0) =~= messages@);
        r
    }

    /// The responses whose content is at least `min_length` characters long, in order.
    pub fn filter_by_length(messages: &Vec<AgentResponse>, min_length: usize) -> (r: Vec<AgentResponse>)
        ensures
            resps_match(spec_of_length(messages@, min_length as int), r@),
    {
        let r = of_length_from(messages, 0, min_length);
        assert(messages@.skip(0) =~= messages@);
        r
    }

    /// The responses with non-blank content, in order.
    pub fn filter_empty_content(messages: &Vec<AgentResponse>) -> (r: Vec<AgentResponse>)
        ensures
            resps_match(spec_nonempty_content(messages@), r@),
    {
        let r = nonempty_from(messages, 0);
        assert(messages@.skip(0) =~= messages@);
        r
    }
}

// ---------------------------------------------------------------------------
// Summaries and searches
// ---------------------------------------------------------------------------

/// The first error response, if any.
pub open spec fn spec_first_error(ms: Seq<AgentResponse>) -> Option<AgentResponse>
    decreases ms.len(),
{
    if ms.len() == 0 {
        None
    } else if spec_is_error_response(ms[0]) {
        Some(ms[0])
    } else {
        spec_first_error(ms.drop_first())
    }
}

/// The error details carried by the responses, in order.
pub open spec fn spec_error_texts(ms: Seq<AgentResponse>) -> Seq<Seq<char>>
    decreases ms.len(),
{
    if ms.len() == 0 {
        Seq::empty()
    } else {
        let rest = spec_error_texts(ms.drop_first());
        match ms[0].error {
            Some(e) => seq![e@] + rest,
            None => rest,
        }
    }
}

/// The number of responses of kind `t`.
pub open spec fn spec_count_type(ms: Seq<AgentResponse>, t: MessageType) -> nat
    decreases ms.len(),
{
    if ms.len() == 0 {
        0
    } else {
        spec_count_type(ms.drop_first(), t) + (if ms[0].message_type == t {
            1nat
        } else {
            0nat
        })
    }
}

/// What regex-lite decides for a pattern: whether it compiles at all.
pub uninterp spec fn regex_compiles(pattern: Seq<char>) -> bool;

/// What regex-lite's matcher decides for a compiled pattern and a text.
pub uninterp spec fn regex_accepts(pattern: Seq<char>, text: Seq<char>) -> bool;

/// Relies on regex-lite's `Regex::new` and `Regex::is_match`: whether the
/// pattern compiles, and whether it matches the text. Both outcomes are
/// functions of their text arguments alone.
#[verifier::external_body]
fn regex_is_match(pattern: &str, text: &str) -> (r: Option<bool>)
    ensures
        r is Some <==> regex_compiles(pattern@),
        r matches Some(b) ==> b == regex_accepts(pattern@, text@),
{
    match regex_lite::Regex::new(pattern) {
        Ok(re) => Some(re.is_match(text)),
        Err(_) => None,
    }
}

/// The responses whose content the pattern accepts, in order.
pub open spec fn spec_regex_matches(ms: Seq<AgentResponse>, pattern: Seq<char>) -> Seq<
    AgentResponse,
>
    decreases ms.len(),
{
    if ms.len() == 0 {
        Seq::empty()
    } else {
        let rest = spec_regex_matches(ms.drop_first(), pattern);
        if regex_accepts(pattern, ms[0].content@) {
            seq![ms[0]] + rest
        } else {
            rest
        }
    }
}

fn regex_matches_from(ms: &Vec<AgentResponse>, from: usize, pattern: &str) -> (r: Vec<
    AgentResponse,
>)
    requires
        from <= ms@.len(),
        regex_compiles(pattern@),
    ensures
        resps_match(spec_regex_matches(ms@.skip(from as int), pattern@), r@),
    decreases ms@.len() - from,
{
    let ghost lv = ms@.skip(from as int);
    if from == ms.len() {
        let r: Vec<AgentResponse> = Vec::new();
        assert(lv =~= Seq::<AgentResponse>::empty());
        return r;
    }
    let mut rest = regex_matches_from(ms, from + 1, pattern);
    proof {
        assert(lv.drop_first() =~= ms@.skip(from + 1));
        assert(lv[0] == ms@[from as int]);
    }
    let keep = match regex_is_match(pattern, ms[from].content.as_str()) {
        Some(b) => b,
        None => {
            proof {
                assert(false);
            }
            false
        },
    };
    if keep {
        let mut r: Vec<AgentResponse> = Vec::new();
        r.push(clone_response(&ms[from]));
        let ghost rest0 = rest@;
        r.append(&mut rest);
        proof {
            let ks = spec_regex_matches(lv, pattern@);
            assert(ks =~= seq![lv[0]] + spec_regex_matches(lv.drop_first(), pattern@));
            assert forall|i: int| 0 <= i < ks.len() implies resp_matches(
                ks[i],
                #[trigger] r@[i],
            ) by {
                if i > 0 {
                    assert(ks[i] == spec_regex_matches(lv.drop_first(), pattern@)[i - 1]);
                    assert(r@[i] == rest0[i - 1]);
                }
            }
        }
        r
    } else {
        assert(resps_match(spec_regex_matches(lv, pattern@), rest@));
        rest
    }
}

fn error_texts_from(ms: &Vec<AgentResponse>, from: usize) -> (r: Vec<String>)
    requires
        from <= ms@.len(),
    ensures
        r@.len() == spec_error_texts(ms@.skip(from as int)).len(),
        forall|i: int|
            0 <= i < r@.len() ==> (#[trigger] r@[i])@ == spec_error_texts(
                ms@.skip(from as int),
            )[i],
    decreases ms@.len() - from,
{
    let ghost lv = ms@.skip(from as int);
    if from == ms.len() {
        let r: Vec<String> = Vec::new();
        assert(lv =~= Seq::<AgentResponse>::empty());
        return r;
    }
    let mut rest = error_texts_from(ms, from + 1);
    proof {
        assert(lv.drop_first() =~= ms@.skip(from + 1));
        assert(lv[0] == ms@[from as int]);
    }
    match &ms[from].error {
        Some(e) => {
            let mut r: Vec<String> = Vec::new();
            r.push(e.clone());
            let ghost rest0 = rest@;
            r.append(&mut rest);
            proof {
                let ks = spec_error_texts(lv);
                assert(ks =~= seq![lv[0].error->0@] + spec_error_texts(lv.drop_first()));
                assert forall|i: int| 0 <= i < ks.len() implies (#[trigger] r@[i])@ == ks[i] by {
                    if i > 0 {
                        assert(r@[i] == rest0[i - 1]);
                        assert(ks[i] == spec_error_texts(lv.drop_first())[i - 1]);
                    }
                }
            }
            r
        },
        None => {
            rest
        },
    }
}

impl MessageFilter {
    /// The first error response, copied out.
    pub fn find_first_error(messages: &Vec<AgentResponse>) -> (r: Option<AgentResponse>)
        ensures
            (match spec_first_error(messages@) {
                Some(m) => r matches Some(c) && resp_matches(m, c),
                None => r is None,
            }),
    {
        let n = messages.len();
        let mut i: usize = 0;
        proof {
            assert(messages@.skip(0) =~= messages@);
        }
        while i < n
            invariant
                n == messages@.len(),
                i <= n,
                spec_first_error(messages@) == spec_first_error(messages@.skip(i as int)),
                forall|k: int| 0 <= k < i ==> !spec_is_error_response(#[trigger] messages@[k]),
            decreases n - i,
        {
            proof {
                assert(messages@.skip(i as int)[0] == messages@[i as int]);
                assert(messages@.skip(i as int).drop_first() =~= messages@.skip(i + 1));
            }
            let is_err = !messages[i].success && (match &messages[i].error {
                Some(_) => true,
                None => false,
            });
            if is_err {
                return Some(clone_response(&messages[i]));
            }
            i = i + 1;
        }
        proof {
            assert(messages@.skip(n as int) =~= Seq::<AgentResponse>::empty());
        }
        None
    }

    /// The last response, copied out.
    pub fn find_last_message(messages: &Vec<AgentResponse>) -> (r: Option<AgentResponse>)
        ensures
            messages@.len() == 0 ==> r is None,
            messages@.len() > 0 ==> (r matches Some(c) && resp_matches(messages@.last(), c)),
    {
        if messages.len() == 0 {
            None
        } else {
            Some(clone_response(&messages[messages.len() - 1]))
        }
    }

    /// The error details of the responses that carry one, in order.
    pub fn extract_errors_only(messages: &Vec<AgentResponse>) -> (r: Vec<String>)
        ensures
            r@.len() == spec_error_texts(messages@).len(),
            forall|i: int|
                0 <= i < r@.len() ==> (#[trigger] r@[i])@ == spec_error_texts(messages@)[i],
    {
        let r = error_texts_from(messages, 0);
        assert(messages@.skip(0) =~= messages@);
        r
    }

    /// The contents of all responses, in order.
    pub fn extract_content_only(messages: &Vec<AgentResponse>) -> (r: Vec<String>)
        ensures
            r@.len() == messages@.len(),
            forall|i: int|
                0 <= i < r@.len() ==> (#[trigger] r@[i])@ == messages@[i].content@,
    {
        let n = messages.len();
        let mut r: Vec<String> = Vec::new();
        let mut i: usize = 0;
        while i < n
            invariant
                n == messages@.len(),
                i <= n,
                r@.len() == i,
                forall|k: int| 0 <= k < i ==> (#[trigger] r@[k])@ == messages@[k].content@,
            decreases n - i,
        {
            r.push(messages[i].content.clone());
            i = i + 1;
        }
        r
    }

    /// The timestamp a content line yields, in epoch seconds.
    pub fn extract_timestamp(content: &str) -> (r: Option<u64>)
        ensures
            r == spec_parse_timestamp(content@),
    {
        OutputParser::parse_timestamp(content)
    }

    /// The first `n` responses, copied out.
    pub fn limit_messages(messages: &Vec<AgentResponse>, n: usize) -> (r: Vec<AgentResponse>)
        ensures
            resps_match(
                if messages@.len() <= n {
                    messages@
                } else {
                    messages@.take(n as int)
                },
                r@,
            ),
    {
        let count = if n <= messages.len() {
            n
        } else {
            messages.len()
        };
        let mut r: Vec<AgentResponse> = Vec::new();
        let mut i: usize = 0;
        while i < count
            invariant
                count <= messages@.len(),
                count == (if messages@.len() <= n {
                    messages@.len() as int
                } else {
                    n as int
                }),
                i <= count,
                r@.len() == i,
                forall|k: int| 0 <= k < i ==> resp_matches(messages@[k], #[trigger] r@[k]),
            decreases count - i,
        {
            r.push(clone_response(&messages[i]));
            i = i + 1;
        }
        r
    }

    /// The `page`-th page of `page_size` responses, copied out; both the
    /// page start and end saturate rather than overflow.
    pub fn paginate_messages(messages: &Vec<AgentResponse>, page: usize, page_size: usize) -> (r:
        Vec<AgentResponse>)
        ensures
            ({
                let start = if page * page_size > usize::MAX {
                    usize::MAX as int
                } else {
                    page * page_size
                };
                let end = if start + page_size > usize::MAX {
                    usize::MAX as int
                } else {
                    start + page_size
                };
                let lo = if start <= messages@.len() {
                    start
                } else {
                    messages@.len() as int
                };
                let hi = if end <= messages@.len() {
                    end
                } else {
                    messages@.len() as int
                };
                resps_match(messages@.subrange(lo, hi), r@)
            }),
    {
        let start = match page.checked_mul(page_size) {
            Some(s) => s,
            None => usize::MAX,
        };
        let end = start.saturating_add(page_size);
        let len = messages.len();
        let lo = if start <= len {
            start
        } else {
            len
        };
        let hi = if end <= len {
            end
        } else {
            len
        };
        let mut r: Vec<AgentResponse> = Vec::new();
        let mut i: usize = lo;
        while i < hi
            invariant
                lo <= i <= hi <= messages@.len(),
                r@.len() == i - lo,
                forall|k: int|
                    0 <= k < i - lo ==> resp_matches(messages@[lo + k], #[trigger] r@[k]),
            decreases hi - i,
        {
            r.push(clone_response(&messages[i]));
            i = i + 1;
        }
        r
    }

    /// How many responses each kind has: the four kinds with their
    /// counts, in declaration order.
    pub fn count_by_type(messages: &Vec<AgentResponse>) -> (r: Vec<(MessageType, usize)>)
        ensures
            r@.len() == 4,
            r@[0] == (MessageType::Message, spec_count_type(messages@, MessageType::Message) as usize),
            r@[1] == (MessageType::ToolCall, spec_count_type(messages@, MessageType::ToolCall) as usize),
            r@[2] == (MessageType::Error, spec_count_type(messages@, MessageType::Error) as usize),
            r@[3] == (
                MessageType::Completion,
                spec_count_type(messages@, MessageType::Completion) as usize,
            ),
    {
        let mut r: Vec<(MessageType, usize)> = Vec::new();
        r.push((MessageType::Message, Self::count_of_type(messages, MessageType::Message)));
        r.push((MessageType::ToolCall, Self::count_of_type(messages, MessageType::ToolCall)));
        r.push((MessageType::Error, Self::count_of_type(messages, MessageType::Error)));
        r.push((MessageType::Completion, Self::count_of_type(messages, MessageType::Completion)));
        r
    }

    /// How many responses have kind `t`.
    pub fn count_of_type(messages: &Vec<AgentResponse>, t: MessageType) -> (r: usize)
        ensures
            r == spec_count_type(messages@, t),
    {
        let ghost whole = messages@;
        let n = messages.len();
        let mut count: usize = 0;
        let mut i: usize = 0;
        while i < n
            invariant
                n == messages@.len(),
                i <= n,
                count == spec_count_type(messages@.take(i as int), t),
                count <= i,
            decreases n - i,
        {
            proof {
                lemma_count_type_take_step(messages@, i as int, t);
            }
            if messages[i].message_type == t {
                count = count + 1;
            }
            i = i + 1;
        }
        assert(messages@.take(n as int) =~= messages@);
        count
    }

    /// The distinct tool names called across the responses, each at its
    /// first occurrence, in response and call order.
    pub fn unique_tool_names(messages: &Vec<AgentResponse>) -> (r: Vec<String>)
        ensures
            name_views(r@) == spec_dedup(spec_all_names(messages@)),
    {
        let all = collect_all_names(messages);
        let n = all.len();
        let mut r: Vec<String> = Vec::new();
        let mut i: usize = 0;
        proof {
            assert(name_views(all@).take(0) =~= Seq::<Seq<char>>::empty());
            assert(name_views(r@) =~= spec_dedup(name_views(all@).take(0)));
        }
        while i < n
            invariant
                n == all@.len(),
                i <= n,
                name_views(r@) == spec_dedup(name_views(all@).take(i as int)),
            decreases n - i,
        {
            let ghost pref = name_views(all@).take(i as int);
            proof {
                assert(name_views(all@).take(i + 1).drop_last() =~= pref);
                assert(name_views(all@).take(i + 1).last() == all@[i as int]@);
                lemma_dedup_membership(pref);
            }
            let x = chars_of(all[i].as_str());
            if !contains_name(&r, &x) {
                proof {
                    if pref.contains(x@) {
                        assert(name_views(r@).contains(x@));
                    }
                }
                let ghost before = r@;
                r.push(all[i].clone());
                proof {
                    assert forall|k: int| 0 <= k < before.len() implies #[trigger] name_views(
                        r@,
                    )[k] == name_views(before)[k] by {
                        assert(r@[k] == before[k]);
                    }
                    assert(name_views(r@)[before.len() as int] == x@);
                    assert(name_views(r@) =~= spec_dedup(name_views(all@).take(i + 1)));
                }
            } else {
                proof {
                    assert(pref.contains(x@));
                    assert(name_views(r@) =~= spec_dedup(name_views(all@).take(i + 1)));
                }
            }
            i = i + 1;
        }
        proof {
            assert(name_views(all@).take(n as int) =~= name_views(all@));
        }
        r
    }

    /// Each distinct tool name with the number of calls of it across all
    /// responses, in first-occurrence order; a count too large for the
    /// word size saturates.
    pub fn count_by_tool(messages: &Vec<AgentResponse>) -> (r: Vec<(String, usize)>)
        ensures
            ({
                let names = spec_dedup(spec_all_names(messages@));
                &&& r@.len() == names.len()
                &&& forall|i: int|
                    0 <= i < names.len() ==> (#[trigger] r@[i]).0@ == names[i] && r@[i].1
                        == spec_clamped_count(messages@, names[i])
            }),
    {
        let names = Self::unique_tool_names(messages);
        let n = names.len();
        let mut r: Vec<(String, usize)> = Vec::new();
        let mut i: usize = 0;
        while i < n
            invariant
                n == names@.len(),
                name_views(names@) == spec_dedup(spec_all_names(messages@)),
                i <= n,
                r@.len() == i,
                forall|k: int|
                    0 <= k < i ==> (#[trigger] r@[k]).0@ == name_views(names@)[k] && r@[k].1
                        == spec_clamped_count(messages@, name_views(names@)[k]),
            decreases n - i,
        {
            let count = count_tool_exec(messages, &chars_of(names[i].as_str()));
            r.push((names[i].clone(), count));
            i = i + 1;
        }
        r
    }

    /// The argument lists of the first `tool_name` call of each response
    /// carrying one, in response order.
    pub fn extract_tool_arguments(messages: &Vec<AgentResponse>, tool_name: &str) -> (r: Vec<
        Vec<(String, String)>,
    >)
        ensures
            r@.len() == spec_tool_arguments(messages@, tool_name@).len(),
            forall|i: int|
                0 <= i < r@.len() ==> arg_pair_views((#[trigger] r@[i])@) == spec_tool_arguments(
                    messages@,
                    tool_name@,
                )[i],
    {
        let namev = chars_of(tool_name);
        let r = tool_arguments_from(messages, 0, &namev);
        assert(messages@.skip(0) =~= messages@);
        r
    }

    /// The responses in timestamp order, ascending or descending,
    /// stably: responses with equal keys keep their original order, and
    /// content yielding no timestamp sorts with key zero.
    pub fn sort_by_timestamp(messages: &Vec<AgentResponse>, ascending: bool) -> (r: Vec<
        AgentResponse,
    >)
        ensures
            resps_match(spec_sort_by_ts(messages@, ascending), r@),
    {
        let n = messages.len();
        let mut r: Vec<AgentResponse> = Vec::new();
        let mut i: usize = 0;
        proof {
            assert(messages@.take(0) =~= Seq::<AgentResponse>::empty());
        }
        while i < n
            invariant
                n == messages@.len(),
                i <= n,
                resps_match(spec_sort_by_ts(messages@.take(i as int), ascending), r@),
            decreases n - i,
        {
            let ghost sorted = spec_sort_by_ts(messages@.take(i as int), ascending);
            let ghost m = messages@[i as int];
            proof {
                assert(messages@.take(i + 1).drop_last() =~= messages@.take(i as int));
                assert(messages@.take(i + 1).last() == m);
            }
            let key_m = ts_key_exec(&messages[i]);
            let j = stable_insert_point(&r, key_m, ascending, Ghost(sorted));
            let c = clone_response(&messages[i]);
            let ghost prev = r@;
            r.insert(j, c);
            proof {
                lemma_insert_at(sorted, m, ascending, j as int);
                let target = spec_insert_by_ts(sorted, m, ascending);
                assert(target == sorted.take(j as int) + seq![m] + sorted.skip(j as int));
                assert forall|t: int| 0 <= t < target.len() implies resp_matches(
                    target[t],
                    #[trigger] r@[t],
                ) by {
                    if t < j {
                        assert(r@[t] == prev[t]);
                        assert(target[t] == sorted[t]);
                    } else if t == j {
                        assert(target[t] == m);
                    } else {
                        assert(r@[t] == prev[t - 1]);
                        assert(target[t] == sorted.skip(j as int)[t - j - 1]);
                        assert(target[t] == sorted[t - 1]);
                    }
                }
                assert(resps_match(spec_sort_by_ts(messages@.take(i + 1), ascending), r@));
            }
            i = i + 1;
        }
        proof {
            assert(messages@.take(n as int) =~= messages@);
        }
        r
    }

    /// The responses grouped by kind: the four kinds in declaration
    /// order, each with its responses in their original order.
    pub fn group_by_type(messages: &Vec<AgentResponse>) -> (r: Vec<
        (MessageType, Vec<AgentResponse>),
    >)
        ensures
            r@.len() == 4,
            r@[0].0 == MessageType::Message && resps_match(
                spec_of_type(messages@, MessageType::Message),
                r@[0].1@,
            ),
            r@[1].0 == MessageType::ToolCall && resps_match(
                spec_of_type(messages@, MessageType::ToolCall),
                r@[1].1@,
            ),
            r@[2].0 == MessageType::Error && resps_match(
                spec_of_type(messages@, MessageType::Error),
                r@[2].1@,
            ),
            r@[3].0 == MessageType::Completion && resps_match(
                spec_of_type(messages@, MessageType::Completion),
                r@[3].1@,
            ),
    {
        let mut r: Vec<(MessageType, Vec<AgentResponse>)> = Vec::new();
        r.push((MessageType::Message, Self::filter_by_type(messages, MessageType::Message)));
        r.push((MessageType::ToolCall, Self::filter_by_type(messages, MessageType::ToolCall)));
        r.push((MessageType::Error, Self::filter_by_type(messages, MessageType::Error)));
        r.push((MessageType::Completion, Self::filter_by_type(messages, MessageType::Completion)));
        r
    }

    /// The responses with each later repetition dropped: two responses
    /// count as the same when they share kind, success flag and content
    /// length.
    pub fn deduplicate_messages(messages: &Vec<AgentResponse>) -> (r: Vec<AgentResponse>)
        ensures
            resps_match(spec_dedup_msgs(messages@), r@),
    {
        let n = messages.len();
        let mut r: Vec<AgentResponse> = Vec::new();
        let mut i: usize = 0;
        proof {
            assert(messages@.take(0) =~= Seq::<AgentResponse>::empty());
        }
        while i < n
            invariant
                n == messages@.len(),
                i <= n,
                resps_match(spec_dedup_msgs(messages@.take(i as int)), r@),
            decreases n - i,
        {
            proof {
                assert(messages@.take(i + 1).drop_last() =~= messages@.take(i as int));
                assert(messages@.take(i + 1).last() == messages@[i as int]);
            }
            if !has_earlier_same_key(messages, i) {
                let ghost prev = r@;
                r.push(clone_response(&messages[i]));
                proof {
                    let ks = spec_dedup_msgs(messages@.take(i + 1));
                    assert(ks == spec_dedup_msgs(messages@.take(i as int)).push(
                        messages@[i as int],
                    ));
                    assert forall|t: int| 0 <= t < ks.len() implies resp_matches(
                        ks[t],
                        #[trigger] r@[t],
                    ) by {
                        if t < prev.len() {
                            assert(r@[t] == prev[t]);
                            assert(ks[t] == spec_dedup_msgs(messages@.take(i as int))[t]);
                        }
                    }
                }
            }
            i = i + 1;
        }
        proof {
            assert(messages@.take(n as int) =~= messages@);
        }
        r
    }

    /// The responses whose content the pattern accepts, in order; a
    /// pattern that does not compile is a parse error.
    pub fn search_by_pattern(messages: &Vec<AgentResponse>, regex: &str) -> (r: Result<
        Vec<AgentResponse>,
        TmuxError,
    >)
        ensures
            regex_compiles(regex@) ==> (r matches Ok(ms) && resps_match(
                spec_regex_matches(messages@, regex@),
                ms@,
            )),
            !regex_compiles(regex@) ==> (r matches Err(e) && e matches TmuxError::Parse(m) && m@
                == "invalid pattern: "@ + regex@),
    {
        match regex_is_match(regex, "") {
            None => Err(TmuxError::Parse(crate::text::concat2("invalid pattern: ", regex))),
            Some(_) => {
                let ms = regex_matches_from(messages, 0, regex);
                assert(messages@.skip(0) =~= messages@);
                Ok(ms)
            },
        }
    }
}

/// The first call of tool `name` in a response, as argument views.
pub open spec fn spec_first_call_args(calls: Seq<ToolCall>, name: Seq<char>) -> Option<
    Seq<(Seq<char>, Seq<char>)>,
>
    decreases calls.len(),
{
    if calls.len() == 0 {
        None
    } else if calls[0].tool_name@ == name {
        Some(arg_pair_views(calls[0].arguments@))
    } else {
        spec_first_call_args(calls.drop_first(), name)
    }
}

/// The argument lists of the first `name` call of each response carrying
/// one, in response order.
pub open spec fn spec_tool_arguments(ms: Seq<AgentResponse>, name: Seq<char>) -> Seq<
    Seq<(Seq<char>, Seq<char>)>,
>
    decreases ms.len(),
{
    if ms.len() == 0 {
        Seq::empty()
    } else {
        let rest = spec_tool_arguments(ms.drop_first(), name);
        match spec_first_call_args(ms[0].tool_calls@, name) {
            Some(args) => seq![args] + rest,
            None => rest,
        }
    }
}

fn first_call_args(m: &AgentResponse, name: &Vec<char>) -> (r: Option<Vec<(String, String)>>)
    ensures
        (match spec_first_call_args(m.tool_calls@, name@) {
            Some(args) => r matches Some(a) && arg_pair_views(a@) == args,
            None => r is None,
        }),
{
    let n = m.tool_calls.len();
    let mut j: usize = 0;
    proof {
        assert(m.tool_calls@.skip(0) =~= m.tool_calls@);
    }
    while j < n
        invariant
            n == m.tool_calls@.len(),
            j <= n,
            spec_first_call_args(m.tool_calls@, name@) == spec_first_call_args(
                m.tool_calls@.skip(j as int),
                name@,
            ),
            forall|k: int| 0 <= k < j ==> (#[trigger] m.tool_calls@[k]).tool_name@ != name@,
        decreases n - j,
    {
        proof {
            assert(m.tool_calls@.skip(j as int)[0] == m.tool_calls@[j as int]);
            assert(m.tool_calls@.skip(j as int).drop_first() =~= m.tool_calls@.skip(j + 1));
        }
        let tn = chars_of(m.tool_calls[j].tool_name.as_str());
        if crate::text::eq_chars(&tn, name) {
            let copy = clone_tool_call_local(&m.tool_calls[j]);
            return Some(copy.arguments);
        }
        j = j + 1;
    }
    proof {
        assert(m.tool_calls@.skip(n as int) =~= Seq::<ToolCall>::empty());
    }
    None
}

fn tool_arguments_from(ms: &Vec<AgentResponse>, from: usize, name: &Vec<char>) -> (r: Vec<
    Vec<(String, String)>,
>)
    requires
        from <= ms@.len(),
    ensures
        r@.len() == spec_tool_arguments(ms@.skip(from as int), name@).len(),
        forall|i: int|
            0 <= i < r@.len() ==> arg_pair_views((#[trigger] r@[i])@) == spec_tool_arguments(
                ms@.skip(from as int),
                name@,
            )[i],
    decreases ms@.len() - from,
{
    let ghost lv = ms@.skip(from as int);
    if from == ms.len() {
        let r: Vec<Vec<(String, String)>> = Vec::new();
        assert(lv =~= Seq::<AgentResponse>::empty());
        return r;
    }
    let mut rest = tool_arguments_from(ms, from + 1, name);
    proof {
        assert(lv.drop_first() =~= ms@.skip(from + 1));
        assert(lv[0] == ms@[from as int]);
    }
    match first_call_args(&ms[from], name) {
        Some(args) => {
            let mut r: Vec<Vec<(String, String)>> = Vec::new();
            r.push(args);
            let ghost rest0 = rest@;
            r.append(&mut rest);
            proof {
                let ks = spec_tool_arguments(lv, name@);
                assert(ks =~= seq![spec_first_call_args(lv[0].tool_calls@, name@)->0]
                    + spec_tool_arguments(lv.drop_first(), name@));
                assert forall|i: int| 0 <= i < ks.len() implies arg_pair_views(
                    (#[trigger] r@[i])@,
                ) == ks[i] by {
                    if i > 0 {
                        assert(r@[i] == rest0[i - 1]);
                        assert(ks[i] == spec_tool_arguments(lv.drop_first(), name@)[i - 1]);
                    }
                }
            }
            r
        },
        None => {
            rest
        },
    }
}

// ---------------------------------------------------------------------------
// Tool-name inventory
// ---------------------------------------------------------------------------

/// The names of a response's calls, in call order.
pub open spec fn spec_call_names(calls: Seq<ToolCall>) -> Seq<Seq<char>> {
    calls.map_values(|c: ToolCall| c.tool_name@)
}

/// Every tool name of every response, in response and call order.
pub open spec fn spec_all_names(ms: Seq<AgentResponse>) -> Seq<Seq<char>>
    decreases ms.len(),
{
    if ms.len() == 0 {
        Seq::empty()
    } else {
        spec_call_names(ms[0].tool_calls@) + spec_all_names(ms.drop_first())
    }
}

/// `names` with later repetitions dropped: each name appears once, at its
/// first position.
pub open spec fn spec_dedup(names: Seq<Seq<char>>) -> Seq<Seq<char>>
    decreases names.len(),
{
    if names.len() == 0 {
        Seq::empty()
    } else {
        let rest = spec_dedup(names.drop_last());
        if names.drop_last().contains(names.last()) {
            rest
        } else {
            rest.push(names.last())
        }
    }
}

/// Dropping repetitions keeps exactly the names that occur.
proof fn lemma_dedup_membership(names: Seq<Seq<char>>)
    ensures
        forall|x: Seq<char>| #[trigger] spec_dedup(names).contains(x) <==> names.contains(x),
    decreases names.len(),
{
    if names.len() > 0 {
        let prior = names.drop_last();
        let rest = spec_dedup(prior);
        lemma_dedup_membership(prior);
        assert forall|x: Seq<char>| #[trigger] names.contains(x) implies spec_dedup(
            names,
        ).contains(x) by {
            let k = choose|k: int| 0 <= k < names.len() && names[k] == x;
            if k < names.len() - 1 {
                assert(prior[k] == x);
                assert(prior.contains(x));
                assert(rest.contains(x));
                let j = choose|j: int| 0 <= j < rest.len() && rest[j] == x;
                assert(spec_dedup(names)[j] == x);
                assert(spec_dedup(names).contains(x));
            } else {
                if prior.contains(names.last()) {
                    assert(prior.contains(x));
                    assert(rest.contains(x));
                    let j = choose|j: int| 0 <= j < rest.len() && rest[j] == x;
                    assert(spec_dedup(names)[j] == x);
                    assert(spec_dedup(names).contains(x));
                } else {
                    assert(spec_dedup(names).last() == x);
                    assert(spec_dedup(names).contains(x));
                }
            }
        }
        assert forall|x: Seq<char>| #[trigger] spec_dedup(names).contains(x) implies names.contains(
            x,
        ) by {
            let j = choose|j: int| 0 <= j < spec_dedup(names).len() && spec_dedup(names)[j] == x;
            if j < rest.len() {
                assert(spec_dedup(names)[j] == rest[j]);
                assert(rest.contains(x));
                assert(prior.contains(x));
                let k = choose|k: int| 0 <= k < prior.len() && prior[k] == x;
                assert(names[k] == prior[k]);
                assert(names.contains(x));
            } else {
                assert(x == names.last());
                assert(names[names.len() - 1] == x);
                assert(names.contains(x));
            }
        }
    }
}

proof fn lemma_all_names_take_step(ms: Seq<AgentResponse>, i: int)
    requires
        0 <= i < ms.len(),
    ensures
        spec_all_names(ms.take(i + 1)) == spec_all_names(ms.take(i)) + spec_call_names(
            ms[i].tool_calls@,
        ),
    decreases i,
{
    if i == 0 {
        assert(ms.take(1).drop_first() =~= ms.take(0));
        assert(ms.take(1)[0] == ms[0]);
        assert(spec_all_names(ms.take(0)) =~= Seq::<Seq<char>>::empty());
        assert(spec_all_names(ms.take(1)) =~= spec_all_names(ms.take(0)) + spec_call_names(
            ms[0].tool_calls@,
        ));
    } else {
        lemma_all_names_take_step(ms.drop_first(), i - 1);
        assert(ms.take(i + 1).drop_first() =~= ms.drop_first().take(i));
        assert(ms.take(i).drop_first() =~= ms.drop_first().take(i - 1));
        assert(ms.drop_first()[i - 1] == ms[i]);
        assert(ms.take(i + 1)[0] == ms[0]);
        assert(ms.take(i)[0] == ms[0]);
        assert(spec_all_names(ms.take(i + 1)) =~= spec_all_names(ms.take(i)) + spec_call_names(
            ms[i].tool_calls@,
        ));
    }
}

/// The views of a vector of names.
pub open spec fn name_views(names: Seq<String>) -> Seq<Seq<char>> {
    names.map_values(|s: String| s@)
}

fn collect_all_names(ms: &Vec<AgentResponse>) -> (r: Vec<String>)
    ensures
        name_views(r@) == spec_all_names(ms@),
{
    let n = ms.len();
    let mut r: Vec<String> = Vec::new();
    let mut i: usize = 0;
    proof {
        assert(name_views(r@) =~= spec_all_names(ms@.take(0)));
    }
    while i < n
        invariant
            n == ms@.len(),
            i <= n,
            name_views(r@) == spec_all_names(ms@.take(i as int)),
        decreases n - i,
    {
        proof {
            lemma_all_names_take_step(ms@, i as int);
        }
        let ghost before = r@;
        let calls = &ms[i].tool_calls;
        let cn = calls.len();
        let mut k: usize = 0;
        while k < cn
            invariant
                cn == calls@.len(),
                k <= cn,
                r@.len() == before.len() + k,
                forall|t: int| 0 <= t < before.len() ==> #[trigger] r@[t] == before[t],
                forall|t: int|
                    0 <= t < k ==> (#[trigger] r@[before.len() + t])@ == calls@[t].tool_name@,
            decreases cn - k,
        {
            r.push(calls[k].tool_name.clone());
            k = k + 1;
        }
        proof {
            assert forall|t: int| 0 <= t < r@.len() implies #[trigger] name_views(r@)[t] == (
            name_views(before) + spec_call_names(calls@))[t] by {
                assert(name_views(r@)[t] == r@[t]@);
                if t < before.len() {
                    assert(name_views(before)[t] == before[t]@);
                } else {
                    assert(spec_call_names(calls@)[t - before.len()] == calls@[t
                        - before.len()].tool_name@);
                    assert((#[trigger] r@[before.len() + (t - before.len())])@ == calls@[t
                        - before.len()].tool_name@);
                    assert(before.len() + (t - before.len()) == t);
                }
            }
            assert(name_views(r@) =~= name_views(before) + spec_call_names(calls@));
            assert(name_views(r@) =~= spec_all_names(ms@.take(i + 1)));
        }
        i = i + 1;
    }
    proof {
        assert(ms@.take(n as int) =~= ms@);
    }
    r
}

fn contains_name(names: &Vec<String>, x: &Vec<char>) -> (b: bool)
    ensures
        b == name_views(names@).contains(x@),
{
    let n = names.len();
    let mut i: usize = 0;
    while i < n
        invariant
            n == names@.len(),
            i <= n,
            forall|k: int| 0 <= k < i ==> (#[trigger] names@[k])@ != x@,
        decreases n - i,
    {
        if crate::text::eq_chars(&chars_of(names[i].as_str()), x) {
            assert(name_views(names@)[i as int] == x@);
            return true;
        }
        i = i + 1;
    }
    proof {
        if name_views(names@).contains(x@) {
            let k = choose|k: int|
                0 <= k < name_views(names@).len() && name_views(names@)[k] == x@;
            assert(names@[k]@ != x@);
            assert(false);
        }
    }
    false
}

/// The number of calls of `name` in one response's call list.
pub open spec fn spec_count_calls(calls: Seq<ToolCall>, name: Seq<char>) -> nat
    decreases calls.len(),
{
    if calls.len() == 0 {
        0
    } else {
        spec_count_calls(calls.drop_first(), name) + (if calls[0].tool_name@ == name {
            1nat
        } else {
            0nat
        })
    }
}

/// The number of calls of `name` across all responses.
pub open spec fn spec_count_tool(ms: Seq<AgentResponse>, name: Seq<char>) -> nat
    decreases ms.len(),
{
    if ms.len() == 0 {
        0
    } else {
        spec_count_calls(ms[0].tool_calls@, name) + spec_count_tool(ms.drop_first(), name)
    }
}

/// The call count of `name`, saturated at the word size.
pub open spec fn spec_clamped_count(ms: Seq<AgentResponse>, name: Seq<char>) -> int {
    if spec_count_tool(ms, name) <= usize::MAX {
        spec_count_tool(ms, name) as int
    } else {
        usize::MAX as int
    }
}

proof fn lemma_count_calls_take_step(calls: Seq<ToolCall>, k: int, name: Seq<char>)
    requires
        0 <= k < calls.len(),
    ensures
        spec_count_calls(calls.take(k + 1), name) == spec_count_calls(calls.take(k), name) + (
        if calls[k].tool_name@ == name {
            1nat
        } else {
            0nat
        }),
    decreases k,
{
    if k == 0 {
        assert(calls.take(1).drop_first() =~= calls.take(0));
        assert(calls.take(1)[0] == calls[0]);
    } else {
        lemma_count_calls_take_step(calls.drop_first(), k - 1, name);
        assert(calls.take(k + 1).drop_first() =~= calls.drop_first().take(k));
        assert(calls.take(k).drop_first() =~= calls.drop_first().take(k - 1));
        assert(calls.drop_first()[k - 1] == calls[k]);
        assert(calls.take(k + 1)[0] == calls[0]);
        assert(calls.take(k)[0] == calls[0]);
    }
}

proof fn lemma_count_tool_take_step(ms: Seq<AgentResponse>, i: int, name: Seq<char>)
    requires
        0 <= i < ms.len(),
    ensures
        spec_count_tool(ms.take(i + 1), name) == spec_count_tool(ms.take(i), name)
            + spec_count_calls(ms[i].tool_calls@, name),
    decreases i,
{
    if i == 0 {
        assert(ms.take(1).drop_first() =~= ms.take(0));
        assert(ms.take(1)[0] == ms[0]);
    } else {
        lemma_count_tool_take_step(ms.drop_first(), i - 1, name);
        assert(ms.take(i + 1).drop_first() =~= ms.drop_first().take(i));
        assert(ms.take(i).drop_first() =~= ms.drop_first().take(i - 1));
        assert(ms.drop_first()[i - 1] == ms[i]);
        assert(ms.take(i + 1)[0] == ms[0]);
        assert(ms.take(i)[0] == ms[0]);
    }
}

fn count_tool_exec(ms: &Vec<AgentResponse>, name: &Vec<char>) -> (r: usize)
    ensures
        r == spec_clamped_count(ms@, name@),
{
    let n = ms.len();
    let mut count: usize = 0;
    let mut i: usize = 0;
    proof {
        assert(ms@.take(0) =~= Seq::<AgentResponse>::empty());
    }
    while i < n
        invariant
            n == ms@.len(),
            i <= n,
            count == (if spec_count_tool(ms@.take(i as int), name@) <= usize::MAX {
                spec_count_tool(ms@.take(i as int), name@) as int
            } else {
                usize::MAX as int
            }),
        decreases n - i,
    {
        proof {
            lemma_count_tool_take_step(ms@, i as int, name@);
        }
        let calls = &ms[i].tool_calls;
        let cn = calls.len();
        let ghost outer = spec_count_tool(ms@.take(i as int), name@);
        let mut k: usize = 0;
        proof {
            assert(calls@.take(0) =~= Seq::<ToolCall>::empty());
        }
        while k < cn
            invariant
                cn == calls@.len(),
                k <= cn,
                outer == spec_count_tool(ms@.take(i as int), name@),
                count == (if outer + spec_count_calls(calls@.take(k as int), name@) <= usize::MAX {
                    (outer + spec_count_calls(calls@.take(k as int), name@)) as int
                } else {
                    usize::MAX as int
                }),
            decreases cn - k,
        {
            proof {
                lemma_count_calls_take_step(calls@, k as int, name@);
            }
            let tn = chars_of(calls[k].tool_name.as_str());
            if crate::text::eq_chars(&tn, name) {
                count = count.saturating_add(1);
            }
            k = k + 1;
        }
        proof {
            assert(calls@.take(cn as int) =~= calls@);
        }
        i = i + 1;
    }
    proof {
        assert(ms@.take(n as int) =~= ms@);
    }
    count
}

// ---------------------------------------------------------------------------
// Sorting by timestamp
// ---------------------------------------------------------------------------

/// The sort key of a response: the timestamp its content yields, or zero
/// when it yields none.
pub open spec fn spec_ts_key(m: AgentResponse) -> u64 {
    match spec_parse_timestamp(m.content@) {
        Some(t) => t,
        None => 0,
    }
}

/// Whether key `a` may stay before key `b` in the requested direction.
pub open spec fn spec_key_le(a: u64, b: u64, ascending: bool) -> bool {
    if ascending {
        a <= b
    } else {
        a >= b
    }
}

/// `m` inserted into the sorted `s`, after every entry whose key may stay
/// before its own: equal keys keep their earlier entries first, so the
/// sort built from this insertion is stable.
pub open spec fn spec_insert_by_ts(s: Seq<AgentResponse>, m: AgentResponse, ascending: bool) -> Seq<
    AgentResponse,
>
    decreases s.len(),
{
    if s.len() == 0 {
        seq![m]
    } else if spec_key_le(spec_ts_key(s[0]), spec_ts_key(m), ascending) {
        seq![s[0]] + spec_insert_by_ts(s.drop_first(), m, ascending)
    } else {
        seq![m] + s
    }
}

/// The responses in key order, stably: each response inserted in turn
/// into the sorted front of the list.
pub open spec fn spec_sort_by_ts(ms: Seq<AgentResponse>, ascending: bool) -> Seq<AgentResponse>
    decreases ms.len(),
{
    if ms.len() == 0 {
        Seq::empty()
    } else {
        spec_insert_by_ts(spec_sort_by_ts(ms.drop_last(), ascending), ms.last(), ascending)
    }
}

/// Inserting at the first position whose entry's key may not stay before
/// the new key is exactly the stable insertion.
proof fn lemma_insert_at(s: Seq<AgentResponse>, m: AgentResponse, ascending: bool, j: int)
    requires
        0 <= j <= s.len(),
        forall|t: int|
            0 <= t < j ==> spec_key_le(spec_ts_key(#[trigger] s[t]), spec_ts_key(m), ascending),
        j < s.len() ==> !spec_key_le(spec_ts_key(s[j]), spec_ts_key(m), ascending),
    ensures
        spec_insert_by_ts(s, m, ascending) == s.take(j) + seq![m] + s.skip(j),
    decreases j,
{
    if j == 0 {
        if s.len() == 0 {
            assert(spec_insert_by_ts(s, m, ascending) =~= s.take(0) + seq![m] + s.skip(0));
        } else {
            assert(spec_insert_by_ts(s, m, ascending) =~= s.take(0) + seq![m] + s.skip(0));
        }
    } else {
        assert(forall|t: int|
            0 <= t < s.len() - 1 ==> #[trigger] s.drop_first()[t] == s[t + 1]);
        lemma_insert_at(s.drop_first(), m, ascending, j - 1);
        assert(s.drop_first().take(j - 1) =~= s.take(j).drop_first());
        assert(s.drop_first().skip(j - 1) =~= s.skip(j));
        assert(spec_insert_by_ts(s, m, ascending) =~= s.take(j) + seq![m] + s.skip(j));
    }
}

fn ts_key_exec(m: &AgentResponse) -> (k: u64)
    ensures
        k == spec_ts_key(*m),
{
    match OutputParser::parse_timestamp(m.content.as_str()) {
        Some(t) => t,
        None => 0,
    }
}

fn key_le_exec(a: u64, b: u64, ascending: bool) -> (r: bool)
    ensures
        r == spec_key_le(a, b, ascending),
{
    if ascending {
        a <= b
    } else {
        a >= b
    }
}

/// The stable insertion point for a new key: past every entry whose key
/// may stay before it. `sorted` carries the originals the copies in `r`
/// stand for; matching copies share their content, so their keys agree.
fn stable_insert_point(
    r: &Vec<AgentResponse>,
    key_m: u64,
    ascending: bool,
    Ghost(sorted): Ghost<Seq<AgentResponse>>,
) -> (j: usize)
    requires
        resps_match(sorted, r@),
    ensures
        j <= sorted.len(),
        forall|t: int|
            0 <= t < j ==> spec_key_le(spec_ts_key(#[trigger] sorted[t]), key_m, ascending),
        j < sorted.len() ==> !spec_key_le(spec_ts_key(sorted[j as int]), key_m, ascending),
{
    let n = r.len();
    let mut j: usize = 0;
    while j < n
        invariant
            n == r@.len(),
            resps_match(sorted, r@),
            j <= n,
            forall|t: int|
                0 <= t < j ==> spec_key_le(spec_ts_key(#[trigger] sorted[t]), key_m, ascending),
        decreases n - j,
    {
        let key_j = ts_key_exec(&r[j]);
        proof {
            assert(resp_matches(sorted[j as int], r@[j as int]));
            assert(spec_ts_key(r@[j as int]) == spec_ts_key(sorted[j as int]));
        }
        if !key_le_exec(key_j, key_m, ascending) {
            return j;
        }
        j = j + 1;
    }
    j
}

// ---------------------------------------------------------------------------
// Deduplication
// ---------------------------------------------------------------------------

/// The identity a response is deduplicated by: its kind, success flag and
/// content length.
pub open spec fn spec_msg_key(m: AgentResponse) -> (MessageType, bool, int) {
    (m.message_type, m.success, m.content@.len() as int)
}

/// The keys of a list of responses.
pub open spec fn spec_msg_keys(ms: Seq<AgentResponse>) -> Seq<(MessageType, bool, int)> {
    ms.map_values(|m: AgentResponse| spec_msg_key(m))
}

/// `ms` with every response dropped whose key an earlier response already
/// carried.
pub open spec fn spec_dedup_msgs(ms: Seq<AgentResponse>) -> Seq<AgentResponse>
    decreases ms.len(),
{
    if ms.len() == 0 {
        Seq::empty()
    } else {
        let rest = spec_dedup_msgs(ms.drop_last());
        if spec_msg_keys(ms.drop_last()).contains(spec_msg_key(ms.last())) {
            rest
        } else {
            rest.push(ms.last())
        }
    }
}

fn has_earlier_same_key(ms: &Vec<AgentResponse>, i: usize) -> (b: bool)
    requires
        i < ms@.len(),
    ensures
        b == spec_msg_keys(ms@.take(i as int)).contains(spec_msg_key(ms@[i as int])),
{
    let here_len = chars_of(ms[i].content.as_str()).len();
    let mut j: usize = 0;
    while j < i
        invariant
            i < ms@.len(),
            here_len == ms@[i as int].content@.len(),
            j <= i,
            forall|t: int|
                0 <= t < j ==> spec_msg_key(#[trigger] ms@[t]) != spec_msg_key(ms@[i as int]),
        decreases i - j,
    {
        let same = ms[j].message_type == ms[i].message_type && ms[j].success == ms[i].success
            && chars_of(ms[j].content.as_str()).len() == here_len;
        if same {
            proof {
                assert(spec_msg_keys(ms@.take(i as int))[j as int] == spec_msg_key(ms@[j as int]));
            }
            return true;
        }
        j = j + 1;
    }
    proof {
        if spec_msg_keys(ms@.take(i as int)).contains(spec_msg_key(ms@[i as int])) {
            let k = choose|k: int|
                0 <= k < spec_msg_keys(ms@.take(i as int)).len() && spec_msg_keys(
                    ms@.take(i as int),
                )[k] == spec_msg_key(ms@[i as int]);
            assert(spec_msg_keys(ms@.take(i as int))[k] == spec_msg_key(ms@[k]));
            assert(false);
        }
    }
    false
}

proof fn lemma_count_type_take_step(ms: Seq<AgentResponse>, i: int, t: MessageType)
    requires
        0 <= i < ms.len(),
    ensures
        spec_count_type(ms.take(i + 1), t) == spec_count_type(ms.take(i), t) + (if ms[
            i].message_type == t {
            1nat
        } else {
            0nat
        }),
    decreases i,
{
    if i == 0 {
        assert(ms.take(1).drop_first() =~= ms.take(0));
        assert(ms.take(1)[0] == ms[0]);
    } else {
        lemma_count_type_take_step(ms.drop_first(), i - 1, t);
        assert(ms.take(i + 1).drop_first() =~= ms.drop_first().take(i));
        assert(ms.take(i).drop_first() =~= ms.drop_first().take(i - 1));
        assert(ms.drop_first()[i - 1] == ms[i]);
        assert(ms.take(i + 1)[0] == ms[0]);
        assert(ms.take(i)[0] == ms[0]);
    }
}

} // verus!
