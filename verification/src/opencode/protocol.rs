//! The line protocol spoken with the agent: typed responses and the
//! classifier that derives them from raw output text.

use vstd::prelude::*;

use crate::error::TmuxError;
use crate::text::{
    chars_of, concat2, contains_lit, contains_seq, join_chars, replace_lit, spec_join, spec_lines,
    spec_replace, spec_tokens, spec_trim, spec_trim_start_matches, spec_u64_digits, split_lines,
    starts_with, starts_with_lit, string_of, take_prefix, tokens_of, trim_chars,
    trim_start_matches_chars, u64_string, views_of,
};
use crate::types::{Command, CommandTarget, PaneId};
use vstd::string::StringSliceAdditionalSpecFns;

verus! {

/// The kind of a classified agent response.
#[derive(Debug, Clone, Copy, PartialEq, Eq, Structural)]
pub enum MessageType {
    Message,
    ToolCall,
    Error,
    Completion,
}

/// One tool invocation found in agent output: a tool name and its named
/// arguments, in the order they were read.
#[derive(Debug, Clone)]
pub struct ToolCall {
    pub tool_name: String,
    pub arguments: Vec<(String, String)>,
}

/// The views of an argument list.
pub open spec fn arg_pair_views(args: Seq<(String, String)>) -> Seq<(Seq<char>, Seq<char>)> {
    args.map_values(|p: (String, String)| (p.0@, p.1@))
}

/// The last binding of `key` in `args`, if any: a later binding of the same
/// key shadows an earlier one.
pub open spec fn spec_lookup_arg(args: Seq<(Seq<char>, Seq<char>)>, key: Seq<char>) -> Option<
    Seq<char>,
>
    decreases args.len(),
{
    if args.len() == 0 {
        None
    } else if args[args.len() - 1].0 == key {
        Some(args[args.len() - 1].1)
    } else {
        spec_lookup_arg(args.drop_last(), key)
    }
}

impl ToolCall {
    /// The value bound to `key`, the last binding winning.
    pub fn argument(&self, key: &str) -> (r: Option<String>)
        ensures
            (match spec_lookup_arg(arg_pair_views(self.arguments@), key@) {
                Some(v) => r matches Some(s) && s@ == v,
                None => r is None,
            }),
        decreases self.arguments@.len(),
    {
        let keyv = chars_of(key);
        let mut i = self.arguments.len();
        proof {
            assert(arg_pair_views(self.arguments@).take(self.arguments@.len() as int)
                =~= arg_pair_views(self.arguments@));
        }
        while i > 0
            invariant
                keyv@ == key@,
                i <= self.arguments@.len(),
                spec_lookup_arg(arg_pair_views(self.arguments@), key@) == spec_lookup_arg(
                    arg_pair_views(self.arguments@).take(i as int),
                    key@,
                ),
            decreases i,
        {
            i = i - 1;
            let ghost pref = arg_pair_views(self.arguments@).take(i + 1);
            assert(pref.drop_last() =~= arg_pair_views(self.arguments@).take(i as int));
            if crate::text::eq_lit(&chars_of(self.arguments[i].0.as_str()), key) {
                assert(pref[pref.len() - 1].0 == key@);
                return Some(self.arguments[i].1.clone());
            }
        }
        assert(arg_pair_views(self.arguments@).take(0) =~= Seq::<(Seq<char>, Seq<char>)>::empty());
        None
    }
}

/// A classified agent response.
#[derive(Debug, Clone)]
pub struct AgentResponse {
    pub success: bool,
    pub message_type: MessageType,
    pub content: String,
    pub tool_calls: Vec<ToolCall>,
    pub error: Option<String>,
}

/// A protocol turns structured commands into text and raw agent output into
/// classified responses.
pub trait Protocol {
    fn format_command(&self, command: &Command) -> String;

    fn parse_response(&self, output: &str) -> Result<AgentResponse, TmuxError>;
}

/// The concrete text protocol this crate speaks.
#[derive(Debug, Clone)]
pub struct OpenCodeProtocol;

// ---------------------------------------------------------------------------
// Specification of the protocol classifier
// ---------------------------------------------------------------------------

/// The tool invocation a single line yields: the text after a
/// `Running: ` prefix, split into the tool name (its first token) and the
/// raw arguments (the rest, leading copies of the name and surrounding
/// whitespace removed). A line without the prefix, or with nothing after
/// it, yields none.
pub open spec fn spec_running_call(l: Seq<char>) -> Option<(Seq<char>, Seq<char>)> {
    if starts_with(l, "Running: "@) {
        let rest = l.skip("Running: "@.len() as int);
        let toks = spec_tokens(rest);
        if toks.len() == 0 {
            None
        } else {
            Some((toks[0], spec_trim(spec_trim_start_matches(rest, toks[0]))))
        }
    } else {
        None
    }
}

/// The tool invocations of all lines, in line order.
pub open spec fn spec_running_calls(lines: Seq<Seq<char>>) -> Seq<(Seq<char>, Seq<char>)>
    decreases lines.len(),
{
    if lines.len() == 0 {
        Seq::empty()
    } else {
        let rest = spec_running_calls(lines.drop_first());
        match spec_running_call(lines[0]) {
            Some(c) => seq![c] + rest,
            None => rest,
        }
    }
}

/// `t` is the tool call the pair describes, with the raw arguments under
/// the single key `raw_args`.
pub open spec fn running_call_matches(m: (Seq<char>, Seq<char>), t: ToolCall) -> bool {
    &&& t.tool_name@ == m.0
    &&& arg_pair_views(t.arguments@) == seq![("raw_args"@, m.1)]
}

pub open spec fn running_calls_match(ms: Seq<(Seq<char>, Seq<char>)>, ts: Seq<ToolCall>) -> bool {
    ts.len() == ms.len() && forall|i: int|
        0 <= i < ms.len() ==> running_call_matches(ms[i], #[trigger] ts[i])
}

/// A line is kept in the content of a tool-call response when it is neither
/// a `Running: ` line nor tag-like.
pub open spec fn spec_is_content_line(l: Seq<char>) -> bool {
    !starts_with(l, "Running: "@) && !starts_with(l, "<"@)
}

/// The lines of `lines` that `spec_is_content_line` keeps, in order.
pub open spec fn spec_content_lines(lines: Seq<Seq<char>>) -> Seq<Seq<char>>
    decreases lines.len(),
{
    if lines.len() == 0 {
        Seq::empty()
    } else {
        let rest = spec_content_lines(lines.drop_first());
        if spec_is_content_line(lines[0]) {
            seq![lines[0]] + rest
        } else {
            rest
        }
    }
}

/// The surrounding content of agent output: its non-command, non-tag lines,
/// joined and trimmed.
pub open spec fn spec_protocol_content(s: Seq<char>) -> Seq<char> {
    spec_trim(spec_join(spec_content_lines(spec_lines(s)), '\n'))
}

/// The content of an error response: the output with the error tags
/// removed and surrounding whitespace trimmed.
pub open spec fn spec_error_content(s: Seq<char>) -> Seq<char> {
    spec_trim(spec_replace(spec_replace(s, "<error>"@, Seq::empty()), "</error>"@, Seq::empty()))
}

/// Exactly what the protocol classifier returns for output `s`: an error
/// marker wins, then any tool invocation, then a completion marker, and a
/// plain message otherwise.
pub open spec fn protocol_response_matches(s: Seq<char>, r: AgentResponse) -> bool {
    if contains_seq(s, "<error>"@) {
        &&& !r.success
        &&& r.message_type is Error
        &&& r.content@ == spec_error_content(s)
        &&& r.tool_calls@.len() == 0
        &&& r.error matches Some(e) && e@ == s
    } else if spec_running_calls(spec_lines(s)).len() > 0 {
        &&& r.success
        &&& r.message_type is ToolCall
        &&& r.content@ == spec_protocol_content(s)
        &&& running_calls_match(spec_running_calls(spec_lines(s)), r.tool_calls@)
        &&& r.error is None
    } else if contains_seq(s, "<complete>"@) || contains_seq(s, "I'll complete this"@) {
        &&& r.success
        &&& r.message_type is Completion
        &&& r.content@ == spec_protocol_content(s)
        &&& r.tool_calls@.len() == 0
        &&& r.error is None
    } else {
        &&& r.success
        &&& r.message_type is Message
        &&& r.content@ == s
        &&& r.tool_calls@.len() == 0
        &&& r.error is None
    }
}

/// An error marker takes precedence: output holding both an error marker
/// and a tool-call marker is classified as an error, not a tool call.
pub proof fn lemma_protocol_error_precedence(s: Seq<char>, r: AgentResponse)
    requires
        contains_seq(s, "<error>"@),
        spec_running_calls(spec_lines(s)).len() > 0,
        protocol_response_matches(s, r),
    ensures
        r.message_type is Error,
        !r.success,
{
}

// ---------------------------------------------------------------------------
// Implementation
// ---------------------------------------------------------------------------

fn running_calls_from(lines: &Vec<Vec<char>>, from: usize) -> (r: Vec<ToolCall>)
    requires
        from <= lines@.len(),
    ensures
        running_calls_match(spec_running_calls(views_of(lines@).skip(from as int)), r@),
    decreases lines@.len() - from,
{
    let ghost lv = views_of(lines@).skip(from as int);
    if from == lines.len() {
        let r: Vec<ToolCall> = Vec::new();
        assert(lv =~= Seq::<Seq<char>>::empty());
        return r;
    }
    let mut rest = running_calls_from(lines, from + 1);
    proof {
        assert(lv.drop_first() =~= views_of(lines@).skip(from + 1));
        assert(lv[0] == lines@[from as int]@);
    }
    let line = &lines[from];
    match crate::text::strip_prefix_lit(line, "Running: ") {
        None => {
            assert(spec_running_call(lv[0]) is None);
            rest
        },
        Some(after) => {
            let toks = tokens_of(crate::text::copy_chars(&after));
            if toks.len() == 0 {
                assert(spec_running_call(lv[0]) is None);
                rest
            } else {
                let name = &toks[0];
                let stripped = trim_start_matches_chars(crate::text::copy_chars(&after), name);
                let raw = trim_chars(stripped);
                let mut arguments: Vec<(String, String)> = Vec::new();
                arguments.push((String::from_str("raw_args"), string_of(&raw)));
                let call = ToolCall { tool_name: string_of(name), arguments };
                let ghost m = spec_running_call(lv[0])->0;
                assert(running_call_matches(m, call)) by {
                    assert(views_of(toks@)[0] == spec_tokens(after@)[0]);
                    assert(arg_pair_views(call.arguments@) =~= seq![("raw_args"@, m.1)]);
                }
                let mut r: Vec<ToolCall> = Vec::new();
                r.push(call);
                r.append(&mut rest);
                proof {
                    let ms = spec_running_calls(lv);
                    assert(ms =~= seq![m] + spec_running_calls(lv.drop_first()));
                    assert forall|i: int| 0 <= i < ms.len() implies running_call_matches(
                        ms[i],
                        #[trigger] r@[i],
                    ) by {
                        if i > 0 {
                            assert(ms[i] == spec_running_calls(lv.drop_first())[i - 1]);
                        }
                    }
                }
                r
            }
        },
    }
}

fn content_lines_from(lines: &Vec<Vec<char>>, from: usize) -> (r: Vec<Vec<char>>)
    requires
        from <= lines@.len(),
    ensures
        views_of(r@) == spec_content_lines(views_of(lines@).skip(from as int)),
    decreases lines@.len() - from,
{
    let ghost lv = views_of(lines@).skip(from as int);
    if from == lines.len() {
        let r: Vec<Vec<char>> = Vec::new();
        assert(lv =~= Seq::<Seq<char>>::empty());
        assert(views_of(r@) =~= spec_content_lines(lv));
        return r;
    }
    let mut rest = content_lines_from(lines, from + 1);
    proof {
        assert(lv.drop_first() =~= views_of(lines@).skip(from + 1));
        assert(lv[0] == lines@[from as int]@);
    }
    let line = &lines[from];
    let keep = !starts_with_lit(line, "Running: ") && !starts_with_lit(line, "<");
    if keep {
        let mut r: Vec<Vec<char>> = Vec::new();
        r.push(crate::text::copy_chars(line));
        r.append(&mut rest);
        assert(views_of(r@) =~= spec_content_lines(lv));
        r
    } else {
        assert(views_of(rest@) =~= spec_content_lines(lv));
        rest
    }
}

/// The non-command, non-tag content of agent output.
fn protocol_content(output: &str) -> (r: String)
    ensures
        r@ == spec_protocol_content(output@),
{
    let lines = split_lines(chars_of(output));
    let kept = content_lines_from(&lines, 0);
    assert(views_of(lines@).skip(0) =~= spec_lines(output@));
    let joined = join_chars(&kept, '\n');
    string_of(&trim_chars(joined))
}

/// Classifies raw agent output by the protocol's markers.
fn classify_response(output: &str) -> (r: AgentResponse)
    ensures
        protocol_response_matches(output@, r),
{
    let chars = chars_of(output);
    if contains_lit(&chars, "<error>") {
        let stripped = replace_lit(&replace_lit(&chars, "<error>", ""), "</error>", "");
        proof {
            reveal_strlit("");
            assert(""@ =~= Seq::<char>::empty());
        }
        return AgentResponse {
            success: false,
            message_type: MessageType::Error,
            content: string_of(&trim_chars(stripped)),
            tool_calls: Vec::new(),
            error: Some(String::from_str(output)),
        };
    }
    let lines = split_lines(crate::text::copy_chars(&chars));
    assert(views_of(lines@) == spec_lines(output@));
    let tool_calls = running_calls_from(&lines, 0);
    assert(views_of(lines@).skip(0) =~= spec_lines(output@));
    if tool_calls.len() > 0 {
        return AgentResponse {
            success: true,
            message_type: MessageType::ToolCall,
            content: protocol_content(output),
            tool_calls,
            error: None,
        };
    }
    if contains_lit(&chars, "<complete>") || contains_lit(&chars, "I'll complete this") {
        return AgentResponse {
            success: true,
            message_type: MessageType::Completion,
            content: protocol_content(output),
            tool_calls,
            error: None,
        };
    }
    AgentResponse {
        success: true,
        message_type: MessageType::Message,
        content: String::from_str(output),
        tool_calls,
        error: None,
    }
}

/// The single-line rendering of a command: the verb, a `-t <target>` pair
/// for a targeted command, then the arguments joined by single spaces,
/// separated from the rest by one space even when empty.
pub open spec fn spec_format_command(cmd: Command) -> Seq<char> {
    let joined = spec_join(crate::tmux::cli::arg_views(cmd.args@), ' ');
    match cmd.target {
        CommandTarget::Server => cmd.command@ + " "@ + joined,
        CommandTarget::Session(sid) => cmd.command@ + " -t "@ + sid.0@ + " "@ + joined,
        CommandTarget::Window(wid) => cmd.command@ + " -t "@ + wid.0@ + " "@ + joined,
        CommandTarget::Pane(pid) => cmd.command@ + " -t "@ + pid.0@ + " "@ + joined,
    }
}

fn format_command_text(cmd: &Command) -> (r: String)
    ensures
        r@ == spec_format_command(*cmd),
{
    let mut v: Vec<char> = Vec::new();
    crate::text::append_str(&mut v, cmd.command.as_str());
    match &cmd.target {
        CommandTarget::Server => {
            crate::text::append_str(&mut v, " ");
        },
        CommandTarget::Session(sid) => {
            crate::text::append_str(&mut v, " -t ");
            crate::text::append_str(&mut v, sid.0.as_str());
            crate::text::append_str(&mut v, " ");
        },
        CommandTarget::Window(wid) => {
            crate::text::append_str(&mut v, " -t ");
            crate::text::append_str(&mut v, wid.0.as_str());
            crate::text::append_str(&mut v, " ");
        },
        CommandTarget::Pane(pid) => {
            crate::text::append_str(&mut v, " -t ");
            crate::text::append_str(&mut v, pid.0.as_str());
            crate::text::append_str(&mut v, " ");
        },
    }
    let mut args_chars: Vec<Vec<char>> = Vec::new();
    let n = cmd.args.len();
    let mut i: usize = 0;
    while i < n
        invariant
            n == cmd.args@.len(),
            i <= n,
            args_chars@.len() == i,
            forall|k: int| 0 <= k < i ==> (#[trigger] args_chars@[k])@ == cmd.args@[k]@,
        decreases n - i,
    {
        args_chars.push(chars_of(cmd.args[i].as_str()));
        i = i + 1;
    }
    assert(views_of(args_chars@) =~~= crate::tmux::cli::arg_views(cmd.args@)) by {
        assert forall|k: int| 0 <= k < args_chars@.len() implies views_of(args_chars@)[k]
            == crate::tmux::cli::arg_views(cmd.args@)[k] by {
            assert(views_of(args_chars@)[k] == args_chars@[k]@);
            assert(crate::tmux::cli::arg_views(cmd.args@)[k] == cmd.args@[k]@);
        }
    }
    let joined = join_chars(&args_chars, ' ');
    crate::text::append_chars(&mut v, &joined);
    string_of(&v)
}

impl OpenCodeProtocol {
    /// A fresh protocol value.
    pub fn new() -> (r: OpenCodeProtocol) {
        OpenCodeProtocol
    }

    /// Renders a structured command as one line of text.
    pub fn format_command(&self, command: &Command) -> (r: String)
        ensures
            r@ == spec_format_command(*command),
    {
        format_command_text(command)
    }

    /// Classifies raw agent output: an error marker wins, then a tool
    /// invocation, then a completion marker; anything else is a plain
    /// message.
    pub fn parse_response(&self, output: &str) -> (r: Result<AgentResponse, TmuxError>)
        ensures
            r matches Ok(resp) && protocol_response_matches(output@, resp),
    {
        Ok(classify_response(output))
    }

    /// The command that types `prompt` into pane `pane_id` and submits it.
    pub fn format_agent_command(&self, prompt: &str, pane_id: &PaneId) -> (c: Command)
        ensures
            c.command@ == "send-keys"@,
            c.target matches CommandTarget::Pane(p) && p.0@ == pane_id.0@,
            crate::tmux::cli::arg_views(c.args@) == seq![prompt@, "Enter"@],
    {
        let mut args: Vec<String> = Vec::new();
        args.push(String::from_str(prompt));
        args.push(String::from_str("Enter"));
        assert(crate::tmux::cli::arg_views(args@) =~= seq![prompt@, "Enter"@]);
        Command {
            command: String::from_str("send-keys"),
            target: CommandTarget::Pane(PaneId(pane_id.0.clone())),
            args,
        }
    }

    /// The display line announcing a file read.
    pub fn format_file_read_command(&self, path: &str) -> (r: String)
        ensures
            r@ == "Reading file: "@ + path@,
    {
        concat2("Reading file: ", path)
    }

    /// The display lines announcing an edit, old and new text each cut to
    /// their first fifty characters.
    pub fn format_edit_command(&self, path: &str, old_text: &str, new_text: &str) -> (r: String)
        ensures
            r@ == "Editing file: "@ + path@ + "\nReplace: "@ + (if old_text@.len() <= 50 {
                old_text@
            } else {
                old_text@.take(50)
            }) + "\nWith: "@ + (if new_text@.len() <= 50 {
                new_text@
            } else {
                new_text@.take(50)
            }),
    {
        let mut v: Vec<char> = Vec::new();
        crate::text::append_str(&mut v, "Editing file: ");
        crate::text::append_str(&mut v, path);
        crate::text::append_str(&mut v, "\nReplace: ");
        let old_cut = take_prefix(&chars_of(old_text), 50);
        crate::text::append_chars(&mut v, &old_cut);
        crate::text::append_str(&mut v, "\nWith: ");
        let new_cut = take_prefix(&chars_of(new_text), 50);
        crate::text::append_chars(&mut v, &new_cut);
        string_of(&v)
    }

    /// The display line announcing a file write with its size in bytes.
    pub fn format_write_command(&self, path: &str, content: &str) -> (r: String)
        ensures
            r@ == "Writing file: "@ + path@ + " ("@ + spec_u64_digits(
                (content.spec_bytes().len() as usize) as nat,
            ) + " bytes)"@,
    {
        let mut v: Vec<char> = Vec::new();
        crate::text::append_str(&mut v, "Writing file: ");
        crate::text::append_str(&mut v, path);
        crate::text::append_str(&mut v, " (");
        let len_str = u64_string(content.len() as u64);
        crate::text::append_str(&mut v, len_str.as_str());
        crate::text::append_str(&mut v, " bytes)");
        string_of(&v)
    }
}

impl Protocol for OpenCodeProtocol {
    fn format_command(&self, command: &Command) -> String {
        format_command_text(command)
    }

    fn parse_response(&self, output: &str) -> Result<AgentResponse, TmuxError> {
        Ok(classify_response(output))
    }
}

} // verus!
