//! Building multiplexer command lines and classifying what they print.
//!
//! The functions here are the computing half of the control client: they turn
//! a structured [`Command`] into the exact argument vector to hand to the
//! multiplexer binary, and they turn the captured exit status, stdout and
//! stderr of a finished run back into a classified [`Response`] or
//! [`TmuxError`]. Running the subprocess itself is the caller's concern.

use vstd::prelude::*;

use crate::error::TmuxError;
use crate::text::{chars_of, contains_lit, contains_seq, string_of};
use crate::types::{Command, CommandTarget, Response, ResponseData};

verus! {

/// The views of a vector of argument strings.
pub open spec fn arg_views(args: Seq<String>) -> Seq<Seq<char>> {
    args.map_values(|s: String| s@)
}

/// A command line under construction: optional server name, verb and target
/// selector, then trailing arguments.
pub struct TmuxCommand {
    pub args: Vec<String>,
    pub server: Option<String>,
    pub session: Option<String>,
    pub command: Option<String>,
}

/// The argument vector that `build_args` produces for `t`.
pub open spec fn spec_build_args(t: TmuxCommand) -> Seq<Seq<char>> {
    let server_part = match t.server {
        Some(s) => seq!["-L"@, s@],
        None => Seq::empty(),
    };
    let command_part = match t.command {
        Some(c) => seq![c@],
        None => Seq::empty(),
    };
    let session_part = match t.session {
        Some(s) => seq!["-t"@, s@],
        None => Seq::empty(),
    };
    server_part + command_part + session_part + arg_views(t.args@)
}

impl TmuxCommand {
    /// An empty command line.
    pub fn new() -> (r: TmuxCommand)
        ensures
            r.args@.len() == 0,
            r.server is None,
            r.session is None,
            r.command is None,
    {
        TmuxCommand { args: Vec::new(), server: None, session: None, command: None }
    }

    /// Appends one trailing argument.
    pub fn arg(self, arg: String) -> (r: TmuxCommand)
        ensures
            r.args@ == self.args@.push(arg),
            r.server == self.server,
            r.session == self.session,
            r.command == self.command,
    {
        let TmuxCommand { mut args, server, session, command } = self;
        args.push(arg);
        TmuxCommand { args, server, session, command }
    }

    /// Appends several trailing arguments.
    pub fn args(self, more: Vec<String>) -> (r: TmuxCommand)
        ensures
            r.args@ == self.args@ + more@,
            r.server == self.server,
            r.session == self.session,
            r.command == self.command,
    {
        let TmuxCommand { mut args, server, session, command } = self;
        let n = more.len();
        let mut i: usize = 0;
        while i < n
            invariant
                n == more@.len(),
                i <= n,
                args@ =~= self.args@ + more@.take(i as int),
            decreases n - i,
        {
            args.push(more[i].clone());
            i = i + 1;
            assert(args@ =~= self.args@ + more@.take(i as int));
        }
        assert(args@ =~= self.args@ + more@);
        TmuxCommand { args, server, session, command }
    }

    /// Names the multiplexer server to address.
    pub fn server(self, server: String) -> (r: TmuxCommand)
        ensures
            r.server matches Some(s) && s == server,
            r.args == self.args,
            r.session == self.session,
            r.command == self.command,
    {
        TmuxCommand { server: Some(server), ..self }
    }

    /// Names the session to address with a `-t` selector.
    pub fn session(self, session: String) -> (r: TmuxCommand)
        ensures
            r.session matches Some(s) && s == session,
            r.args == self.args,
            r.server == self.server,
            r.command == self.command,
    {
        TmuxCommand { session: Some(session), ..self }
    }

    /// Sets the verb.
    pub fn command(self, command: String) -> (r: TmuxCommand)
        ensures
            r.command matches Some(c) && c == command,
            r.args == self.args,
            r.server == self.server,
            r.session == self.session,
    {
        TmuxCommand { command: Some(command), ..self }
    }

    /// The full argument vector: `-L <server>` if a server is named, the
    /// verb, `-t <session>` if a session is named, then the trailing
    /// arguments.
    pub fn build_args(&self) -> (r: Vec<String>)
        ensures
            arg_views(r@) == spec_build_args(*self),
    {
        let mut r: Vec<String> = Vec::new();
        match &self.server {
            Some(server) => {
                r.push(String::from_str("-L"));
                r.push(server.clone());
            },
            None => {},
        }
        match &self.command {
            Some(command) => {
                r.push(command.clone());
            },
            None => {},
        }
        match &self.session {
            Some(session) => {
                r.push(String::from_str("-t"));
                r.push(session.clone());
            },
            None => {},
        }
        let ghost prefix = r@;
        let n = self.args.len();
        let mut i: usize = 0;
        while i < n
            invariant
                n == self.args@.len(),
                i <= n,
                r@ =~= prefix + self.args@.take(i as int),
            decreases n - i,
        {
            r.push(self.args[i].clone());
            i = i + 1;
            assert(r@ =~= prefix + self.args@.take(i as int));
        }
        assert(r@ =~= prefix + self.args@);
        assert(arg_views(r@) =~= spec_build_args(*self));
        r
    }
}

/// The argument vector for a structured `Command`: the verb, a `-t` selector
/// derived from the target, then the verb-specific arguments.
pub open spec fn spec_command_argv(cmd: Command) -> Seq<Seq<char>> {
    match cmd.target {
        CommandTarget::Server => seq![cmd.command@] + arg_views(cmd.args@),
        CommandTarget::Session(sid) => seq![cmd.command@, "-t"@, sid.0@] + arg_views(cmd.args@),
        CommandTarget::Window(wid) => seq![cmd.command@, "-t"@ + wid.0@] + arg_views(cmd.args@),
        CommandTarget::Pane(pid) => seq![cmd.command@, "-t"@ + pid.0@] + arg_views(cmd.args@),
    }
}

/// Builds the command line for `cmd`. A session target uses a separate
/// `-t <id>` pair; window and pane targets use a fused `-t<id>` argument.
pub fn command_for(cmd: &Command) -> (t: TmuxCommand)
    ensures
        spec_build_args(t) == spec_command_argv(*cmd),
{
    let t = match &cmd.target {
        CommandTarget::Server => TmuxCommand::new().command(cmd.command.clone()).args(
            cmd.args.clone(),
        ),
        CommandTarget::Session(session_id) => TmuxCommand::new().command(
            cmd.command.clone(),
        ).session(session_id.0.clone()).args(cmd.args.clone()),
        CommandTarget::Window(window_id) => {
            let mut sel: Vec<char> = Vec::new();
            crate::text::append_str(&mut sel, "-t");
            crate::text::append_str(&mut sel, window_id.0.as_str());
            TmuxCommand::new().command(cmd.command.clone()).arg(string_of(&sel)).args(
                cmd.args.clone(),
            )
        },
        CommandTarget::Pane(pane_id) => {
            let mut sel: Vec<char> = Vec::new();
            crate::text::append_str(&mut sel, "-t");
            crate::text::append_str(&mut sel, pane_id.0.as_str());
            TmuxCommand::new().command(cmd.command.clone()).arg(string_of(&sel)).args(
                cmd.args.clone(),
            )
        },
    };
    proof {
        let cloned = cmd.args@;
        assert(spec_build_args(t) =~= spec_command_argv(*cmd));
    }
    t
}

/// The text a failed run is classified by: stderr, or stdout where stderr is
/// empty.
pub open spec fn spec_error_text(stdout: Seq<char>, stderr: Seq<char>) -> Seq<char> {
    if stderr.len() == 0 {
        stdout
    } else {
        stderr
    }
}

/// The message names an absent entity.
pub open spec fn spec_is_not_found(m: Seq<char>) -> bool {
    contains_seq(m, "not found"@) || contains_seq(m, "no such"@)
}

/// The message names an unreachable server.
pub open spec fn spec_is_not_connected(m: Seq<char>) -> bool {
    contains_seq(m, "not connected"@) || contains_seq(m, "no server running"@)
}

/// Exactly what `classify_output` returns for a finished run with exit
/// status `exit_success` and captured output views `stdout` and `stderr`.
pub open spec fn spec_classified(
    exit_success: bool,
    stdout: Seq<char>,
    stderr: Seq<char>,
    r: Result<Response, TmuxError>,
) -> bool {
    if exit_success {
        &&& r matches Ok(resp)
        &&& resp.success
        &&& resp.error is None
        &&& if stdout.len() == 0 {
            resp.data is Empty
        } else {
            resp.data matches ResponseData::Output(o) && o@ == stdout
        }
    } else {
        let m = spec_error_text(stdout, stderr);
        &&& r matches Err(e)
        &&& if spec_is_not_found(m) {
            e matches TmuxError::NotFound(t) && t@ == m
        } else if spec_is_not_connected(m) {
            e is NotConnected
        } else {
            e matches TmuxError::Command(t) && t@ == m
        }
    }
}

/// Classifies the outcome of a finished multiplexer run.
///
/// A zero exit status yields a successful `Response` carrying the raw stdout
/// (`Empty` when stdout is empty). A non-zero exit status is classified by
/// substring matching on stderr (or stdout when stderr is empty): an entity
/// that is absent, a server that is unreachable, or a generic command error
/// carrying the raw message. The substring table is a best-effort contract;
/// the multiplexer has no structured error channel.
pub fn classify_output(exit_success: bool, stdout: String, stderr: String) -> (r: Result<
    Response,
    TmuxError,
>)
    ensures
        spec_classified(exit_success, stdout@, stderr@, r),
{
    if exit_success {
        if stdout.as_str().is_empty() {
            Ok(Response { success: true, data: ResponseData::Empty, error: None })
        } else {
            Ok(Response { success: true, data: ResponseData::Output(stdout), error: None })
        }
    } else {
        let msg = if stderr.as_str().is_empty() {
            stdout
        } else {
            stderr
        };
        let m = chars_of(msg.as_str());
        if contains_lit(&m, "not found") || contains_lit(&m, "no such") {
            Err(TmuxError::NotFound(msg))
        } else if contains_lit(&m, "not connected") || contains_lit(&m, "no server running") {
            Err(TmuxError::NotConnected)
        } else {
            Err(TmuxError::Command(msg))
        }
    }
}

/// Classification is pure: two runs with the same observable exit status,
/// stdout and stderr are classified the same way.
pub proof fn lemma_classification_pure(
    exit_success: bool,
    stdout: Seq<char>,
    stderr: Seq<char>,
    r1: Result<Response, TmuxError>,
    r2: Result<Response, TmuxError>,
)
    requires
        spec_classified(exit_success, stdout, stderr, r1),
        spec_classified(exit_success, stdout, stderr, r2),
    ensures
        r1 is Ok <==> r2 is Ok,
        r1 matches Ok(a) ==> (r2 matches Ok(b) && a.success == b.success && (a.data is Empty
            <==> b.data is Empty) && (a.data matches ResponseData::Output(oa) ==> (
        b.data matches ResponseData::Output(ob) && oa@ == ob@))),
        r1 matches Err(ea) ==> (r2 matches Err(eb) && (ea is NotConnected <==> eb is NotConnected)
            && (ea matches TmuxError::NotFound(ta) ==> (eb matches TmuxError::NotFound(tb) && ta@
            == tb@)) && (ea matches TmuxError::Command(ta) ==> (
        eb matches TmuxError::Command(tb) && ta@ == tb@))),
{
}

/// The raw text of a response: the payload of `Output`, empty otherwise.
pub fn output_text(data: &ResponseData) -> (r: String)
    ensures
        data matches ResponseData::Output(o) ==> r@ == o@,
        !(data matches ResponseData::Output(o)) ==> r@ == Seq::<char>::empty(),
{
    match data {
        ResponseData::Output(o) => o.clone(),
        _ => String::new(),
    }
}

} // verus!
