//! Reading agent session output: the data shapes, the endpoints, and the
//! limit applied to fetched message lists. The HTTP transport is the
//! caller's concern.

use vstd::prelude::*;

use crate::text::{chars_of, spec_trim_end_matches_char, string_of, trim_end_matches_char};

verus! {

/// One tool call within a session message; its input is carried as the
/// raw JSON text the agent sent.
#[derive(Debug, Clone)]
pub struct ToolCall {
    pub tool: String,
    pub input: String,
}

/// One message of an agent session, with its tool calls.
#[derive(Debug, Clone)]
pub struct OpenCodeMessage {
    pub id: String,
    pub session_id: String,
    pub role: String,
    pub content: String,
    pub timestamp: String,
    pub tool_calls: Vec<ToolCall>,
}

/// A session's output: its messages and last activity.
#[derive(Debug, Clone)]
pub struct SessionOutput {
    pub session_id: String,
    pub messages: Vec<OpenCodeMessage>,
    pub last_activity: String,
}

/// Fetches and shapes session output from an agent server.
pub struct OpenCodeReader {
    pub server_url: String,
}

impl OpenCodeReader {
    /// A reader for the given server.
    pub fn new(server_url: String) -> (r: OpenCodeReader)
        ensures
            r.server_url == server_url,
    {
        OpenCodeReader { server_url }
    }

    /// The endpoint that lists a session's messages:
    /// `GET /session/{id}/messages`.
    pub fn messages_url(&self, session_id: &str) -> (r: String)
        ensures
            r@ == spec_trim_end_matches_char(self.server_url@, '/') + "/session/"@ + session_id@
                + "/messages"@,
    {
        let mut v = trim_end_matches_char(chars_of(self.server_url.as_str()), '/');
        crate::text::append_str(&mut v, "/session/");
        crate::text::append_str(&mut v, session_id);
        crate::text::append_str(&mut v, "/messages");
        string_of(&v)
    }

    /// The endpoint that summarises a session: `GET /session/{id}`.
    pub fn session_url(&self, session_id: &str) -> (r: String)
        ensures
            r@ == spec_trim_end_matches_char(self.server_url@, '/') + "/session/"@ + session_id@,
    {
        let mut v = trim_end_matches_char(chars_of(self.server_url.as_str()), '/');
        crate::text::append_str(&mut v, "/session/");
        crate::text::append_str(&mut v, session_id);
        string_of(&v)
    }

    /// Applies an optional limit to a fetched message list: with
    /// `Some(n)`, only the first `n` messages are kept.
    pub fn apply_limit(&self, messages: Vec<OpenCodeMessage>, limit: Option<usize>) -> (r: Vec<
        OpenCodeMessage,
    >)
        ensures
            limit is None ==> r@ == messages@,
            limit matches Some(n) ==> r@ == (if messages@.len() <= n {
                messages@
            } else {
                messages@.take(n as int)
            }),
    {
        match limit {
            None => messages,
            Some(n) => {
                let mut ms = messages;
                if ms.len() <= n {
                    return ms;
                }
                proof {
                    assert(ms@.take(ms@.len() as int) =~= messages@);
                }
                while ms.len() > n
                    invariant
                        n < messages@.len(),
                        n <= ms@.len(),
                        ms@.len() <= messages@.len(),
                        ms@ == messages@.take(ms@.len() as int),
                    decreases ms@.len(),
                {
                    let ghost prev = ms@;
                    ms.pop();
                    proof {
                        assert(ms@ == prev.drop_last());
                        assert(prev == messages@.take(prev.len() as int));
                        assert(prev.drop_last() =~= prev.take(prev.len() - 1));
                        assert(messages@.take(prev.len() as int).take(prev.len() - 1)
                            =~= messages@.take(prev.len() - 1));
                        assert(prev.take(prev.len() - 1) == messages@.take(
                            prev.len() as int,
                        ).take(prev.len() - 1));
                        assert(ms@ == messages@.take(ms@.len() as int));
                    }
                }
                ms
            },
        }
    }
}

} // verus!
