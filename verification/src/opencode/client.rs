//! The agent's session API: its data shapes and the exact URLs of its
//! endpoints. The HTTP transport itself is the caller's concern; it hands
//! the decoded bodies back as these plain values.

use vstd::prelude::*;

use crate::text::{chars_of, spec_trim_end_matches_char, string_of, trim_end_matches_char};

verus! {

/// One session as the agent reports it.
#[derive(Debug, Clone)]
pub struct SessionInfo {
    pub id: String,
    pub name: String,
    pub created_at: String,
    pub updated_at: String,
}

/// The status of one agent session.
#[derive(Debug, Clone)]
pub struct SessionStatus {
    pub session_id: String,
    pub status: String,
    pub message_count: usize,
}

/// One message of an agent session.
#[derive(Debug, Clone)]
pub struct SessionMessage {
    pub id: String,
    pub session_id: String,
    pub role: String,
    pub content: String,
    pub timestamp: String,
}

/// A server URL with trailing slashes removed, then `suffix`.
pub open spec fn spec_endpoint(server_url: Seq<char>, suffix: Seq<char>) -> Seq<char> {
    spec_trim_end_matches_char(server_url, '/') + suffix
}

fn endpoint3(server_url: &str, before: &str, session_id: &str, after: &str) -> (r: String)
    ensures
        r@ == spec_trim_end_matches_char(server_url@, '/') + before@ + session_id@ + after@,
{
    let mut v = trim_end_matches_char(chars_of(server_url), '/');
    crate::text::append_str(&mut v, before);
    crate::text::append_str(&mut v, session_id);
    crate::text::append_str(&mut v, after);
    string_of(&v)
}

/// The endpoint that accepts a prompt for a session:
/// `POST /session/{id}/prompt`.
pub fn session_prompt_url(server_url: &str, session_id: &str) -> (r: String)
    ensures
        r@ == spec_endpoint(server_url@, "/session/"@ + session_id@ + "/prompt"@),
{
    let r = endpoint3(server_url, "/session/", session_id, "/prompt");
    r
}

/// The endpoint that accepts a message for a session:
/// `POST /session/{id}/message`.
pub fn session_message_url(server_url: &str, session_id: &str) -> (r: String)
    ensures
        r@ == spec_endpoint(server_url@, "/session/"@ + session_id@ + "/message"@),
{
    let r = endpoint3(server_url, "/session/", session_id, "/message");
    r
}

/// The endpoint that lists sessions: `GET /sessions`.
pub fn sessions_url(server_url: &str) -> (r: String)
    ensures
        r@ == spec_endpoint(server_url@, "/sessions"@),
{
    let mut v = trim_end_matches_char(chars_of(server_url), '/');
    crate::text::append_str(&mut v, "/sessions");
    string_of(&v)
}

/// The endpoint that reports a session's status:
/// `GET /session/{id}/status`.
pub fn session_status_url(server_url: &str, session_id: &str) -> (r: String)
    ensures
        r@ == spec_endpoint(server_url@, "/session/"@ + session_id@ + "/status"@),
{
    let r = endpoint3(server_url, "/session/", session_id, "/status");
    r
}

} // verus!
