//! A terminal session paired with the agent protocol spoken in it.

use vstd::prelude::*;

use crate::error::TmuxError;
use crate::opencode::protocol::{
    protocol_response_matches, AgentResponse, MessageType, OpenCodeProtocol,
};
use crate::types::{PaneId, Session, SessionId};

verus! {

/// A session under agent control: the terminal snapshot, the protocol,
/// and the pane the agent runs in, once one is chosen.
#[derive(Debug, Clone)]
pub struct OpenCodeSession {
    pub session: Session,
    pub protocol: OpenCodeProtocol,
    pub agent_pane: Option<PaneId>,
}

impl OpenCodeSession {
    /// Wraps a terminal session, with no agent pane chosen yet.
    pub fn new(session: Session) -> (r: OpenCodeSession)
        ensures
            r.session == session,
            r.agent_pane is None,
    {
        OpenCodeSession { session, protocol: OpenCodeProtocol::new(), agent_pane: None }
    }

    /// The terminal session's identifier.
    pub fn id(&self) -> (r: &SessionId)
        ensures
            r == self.session.id,
    {
        &self.session.id
    }

    /// The terminal session's name.
    pub fn name(&self) -> (r: &str)
        ensures
            r@ == self.session.name@,
    {
        self.session.name.as_str()
    }

    /// The wrapped terminal session.
    pub fn session(&self) -> (r: &Session)
        ensures
            r == self.session,
    {
        &self.session
    }

    /// Chooses the pane the agent runs in.
    pub fn set_agent_pane(&mut self, pane_id: PaneId)
        ensures
            final(self).agent_pane matches Some(p) && p == pane_id,
            final(self).session == old(self).session,
            final(self).protocol == old(self).protocol,
    {
        self.agent_pane = Some(pane_id);
    }

    /// The chosen agent pane, if any.
    pub fn get_agent_pane(&self) -> (r: Option<PaneId>)
        ensures
            self.agent_pane is None ==> r is None,
            self.agent_pane matches Some(p) ==> (r matches Some(q) && q.0@ == p.0@),
    {
        match &self.agent_pane {
            Some(p) => Some(PaneId(p.0.clone())),
            None => None,
        }
    }

    /// A prompt as typed into the pane: the text and a newline.
    pub fn format_prompt(&self, prompt: &str) -> (r: String)
        ensures
            r@ == prompt@ + "\n"@,
    {
        crate::text::concat2(prompt, "\n")
    }

    /// Classifies raw agent output by this session's protocol.
    pub fn parse_agent_output(&self, output: &str) -> (r: Result<AgentResponse, TmuxError>)
        ensures
            r matches Ok(resp) && protocol_response_matches(output@, resp),
    {
        self.protocol.parse_response(output)
    }

    /// Whether the response marks the task complete.
    pub fn is_completion(&self, response: &AgentResponse) -> (r: bool)
        ensures
            r == (response.message_type is Completion),
    {
        response.message_type == MessageType::Completion
    }

    /// Whether the response carries tool calls.
    pub fn has_tool_calls(&self, response: &AgentResponse) -> (r: bool)
        ensures
            r == (response.tool_calls@.len() > 0),
    {
        response.tool_calls.len() > 0
    }

    /// Whether the response reports an error.
    pub fn is_error(&self, response: &AgentResponse) -> (r: bool)
        ensures
            r == (response.message_type is Error),
    {
        response.message_type == MessageType::Error
    }
}

} // verus!
