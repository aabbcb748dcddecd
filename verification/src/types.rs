//! Core entity and command types of the terminal control plane.

use vstd::prelude::*;

verus! {

/// Opaque session identifier in the multiplexer's namespace.
#[derive(Debug, Clone, PartialEq, Eq, Hash)]
pub struct SessionId(pub String);

/// Opaque window identifier in the multiplexer's namespace.
#[derive(Debug, Clone, PartialEq, Eq)]
pub struct WindowId(pub String);

/// Opaque pane identifier in the multiplexer's namespace.
#[derive(Debug, Clone, PartialEq, Eq)]
pub struct PaneId(pub String);

/// A read snapshot of one multiplexer session.
#[derive(Debug, Clone)]
pub struct Session {
    pub id: SessionId,
    pub name: String,
    pub windows: Vec<Window>,
    pub attached: bool,
}

/// A read snapshot of one window of a session.
#[derive(Debug, Clone)]
pub struct Window {
    pub id: WindowId,
    pub session_id: SessionId,
    pub name: String,
    pub panes: Vec<Pane>,
    pub active: bool,
}

/// A read snapshot of one pane of a window.
#[derive(Debug, Clone)]
pub struct Pane {
    pub id: PaneId,
    pub window_id: WindowId,
    pub session_id: SessionId,
    pub current_path: Option<String>,
    pub pid: Option<u32>,
    pub active: bool,
}

/// An outbound message addressed to a pane; immutable once created.
#[derive(Debug, Clone)]
pub struct Message {
    pub id: String,
    pub pane_id: PaneId,
    pub content: String,
    pub timestamp: u64,
}

/// A structured command for the multiplexer: a verb, a target and the
/// verb-specific arguments.
#[derive(Debug, Clone)]
pub struct Command {
    pub command: String,
    pub target: CommandTarget,
    pub args: Vec<String>,
}

/// What a `Command` addresses.
#[derive(Debug, Clone)]
pub enum CommandTarget {
    Server,
    Session(SessionId),
    Window(WindowId),
    Pane(PaneId),
}

/// The classified outcome of an executed command.
#[derive(Debug, Clone)]
pub struct Response {
    pub success: bool,
    pub data: ResponseData,
    pub error: Option<String>,
}

/// Structured data carried by a successful `Response`.
#[derive(Debug, Clone)]
pub enum ResponseData {
    Empty,
    Session(Session),
    Window(Window),
    Pane(Pane),
    Sessions(Vec<Session>),
    Windows(Vec<Window>),
    Panes(Vec<Pane>),
    Output(String),
}

} // verus!
