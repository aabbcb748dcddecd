//! Message delivery and session control for a terminal multiplexer
//! bridged to a remote conversational agent.
//!
//! The crate covers the control client that builds multiplexer commands
//! and parses their tabular output, the pure classifier for raw agent
//! output, the persistent outbound message queue, the identity map
//! between remote session identifiers and local session names, and the
//! delivery router that chooses between the remote channel and direct
//! terminal injection. Subprocesses, files and sockets are driven by the
//! embedding application; everything here computes and is verified.

pub mod error;
pub mod messaging;
pub mod opencode;
pub mod runtime;
pub mod session_mapping;
pub mod text;
pub mod tmux;
pub mod types;
