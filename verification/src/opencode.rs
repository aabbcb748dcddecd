//! Agent integration: response types, text protocol, discovery and routing.

pub mod client;
pub mod discovery;
pub mod protocol;
pub mod reader;
pub mod sender;
pub mod session;
