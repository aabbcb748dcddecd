//! Terminal control client: command construction and response parsing.

pub mod cli;
pub mod pane;
pub mod session;
pub mod window;
