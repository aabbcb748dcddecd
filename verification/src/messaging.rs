//! Message pipeline: output parsing, filtering, queueing and prompt
//! hand-off.

pub mod filter;
pub mod parser;
pub mod read;
pub mod queue;
pub mod send;
