//! Error taxonomy of the library.

use vstd::prelude::*;

verus! {

/// Failure classification used across the crate.
///
/// `Process` carries an operating-system error class name and a message;
/// `Parse` is malformed structured data; `Command` a generically classified
/// non-zero exit; `NotFound` an absent target entity; `InvalidState` an
/// operation that is not valid for its target; `Timeout` an expired command
/// deadline; `NotConnected` an unreachable multiplexer server.
#[derive(Debug, Clone)]
pub enum TmuxError {
    Process(String, String),
    Parse(String),
    Command(String),
    NotFound(String),
    InvalidState(String),
    Timeout,
    NotConnected,
}

} // verus!
