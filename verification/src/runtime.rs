//! Trusted bindings to the ambient environment: the wall clock and fresh
//! identifiers. Nothing useful can be promised of either result, so their
//! callers state what holds of every outcome.

use vstd::prelude::*;

verus! {

/// Relies on std's `SystemTime::now` and `duration_since`: the wall-clock
/// time as milliseconds since the Unix epoch, or zero if the clock reads
/// before the epoch. The result depends on the wall clock, so nothing is
/// promised of it.
#[verifier::external_body]
pub(crate) fn current_unix_millis() -> u64 {
    match std::time::SystemTime::now().duration_since(std::time::UNIX_EPOCH) {
        Ok(d) => d.as_millis() as u64,
        Err(_) => 0,
    }
}

/// Relies on uuid's `Uuid::new_v4` and its `Display` rendering: a random
/// version-4 identifier in the 36-character hyphenated form. The value is
/// random, so only its length is promised.
#[verifier::external_body]
pub(crate) fn fresh_message_id() -> (r: String)
    ensures
        r@.len() == 36,
{
    uuid::Uuid::new_v4().to_string()
}

} // verus!
