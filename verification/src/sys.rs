//! Process-level helpers: fresh identifiers and the current time.

use vstd::prelude::*;

verus! {

/// Relies on uuid::Uuid::new_v4 and its Display form: a random version-4
/// UUID rendered as 36 hyphenated lowercase hex characters. The value is
/// random, so nothing but its length is promised.
#[verifier::external_body]
pub fn fresh_uuid() -> (r: String)
    ensures
        r@.len() == 36,
{
    uuid::Uuid::new_v4().to_string()
}

/// Relies on std::time::SystemTime: milliseconds since the Unix epoch, or 0
/// when the clock reads earlier than the epoch. The clock is environment
/// state, so nothing is promised of the value.
#[verifier::external_body]
pub fn now_millis() -> i64 {
    match std::time::SystemTime::now().duration_since(std::time::UNIX_EPOCH) {
        Ok(d) => d.as_millis() as i64,
        Err(_) => 0,
    }
}

} // verus!
