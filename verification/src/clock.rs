//! Trusted access to the process clock. Nothing can be promised of what a
//! clock returns, so callers take the reading as a plain value and the
//! verified logic is stated for every possible reading.

use vstd::prelude::*;

verus! {

/// Relies on `std::time::SystemTime::now` and `duration_since`: milliseconds
/// of the system clock since the Unix epoch, 0 when the clock reads earlier.
#[verifier::external_body]
pub fn now_millis() -> (r: u64) {
    match std::time::SystemTime::now().duration_since(std::time::UNIX_EPOCH) {
        Ok(d) => d.as_millis() as u64,
        Err(_) => 0,
    }
}

/// Relies on `chrono::Utc::now` and `DateTime::to_rfc3339`: the current UTC
/// time formatted as an RFC 3339 timestamp.
#[verifier::external_body]
pub fn now_rfc3339() -> (r: String) {
    chrono::Utc::now().to_rfc3339()
}

} // verus!
