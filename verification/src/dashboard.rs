//! The clock that timestamps what the dashboard shows.

use vstd::prelude::*;

verus! {

/// The current time, as milliseconds since the Unix epoch
/// (`SystemTime::now` measured from `UNIX_EPOCH`), or 0 while the system
/// clock reads a time before the epoch. Nothing more is stated of the
/// result: it is whatever the system clock reads, and two calls may give
/// any two values.
#[verifier::external_body]
pub fn now_ms() -> u64 {
    std::time::SystemTime::now()
        .duration_since(std::time::UNIX_EPOCH)
        .map(|d| d.as_millis() as u64)
        .unwrap_or(0)
}

} // verus!
