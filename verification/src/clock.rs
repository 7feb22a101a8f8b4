//! The clock. The library takes the time as an argument wherever it can;
//! this is where the time comes from when the caller does not bring it.

use vstd::prelude::*;

verus! {

/// A reading of the clock: whole seconds since the epoch, and the same
/// instant written out, down to the fraction of a second.
#[derive(Debug)]
pub struct ClockReading {
    pub seconds: i64,
    pub text: String,
}

/// `chrono::Utc::now()`, read once, as `timestamp()` and `to_rfc3339()` give
/// it. Nothing is claimed of a reading: two calls may return anything. On a
/// machine whose clock stands before 1970 the call does not return.
#[verifier::external_body]
pub(crate) fn read_clock() -> (reading: ClockReading) {
    let now = chrono::Utc::now();
    ClockReading { seconds: now.timestamp(), text: now.to_rfc3339() }
}

} // verus!
