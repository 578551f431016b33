//! The wall clock.

use vstd::prelude::*;

verus! {

/// Seconds since the Unix epoch, read from `std::time::SystemTime::now`, or
/// `None` where the clock is set before the epoch. Nothing is promised of
/// the value: it depends on the machine's clock.
#[verifier::external_body]
pub(crate) fn unix_now() -> (secs: Option<u64>) {
    match std::time::SystemTime::now().duration_since(std::time::UNIX_EPOCH) {
        Ok(d) => Some(d.as_secs()),
        Err(_) => None,
    }
}

/// The current time in seconds since the Unix epoch: what [`seconds_of`]
/// makes of the clock's reading.
pub fn now_secs() -> (secs: u64) {
    seconds_of(unix_now())
}

/// The time that a reading of the clock stands for: its seconds, or zero
/// where there is no reading.
pub fn seconds_of(reading: Option<u64>) -> (secs: u64)
    ensures
        secs == match reading {
            Some(s) => s,
            None => 0,
        },
{
    match reading {
        Some(s) => s,
        None => 0,
    }
}

} // verus!
