//! Wall-clock access.

use vstd::prelude::*;

verus! {

/// The time since the Unix epoch in whole seconds, read with
/// `std::time::SystemTime::now` and `duration_since`; `None` where the
/// clock stands before the epoch.
///
/// Nothing is promised about the value: the clock may report any instant.
#[verifier::external_body]
fn since_epoch() -> (seconds: Option<u64>) {
    match std::time::SystemTime::now().duration_since(std::time::UNIX_EPOCH) {
        Ok(elapsed) => Some(elapsed.as_secs()),
        Err(_) => None,
    }
}

/// Seconds since the Unix epoch as the clock reports them now. A clock
/// that stands before the epoch reads as zero.
pub(crate) fn unix_seconds() -> (seconds: u64) {
    seconds_of(since_epoch())
}

/// The seconds that a reading of the clock stands for: zero for a clock
/// that stands before the epoch.
pub open spec fn reading_or_zero(reading: Option<u64>) -> u64 {
    if reading.is_some() {
        reading.unwrap()
    } else {
        0
    }
}

/// Turns a reading of the clock into seconds since the Unix epoch. A clock
/// that stands before the epoch has no reading, and reads as zero.
pub fn seconds_of(reading: Option<u64>) -> (seconds: u64)
    ensures
        seconds == reading_or_zero(reading),
{
    match reading {
        Some(seconds) => seconds,
        None => 0,
    }
}

} // verus!
