//! Readings of the system clock and lengths of time, in milliseconds.

use vstd::prelude::*;

verus! {

/// `std::time::SystemTime::elapsed` on the unix epoch, in whole milliseconds; `None` where the
/// clock stands before the epoch. Nothing is claimed of a reading of the clock.
#[verifier::external_body]
fn time_since_epoch_ms() -> (r: Option<u128>) {
    std::time::UNIX_EPOCH.elapsed().ok().map(|elapsed| elapsed.as_millis())
}

/// The unix time of a reading of the clock: its low 64 bits, or zero before the epoch.
pub fn unix_time_ms_of(reading: Option<u128>) -> (r: u64)
    ensures
        r == (match reading {
            Some(ms) => (ms % 0x1_0000_0000_0000_0000) as u64,
            None => 0u64,
        }),
{
    match reading {
        Some(ms) => (ms % 0x1_0000_0000_0000_0000) as u64,
        None => 0,
    }
}

/// The unix time in milliseconds. It depends on the clock, so nothing is stated of it.
pub fn unix_time_ms() -> (r: u64) {
    unix_time_ms_of(time_since_epoch_ms())
}

/// A length of time that counts as one millisecond where it is shorter, and as the largest
/// number where it does not fit.
pub fn elapsed_millis_at_least_one(millis: u128) -> (r: u64)
    ensures
        r == (if millis == 0 {
            1
        } else if millis > u64::MAX {
            u64::MAX as int
        } else {
            millis as int
        }),
        r >= 1,
{
    if millis == 0 {
        1
    } else if millis > u64::MAX as u128 {
        u64::MAX
    } else {
        millis as u64
    }
}

} // verus!
