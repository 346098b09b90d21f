//! Wall-clock time as whole seconds since the Unix epoch.

use std::time::{Duration, SystemTime, SystemTimeError};
use vstd::prelude::*;

verus! {

/// `std::time::SystemTime`, a point on the system clock. Nothing is known
/// of what a value holds but what [`epoch_offset`] names.
#[verifier::external_type_specification]
#[verifier::external_body]
pub struct ExSystemTime(std::time::SystemTime);

/// `std::time::SystemTimeError`, the error of a comparison of two points in
/// time that turned out to lie the other way round.
#[verifier::external_type_specification]
#[verifier::external_body]
pub struct ExSystemTimeError(std::time::SystemTimeError);

/// The time from the Unix epoch to `time`, as `SystemTime::duration_since`
/// gives it; none for a time before the epoch.
pub uninterp spec fn epoch_offset(time: SystemTime) -> Option<Duration>;

/// The whole seconds of `duration`, as `Duration::as_secs` gives them.
pub uninterp spec fn whole_seconds(duration: Duration) -> u64;

/// The timestamp of a point in time: the whole seconds from the Unix epoch
/// to it, or zero for a time before the epoch.
pub open spec fn epoch_seconds(time: SystemTime) -> u64 {
    match epoch_offset(time) {
        Some(elapsed) => whole_seconds(elapsed),
        None => 0,
    }
}

/// `SystemTime::now` reads the system clock; nothing is claimed of the
/// reading.
pub assume_specification[ SystemTime::now ]() -> (now: SystemTime)
;

/// `Duration::as_secs` gives the whole seconds of a duration. They are a
/// function of the duration alone and go by the name [`whole_seconds`].
pub assume_specification[ Duration::as_secs ](duration: &Duration) -> (seconds: u64)
    ensures
        seconds == whole_seconds(*duration),
;

/// Calls `SystemTime::duration_since` with the Unix epoch as the earlier
/// point. The call fails when `time` lies before the epoch. Whether it
/// does, and the duration it gives, are a function of `time` alone and go
/// by the name [`epoch_offset`].
#[verifier::external_body]
fn since_epoch(time: &SystemTime) -> (elapsed: Result<Duration, SystemTimeError>)
    ensures
        match elapsed {
            Ok(d) => epoch_offset(*time) == Some(d),
            Err(_) => epoch_offset(*time) is None,
        },
{
    time.duration_since(std::time::UNIX_EPOCH)
}

/// The timestamp to record for a clock reading: the whole seconds that
/// `reading` holds, or zero when there is no reading because the clock
/// stood before the epoch.
pub fn timestamp_of(reading: Option<u64>) -> (seconds: u64)
    ensures
        seconds == match reading {
            Some(s) => s,
            None => 0,
        },
{
    match reading {
        Some(s) => s,
        None => 0,
    }
}

/// Whole seconds from the Unix epoch to `time`; zero for a time before the
/// epoch.
pub fn seconds_since_epoch(time: &SystemTime) -> (seconds: u64)
    ensures
        seconds == epoch_seconds(*time),
{
    let reading = match since_epoch(time) {
        Ok(elapsed) => Some(elapsed.as_secs()),
        Err(_) => None,
    };
    timestamp_of(reading)
}

/// The current time in whole seconds since the Unix epoch: the timestamp of
/// the reading that the system clock gives at the call. Two calls may get
/// different readings.
pub fn unix_seconds() -> (seconds: u64)
    ensures
        exists|now: SystemTime| seconds == #[trigger] epoch_seconds(now),
{
    let now = SystemTime::now();
    seconds_since_epoch(&now)
}

} // verus!
