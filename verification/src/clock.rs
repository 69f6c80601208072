//! The wall clock, read as the time elapsed since the Unix epoch.

use std::time::Duration;
use std::time::SystemTime;
use std::time::SystemTimeError;
use vstd::prelude::*;

verus! {

/// The clock could not be expressed as a time since the Unix epoch.
#[derive(Clone, Copy, Debug, PartialEq, Eq)]
pub struct ClockError;

#[verifier::external_type_specification]
#[verifier::external_body]
pub struct ExSystemTime(SystemTime);

#[verifier::external_type_specification]
#[verifier::external_body]
pub struct ExSystemTimeError(SystemTimeError);

/// `SystemTime::now` reads the system clock. Nothing is claimed of the value.
pub assume_specification[ SystemTime::now ]() -> SystemTime;

/// `Duration::as_secs` gives the whole seconds of a duration. Nothing is
/// claimed of the value.
pub assume_specification[ Duration::as_secs ](d: &Duration) -> u64;

/// `Duration::as_nanos` gives a duration in nanoseconds. Nothing is claimed of
/// the value.
pub assume_specification[ Duration::as_nanos ](d: &Duration) -> u128;

/// Calls `SystemTime::duration_since` with the Unix epoch as the earlier
/// instant, and drops the error that it returns for an instant before the
/// epoch. Nothing is claimed of the result.
#[verifier::external_body]
pub(crate) fn since_unix_epoch(instant: &SystemTime) -> (elapsed: Option<Duration>) {
    instant.duration_since(std::time::UNIX_EPOCH).ok()
}

/// Whole seconds since the Unix epoch, or the error where the clock stands
/// before it. The reading is the clock's own: no value of it is promised.
pub(crate) fn unix_seconds() -> (now: Result<u64, ClockError>) {
    let instant = SystemTime::now();
    match since_unix_epoch(&instant) {
        Some(elapsed) => Ok(elapsed.as_secs()),
        None => Err(ClockError),
    }
}

/// Nanoseconds since the Unix epoch, or the error where the clock stands
/// before it. The reading is the clock's own: no value of it is promised.
pub(crate) fn unix_nanos() -> (now: Result<u128, ClockError>) {
    let instant = SystemTime::now();
    match since_unix_epoch(&instant) {
        Some(elapsed) => Ok(elapsed.as_nanos()),
        None => Err(ClockError),
    }
}

} // verus!
