//! The wall clock, read in whole seconds since the Unix epoch.

use vstd::prelude::*;
use std::time::SystemTime;
use std::time::SystemTimeError;
use std::time::Duration;

verus! {

/// `std::time::SystemTime`, carried through as an opaque value.
#[verifier::external_type_specification]
#[verifier::external_body]
pub struct ExSystemTime(SystemTime);

/// `std::time::SystemTimeError`, carried through as an opaque value.
#[verifier::external_type_specification]
#[verifier::external_body]
pub struct ExSystemTimeError(SystemTimeError);

/// `SystemTime::now`: the current reading of the system clock. Nothing is
/// claimed of it: two readings may differ in either direction.
pub assume_specification[ SystemTime::now ]() -> (t: SystemTime);

/// `SystemTime::duration_since`: the time from `earlier` to `t`, or an error
/// when `earlier` is the later of the two. Nothing is claimed of the result.
pub assume_specification[ SystemTime::duration_since ](t: &SystemTime, earlier: SystemTime) -> (r: Result<Duration, SystemTimeError>);

/// `Duration::as_secs`: the whole seconds held by the duration. Nothing is
/// claimed of the result.
pub assume_specification[ Duration::as_secs ](d: &Duration) -> (s: u64);

/// `SystemTime::UNIX_EPOCH` as a value.
#[verifier::external_body]
fn unix_epoch() -> (t: SystemTime) {
    SystemTime::UNIX_EPOCH
}

/// Seconds since the Unix epoch according to the system clock. A clock set
/// before the epoch reads as second 0, so that no elapsed time is ever
/// negative.
pub fn unix_seconds() -> (now: u64) {
    let t = SystemTime::now();
    match t.duration_since(unix_epoch()) {
        Ok(d) => d.as_secs(),
        Err(_) => 0,
    }
}

} // verus!
