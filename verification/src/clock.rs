//! Reading the system clock.
use std::time::SystemTime;
use vstd::prelude::*;

verus! {

/// A point in time of the system clock, carried through unread.
#[verifier::external_type_specification]
#[verifier::external_body]
pub struct ExSystemTime(SystemTime);

/// Trusted: `SystemTime` is `Copy` in std, so its `clone` gives back the
/// same value.
pub assume_specification[ <SystemTime as Clone>::clone ](t: &SystemTime) -> (r: SystemTime)
    ensures
        r == *t,
;

/// The current time of the system clock.
///
/// Trusted: wraps `SystemTime::now`; what it returns depends on the clock,
/// so nothing is stated of it.
#[verifier::external_body]
pub fn system_now() -> SystemTime {
    SystemTime::now()
}

/// The Unix epoch.
///
/// Trusted: hands out the constant `SystemTime::UNIX_EPOCH`; no clause
/// names it, as a name needs an argument.
#[verifier::external_body]
pub fn unix_epoch() -> SystemTime {
    SystemTime::UNIX_EPOCH
}

/// Whole seconds from the Unix epoch to a point in time; `None` for a time
/// before the epoch.
///
/// Trusted: wraps `SystemTime::duration_since` with the epoch as argument,
/// and `Duration::as_secs` on the result. std documents that
/// `duration_since` fails exactly when the argument is later than the time
/// it is called on, which maps to `None`. A point in time is opaque here, so
/// nothing is stated of the value.
#[verifier::external_body]
fn seconds_since_epoch(t: &SystemTime) -> Option<u64> {
    match t.duration_since(SystemTime::UNIX_EPOCH) {
        Ok(d) => Some(d.as_secs()),
        Err(_) => None,
    }
}

/// A clock reading in whole seconds since the Unix epoch: a time before the
/// epoch reads as the epoch itself.
pub fn seconds_or_epoch(reading: Option<u64>) -> (r: u64)
    ensures
        r == match reading {
            Some(secs) => secs,
            None => 0,
        },
{
    match reading {
        Some(secs) => secs,
        None => 0,
    }
}

/// The current time as whole seconds since the Unix epoch, as
/// [`seconds_or_epoch`] reads the clock; the value depends on the clock.
pub fn unix_now_secs() -> u64 {
    seconds_or_epoch(seconds_since_epoch(&system_now()))
}

} // verus!
