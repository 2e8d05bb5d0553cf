//! The system clock.
use std::time::{Duration, SystemTime};
use vstd::prelude::*;

verus! {

/// `std::time::SystemTime`, a point in time as the system clock gives it.
/// Nothing is known of what a value holds: it is only handed on.
#[verifier::external_type_specification]
#[verifier::external_body]
pub struct ExSystemTime(std::time::SystemTime);

/// The time of the system clock.
///
/// Trusted: this is `SystemTime::now`. Nothing is claimed of the value.
#[verifier::external_body]
fn system_now() -> (t: SystemTime) {
    SystemTime::now()
}

/// The time that has passed at `t` since 1970-01-01 00:00:00 UTC; `None`
/// for a time before that.
///
/// Trusted: this is `SystemTime::duration_since`, asked of the epoch.
/// Nothing is claimed of the value.
#[verifier::external_body]
fn since_epoch(t: &SystemTime) -> (d: Option<Duration>) {
    match t.duration_since(std::time::UNIX_EPOCH) {
        Ok(d) => Some(d),
        Err(_) => None,
    }
}

/// A duration in whole milliseconds.
///
/// Trusted: this is `Duration::as_millis`. Nothing is claimed of the
/// value.
#[verifier::external_body]
fn millis_of(d: &Duration) -> (n: u128) {
    d.as_millis()
}

/// The wall-clock time in milliseconds since 1970-01-01 00:00:00 UTC: zero
/// for a clock that is set before that, and the largest number for one
/// that is set beyond what the number can hold.
pub(crate) fn unix_time_millis() -> (t: u64) {
    let now = system_now();
    match since_epoch(&now) {
        Some(d) => {
            let n = millis_of(&d);
            if n > 18446744073709551615u128 {
                18446744073709551615u64
            } else {
                n as u64
            }
        },
        None => 0,
    }
}

/// The current time in milliseconds since the epoch.
pub fn now_millis() -> u64 {
    unix_time_millis()
}

/// The current time in whole seconds since the epoch.
pub fn now_secs() -> u64 {
    unix_time_millis() / 1000
}

} // verus!
