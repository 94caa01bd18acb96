//! The wall clock, in milliseconds since the Unix epoch.
use vstd::prelude::*;

verus! {

/// `std::time::SystemTime`, a point in time.
#[verifier::external_type_specification]
#[verifier::external_body]
pub struct ExSystemTime(std::time::SystemTime);

/// `SystemTime::now`. Nothing is promised of the time: it is the machine's.
#[verifier::external_body]
fn current_time() -> (r: std::time::SystemTime) {
    std::time::SystemTime::now()
}

/// `SystemTime::duration_since` the Unix epoch, or nothing for a time before it. Nothing more is
/// said of the duration, as nothing is known of the time.
#[verifier::external_body]
fn since_epoch(time: std::time::SystemTime) -> (r: Option<std::time::Duration>) {
    time.duration_since(std::time::UNIX_EPOCH).ok()
}

/// `Duration::as_millis`. Nothing more is said of the number, as nothing is known of the duration.
#[verifier::external_body]
fn whole_millis(duration: std::time::Duration) -> (r: u128) {
    duration.as_millis()
}

/// A clock reading as a time stamp: zero before the epoch, and no more than 63 bits hold.
pub open spec fn stamp_of(reading: Option<u128>) -> i64 {
    match reading {
        Some(ms) => if ms > i64::MAX {
            i64::MAX
        } else {
            ms as i64
        },
        None => 0,
    }
}

/// See [`stamp_of`].
pub fn stamp(reading: Option<u128>) -> (r: i64)
    ensures
        r == stamp_of(reading),
{
    match reading {
        Some(ms) => if ms > i64::MAX as u128 {
            i64::MAX
        } else {
            ms as i64
        },
        None => 0,
    }
}

/// The time now. Whatever the clock says, the stamp is not negative.
pub fn now_ms() -> (r: i64)
    ensures
        r >= 0,
{
    match since_epoch(current_time()) {
        Some(duration) => stamp(Some(whole_millis(duration))),
        None => stamp(None),
    }
}

/// A stamp is the reading of the clock as far as it fits, never negative, and later readings have
/// no earlier stamps.
pub proof fn stamps_are_readings(earlier: u128, later: u128)
    requires
        earlier <= later,
    ensures
        earlier <= i64::MAX ==> stamp_of(Some(earlier)) == earlier,
        0 <= stamp_of(Some(earlier)) <= stamp_of(Some(later)),
        stamp_of(None) == 0,
{
}

} // verus!
