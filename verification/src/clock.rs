//! Wall-clock readings. Two calls may return anything, in any order; only
//! the range of a reading is promised. No reading panics: a clock set before
//! the Unix epoch reads as the epoch.

use vstd::prelude::*;
use std::time::{Duration, SystemTime, UNIX_EPOCH};

verus! {

/// A possible clock reading in milliseconds: within 10^17 of the epoch.
pub open spec fn millis_reading(t: i64) -> bool {
    -100_000_000_000_000_000 <= t <= 100_000_000_000_000_000
}

/// `std::time::SystemTime`, a reading of the system clock.
#[verifier::external_type_specification]
#[verifier::external_body]
pub struct ExSystemTime(std::time::SystemTime);

/// `SystemTime::now()`: the system clock's current reading. Nothing is
/// stated of it.
#[verifier::external_body]
fn system_now() -> SystemTime {
    SystemTime::now()
}

/// `t.duration_since(UNIX_EPOCH)`: the time elapsed since the epoch, or
/// `None` when `t` is before it (std's error case). Nothing is stated of
/// the duration.
#[verifier::external_body]
fn since_epoch(t: &SystemTime) -> Option<Duration> {
    match t.duration_since(UNIX_EPOCH) {
        Ok(d) => Some(d),
        Err(_) => None,
    }
}

/// `d.as_secs()`: the whole seconds of a duration. Nothing is stated of
/// them.
#[verifier::external_body]
fn whole_secs(d: &Duration) -> u64 {
    d.as_secs()
}

/// `d.subsec_nanos()`: the fractional part of a duration in nanoseconds,
/// which std documents as always below one billion.
#[verifier::external_body]
fn subsec_nanos(d: &Duration) -> (r: u32)
    ensures
        r < 1_000_000_000,
{
    d.subsec_nanos()
}

/// `DateTime::<Utc>::from_timestamp(secs, nanos)` and then
/// `timestamp_millis()`: `None` when chrono's calendar does not reach that
/// instant, otherwise the instant in milliseconds, `secs * 1000` plus the
/// whole milliseconds of `nanos` (below one second, so no leap second).
#[verifier::external_body]
fn utc_timestamp_millis(secs: i64, nanos: u32) -> (r: Option<i64>)
    requires
        nanos < 1_000_000_000,
    ensures
        r matches Some(m) ==> m == secs * 1000 + nanos / 1_000_000,
{
    match chrono::DateTime::<chrono::Utc>::from_timestamp(secs, nanos) {
        Some(d) => Some(d.timestamp_millis()),
        None => None,
    }
}

/// The system clock as whole seconds and nanoseconds since the Unix epoch;
/// `(0, 0)` when the clock reads before the epoch.
pub fn unix_now() -> (r: (u64, u32))
    ensures
        r.1 < 1_000_000_000,
{
    let t = system_now();
    match since_epoch(&t) {
        Some(d) => (whole_secs(&d), subsec_nanos(&d)),
        None => (0, 0),
    }
}

/// Nanoseconds since the Unix epoch by the system clock, truncated to 64
/// bits (zero before the epoch). Two readings may come in any order.
pub fn now_nanos() -> u64 {
    let (s, n) = unix_now();
    let total: u128 = (s as u128) * 1_000_000_000 + (n as u128);
    total as u64
}

/// Milliseconds since the Unix epoch, as chrono's `timestamp_millis` gives
/// them for the system clock's reading. A reading before the epoch, or
/// beyond chrono's calendar, counts as the epoch itself (0), where
/// `Utc::now()` would panic.
pub fn now_millis() -> (r: i64)
    ensures
        millis_reading(r),
        r >= 0,
{
    let (s, n) = unix_now();
    if s >= 100_000_000_000_000 {
        return 0;
    }
    match utc_timestamp_millis(s as i64, n) {
        Some(m) => m,
        None => 0,
    }
}

} // verus!
