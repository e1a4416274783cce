//! Reading the clocks: the monotonic clock for response times and the
//! system clock for timestamps. What a clock reads is never stated; the
//! verified helpers here only say what they do with the reading.

use vstd::prelude::*;
use std::time::{Duration, Instant, SystemTime};

verus! {

#[verifier::external_type_specification]
#[verifier::external_body]
pub struct ExInstant(Instant);

#[verifier::external_type_specification]
#[verifier::external_body]
pub struct ExSystemTime(SystemTime);

/// The current instant of the monotonic clock.
///
/// Trusted: calls `Instant::now`; nothing is stated of the time it reads.
#[verifier::external_body]
pub(crate) fn instant_now() -> (t: Instant) {
    Instant::now()
}

/// The time elapsed since `start`.
///
/// Trusted: calls `Instant::elapsed`; the result depends on the clock, so
/// nothing is stated of it.
#[verifier::external_body]
pub(crate) fn elapsed_since(start: &Instant) -> (d: Duration) {
    start.elapsed()
}

/// A duration of whole seconds.
///
/// Trusted: calls `Duration::from_secs`; the value is opaque here, so
/// nothing is stated of it.
#[verifier::external_body]
pub(crate) fn duration_from_secs(secs: u64) -> (d: Duration) {
    Duration::from_secs(secs)
}

/// Whole seconds of a duration.
///
/// Trusted: calls `Duration::as_secs`; a duration is opaque here, so
/// nothing is stated of the number.
#[verifier::external_body]
pub(crate) fn duration_secs(d: &Duration) -> (s: u64) {
    d.as_secs()
}

/// Whole milliseconds of a duration.
///
/// Trusted: calls `Duration::as_millis`; a duration is opaque here, so
/// nothing is stated of the number.
#[verifier::external_body]
pub(crate) fn duration_millis(d: &Duration) -> (ms: u128) {
    d.as_millis()
}

/// Whole microseconds of a duration.
///
/// Trusted: calls `Duration::as_micros`; a duration is opaque here, so
/// nothing is stated of the number.
#[verifier::external_body]
pub(crate) fn duration_micros(d: &Duration) -> (us: u128) {
    d.as_micros()
}

/// The current time of the system clock.
///
/// Trusted: calls `SystemTime::now`; nothing is stated of the time it reads.
#[verifier::external_body]
pub(crate) fn system_now() -> (t: SystemTime) {
    SystemTime::now()
}

/// The time from the Unix epoch to `t`, or `None` when `t` lies before the
/// epoch.
///
/// Trusted: calls `SystemTime::duration_since(UNIX_EPOCH)`; the duration is
/// opaque here, so nothing is stated of it.
#[verifier::external_body]
pub(crate) fn since_epoch(t: &SystemTime) -> (d: Option<Duration>) {
    match t.duration_since(std::time::UNIX_EPOCH) {
        Ok(d) => Some(d),
        Err(_) => None,
    }
}

/// Whole microseconds since `start`, cut to the low 64 bits.
pub(crate) fn micros_since(start: &Instant) -> (us: u64) {
    let d = elapsed_since(start);
    let micros = duration_micros(&d);
    micros as u64
}

/// Whole seconds since the Unix epoch; a system clock set before the epoch
/// reads as 0.
pub(crate) fn unix_now_secs() -> (t: u64) {
    let now = system_now();
    match since_epoch(&now) {
        Some(d) => duration_secs(&d),
        None => 0,
    }
}

/// Milliseconds since the Unix epoch: never negative, as a clock set before
/// the epoch reads as 0, and held at `i64::MAX` past what 64 bits can count.
pub(crate) fn unix_now_millis() -> (t: i64)
    ensures
        t >= 0,
{
    let now = system_now();
    match since_epoch(&now) {
        Some(d) => {
            let ms = duration_millis(&d);
            if ms <= 9_223_372_036_854_775_807u128 {
                ms as i64
            } else {
                i64::MAX
            }
        },
        None => 0,
    }
}

} // verus!
