//! Declarations and wrappers for the system clock, whose readings nothing can predict.
use std::time::{Duration, Instant, SystemTime};
use vstd::prelude::*;

verus! {

/// `std::time::Instant`, a monotonic clock reading, carried through opaquely.
#[verifier::external_type_specification]
#[verifier::external_body]
pub struct ExInstant(Instant);

/// `std::time::SystemTime`, a wall-clock reading, carried through opaquely.
#[verifier::external_type_specification]
#[verifier::external_body]
pub struct ExSystemTime(SystemTime);

/// Calls `Instant::now`; nothing is promised of the reading.
#[verifier::external_body]
pub(crate) fn instant_now() -> Instant {
    Instant::now()
}

/// Calls `Instant::saturating_duration_since`: the time from `earlier` to
/// `later`, zero when `later` is the earlier one. The readings are opaque, so
/// nothing is promised of it.
#[verifier::external_body]
pub(crate) fn duration_between(earlier: &Instant, later: &Instant) -> Duration {
    later.saturating_duration_since(*earlier)
}

/// Calls `Duration::as_millis`: the whole milliseconds of an opaque duration,
/// so nothing is promised of it.
#[verifier::external_body]
pub(crate) fn whole_millis(d: &Duration) -> u128 {
    d.as_millis()
}

/// Calls `Duration::as_secs`: the whole seconds of an opaque duration, so
/// nothing is promised of it.
#[verifier::external_body]
pub(crate) fn whole_secs(d: &Duration) -> u64 {
    d.as_secs()
}

/// Calls `SystemTime::now`; nothing is promised of the reading.
#[verifier::external_body]
pub(crate) fn system_now() -> SystemTime {
    SystemTime::now()
}

/// Calls `SystemTime::duration_since` with `UNIX_EPOCH`: the time since the
/// epoch, or `None` when the reading lies before it. The reading is opaque,
/// so nothing is promised of which.
#[verifier::external_body]
pub(crate) fn since_epoch(t: &SystemTime) -> Option<Duration> {
    match t.duration_since(std::time::UNIX_EPOCH) {
        Ok(d) => Some(d),
        Err(_) => None,
    }
}

/// Milliseconds from `earlier` to `later`, zero when `later` is the earlier one.
pub(crate) fn millis_since(earlier: &Instant, later: &Instant) -> u128 {
    let d = duration_between(earlier, later);
    whole_millis(&d)
}

/// Whole seconds since the Unix epoch by the system clock, 0 when the clock
/// reads before the epoch.
pub(crate) fn unix_now() -> u64 {
    match since_epoch(&system_now()) {
        Some(d) => whole_secs(&d),
        None => 0,
    }
}

} // verus!
