//! Readings of the monotonic clock and conversions of durations.
//!
//! The engine measures time as nanoseconds elapsed since an origin instant
//! that it records when it is created; everything it decides about expiry is
//! a function of such readings.
use std::time::{Duration, Instant};
use vstd::prelude::*;

verus! {

/// `std::time::Instant`, opaque to proofs.
#[verifier::external_type_specification]
#[verifier::external_body]
pub struct ExInstant(Instant);

/// The number of nanoseconds a duration spans, as `Duration::as_nanos` reports it.
pub uninterp spec fn duration_nanos(d: Duration) -> u128;

/// Relies on `Instant::now`: a reading of the monotonic clock; nothing is known of its value.
pub assume_specification[ Instant::now ]() -> Instant;

/// Relies on `Instant::elapsed`: the time since the instant; nothing is known of its value.
pub assume_specification[ Instant::elapsed ](i: &Instant) -> Duration;

/// Relies on `Duration::as_nanos`: the total number of nanoseconds in the duration.
pub assume_specification[ Duration::as_nanos ](d: &Duration) -> (r: u128)
    ensures
        r == duration_nanos(*d),
;

/// Relies on `Duration::from_nanos`: a duration of exactly the given number of nanoseconds.
pub assume_specification[ Duration::from_nanos ](nanos: u64) -> (r: Duration)
    ensures
        duration_nanos(r) == nanos as u128,
;

/// The nanoseconds of a duration, capped at `u64::MAX`.
pub open spec fn capped_nanos(d: Duration) -> u64 {
    if duration_nanos(d) > u64::MAX as u128 {
        u64::MAX
    } else {
        duration_nanos(d) as u64
    }
}

/// Converts a duration to nanoseconds, saturating at `u64::MAX`
/// (about 584 years).
pub fn nanos_of(d: &Duration) -> (r: u64)
    ensures
        r == capped_nanos(*d),
{
    let n = d.as_nanos();
    if n > u64::MAX as u128 {
        u64::MAX
    } else {
        n as u64
    }
}

/// Nanoseconds elapsed since `origin`, saturating at `u64::MAX`.
pub fn nanos_since(origin: &Instant) -> u64 {
    let d = origin.elapsed();
    nanos_of(&d)
}

} // verus!
