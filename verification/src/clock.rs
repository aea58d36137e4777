//! Readings of the monotonic clock, as nanoseconds elapsed since a fixed
//! starting instant. Time depends on the machine, so nothing is promised of
//! a reading; the verified code takes readings as arguments.

use vstd::prelude::*;

verus! {

#[verifier::external_type_specification]
#[verifier::external_body]
pub struct ExInstant(std::time::Instant);

/// Calls `std::time::Instant::now`. The returned instant depends on the
/// moment of the call, so no property of it is stated.
#[verifier::external_body]
pub(crate) fn instant_now() -> std::time::Instant {
    std::time::Instant::now()
}

/// Calls `std::time::Instant::elapsed` on `origin` and returns the whole
/// nanoseconds, truncated to 64 bits. The reading depends on the moment of
/// the call, so no property of it is stated.
#[verifier::external_body]
pub(crate) fn nanos_since(origin: &std::time::Instant) -> u64 {
    origin.elapsed().as_nanos() as u64
}

/// Calls `std::time::SystemTime::now` and returns the nanoseconds since the
/// Unix epoch, or zero for a clock set before the epoch. The wall clock
/// depends on the machine and the moment, so no property is stated.
#[verifier::external_body]
pub(crate) fn unix_time_nanos() -> u128 {
    std::time::SystemTime::now().duration_since(std::time::UNIX_EPOCH).unwrap_or_default().as_nanos()
}

/// Calls `chrono::Utc::now` and returns its `timestamp`, the whole seconds
/// since the Unix epoch. The wall clock depends on the machine and the
/// moment, so no property is stated.
#[verifier::external_body]
pub(crate) fn utc_timestamp() -> i64 {
    chrono::Utc::now().timestamp()
}

} // verus!
