//! The monotonic clock, as the proxy and the rate limiter read it.
use vstd::prelude::*;

verus! {

/// `std::time::Instant`, carried through the library as an opaque value.
#[verifier::external_type_specification]
#[verifier::external_body]
pub struct ExInstant(std::time::Instant);

/// Calls `std::time::Instant::now`: the current reading of the monotonic
/// clock.  Nothing is claimed of the value.
#[verifier::external_body]
pub(crate) fn instant_now() -> (r: std::time::Instant) {
    std::time::Instant::now()
}

/// Calls `std::time::Instant::elapsed`: the time since `since`.  Nothing is
/// claimed of the value, which depends on the clock.
#[verifier::external_body]
pub(crate) fn instant_elapsed(since: &std::time::Instant) -> (r: core::time::Duration) {
    since.elapsed()
}

/// Calls `std::time::Duration::as_nanos`: the whole duration in nanoseconds.
/// Duration is opaque here, so nothing is claimed of the number.
#[verifier::external_body]
pub(crate) fn duration_as_nanos(d: &core::time::Duration) -> (r: u128) {
    d.as_nanos()
}

/// Calls `std::time::Duration::as_millis`: the whole duration in milliseconds.
/// Duration is opaque here, so nothing is claimed of the number.
#[verifier::external_body]
pub(crate) fn duration_as_millis(d: &core::time::Duration) -> (r: u128) {
    d.as_millis()
}

} // verus!
