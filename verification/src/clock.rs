//! The clock that timings are taken from. Nothing is claimed of what it
//! shows: the library's contracts hold whatever the times are.

use vstd::prelude::*;

verus! {

/// A point in time, as `std::time::Instant` has it.
#[verifier::external_type_specification]
#[verifier::external_body]
pub struct ExInstant(std::time::Instant);

/// Calls `std::time::Instant::now`.
#[verifier::external_body]
pub(crate) fn clock_now() -> std::time::Instant {
    std::time::Instant::now()
}

/// Calls `std::time::Instant::elapsed`.
#[verifier::external_body]
fn clock_elapsed(start: &std::time::Instant) -> core::time::Duration {
    start.elapsed()
}

/// Calls `core::time::Duration::as_nanos`.
#[verifier::external_body]
fn duration_nanos(duration: &core::time::Duration) -> u128 {
    duration.as_nanos()
}

/// The nanoseconds since `start`, at most `u64::MAX`.
pub(crate) fn nanos_since(start: &std::time::Instant) -> u64 {
    let elapsed = clock_elapsed(start);
    saturating_nanos(duration_nanos(&elapsed))
}

/// `nanos` as a `u64`, or the largest `u64` where it does not fit.
pub open spec fn spec_saturating_nanos(nanos: u128) -> u64 {
    if nanos > u64::MAX {
        u64::MAX
    } else {
        nanos as u64
    }
}

/// Brings a count of nanoseconds that the clock gave into 64 bits: the
/// count itself where it fits, the largest `u64` where it does not.
pub fn saturating_nanos(nanos: u128) -> (kept: u64)
    ensures
        kept == spec_saturating_nanos(nanos),
{
    if nanos > u64::MAX as u128 {
        u64::MAX
    } else {
        nanos as u64
    }
}

} // verus!
