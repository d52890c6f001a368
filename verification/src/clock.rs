//! The monotonic clock that measurements are taken with.

use std::time::{Duration, Instant};
use vstd::prelude::*;

verus! {

/// `std::time::Instant`, a reading of the monotonic clock. It is carried
/// from the start of a measurement to its end and never looked into.
#[verifier::external_type_specification]
#[verifier::external_body]
pub struct ExInstant(Instant);

/// `Instant::now` reads the clock. Nothing is known of the reading.
pub assume_specification[ Instant::now ]() -> (start: Instant);

/// `Instant::elapsed` gives the time since the earlier reading. Nothing is
/// known of its length.
pub assume_specification[ Instant::elapsed ](start: &Instant) -> (span: Duration);

/// `Duration::as_nanos` gives the length of a span in nanoseconds. A span is
/// opaque here, so nothing is known of the number either.
pub assume_specification[ Duration::as_nanos ](span: &Duration) -> (nanos: u128);

/// The value of a clock reading as a sample: its nanoseconds, or the largest
/// sample where they do not fit.
pub open spec fn saturated(nanos: u128) -> u64 {
    if nanos > u64::MAX {
        u64::MAX
    } else {
        nanos as u64
    }
}

/// Turns a nanosecond count of the clock into a sample.
pub fn saturate(nanos: u128) -> (sample: u64)
    ensures
        sample == saturated(nanos),
{
    if nanos > u64::MAX as u128 {
        u64::MAX
    } else {
        nanos as u64
    }
}

} // verus!
