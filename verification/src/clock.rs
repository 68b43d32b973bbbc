//! The monotonic clock, for start times and profiling.
use vstd::prelude::*;
use std::time::{Duration, Instant};

verus! {

/// A point in time of the monotonic clock.
#[verifier::external_type_specification]
#[verifier::external_body]
pub struct ExInstant(Instant);

/// `Instant::now`: the current time. It depends on the clock, so nothing is
/// claimed of it.
#[verifier::external_body]
pub(crate) fn now() -> (t: Instant) {
    Instant::now()
}

/// `Instant::elapsed`: the time passed since `start`. It depends on the
/// clock, so nothing is claimed of it.
#[verifier::external_body]
fn elapsed(start: &Instant) -> (d: Duration) {
    start.elapsed()
}

/// `Duration::as_nanos`: the whole nanoseconds of a duration. A duration is
/// opaque here, so nothing is claimed of the number.
#[verifier::external_body]
fn whole_nanos(d: &Duration) -> (n: u128) {
    d.as_nanos()
}

/// The nanoseconds passed since `start`.
pub(crate) fn elapsed_nanos(start: &Instant) -> (n: u128) {
    let d = elapsed(start);
    whole_nanos(&d)
}

} // verus!
