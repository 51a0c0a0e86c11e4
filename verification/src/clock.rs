use std::time::{Duration, Instant};
use vstd::prelude::*;

verus! {

/// `std::time::Instant`, a reading of the monotonic clock.
#[verifier::external_type_specification]
#[verifier::external_body]
pub struct ExInstant(std::time::Instant);

/// `Instant::now`: the current reading of the monotonic clock. Nothing is claimed of it: it is
/// the time.
#[verifier::external_body]
pub(crate) fn now() -> (r: Instant) {
    Instant::now()
}

/// `Instant::elapsed`: the time since `start`. Nothing is claimed of it: it is the time.
#[verifier::external_body]
pub(crate) fn elapsed(start: &Instant) -> (r: Duration) {
    start.elapsed()
}

/// `Duration::as_secs`: the whole seconds of a duration. A `Duration` is opaque here, so the
/// value is left unsaid.
#[verifier::external_body]
pub(crate) fn duration_secs(duration: &Duration) -> (r: u64) {
    duration.as_secs()
}

/// `Duration::subsec_nanos`: the nanoseconds past the whole seconds, which the documentation
/// promises to be below one billion; a `Duration` is opaque here, so that bound is all that is
/// said.
#[verifier::external_body]
pub(crate) fn duration_subsec_nanos(duration: &Duration) -> (r: u32)
    ensures
        r < 1_000_000_000,
{
    duration.subsec_nanos()
}

} // verus!
