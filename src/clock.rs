//! Readings of the monotonic clock, as whole milliseconds since an origin.
use std::time::Instant;
use vstd::prelude::*;

verus! {

/// `std::time::Instant`, held opaque: a reading of the monotonic clock,
/// kept only as the origin of later readings.
#[verifier::external_type_specification]
#[verifier::external_body]
pub struct ExInstant(Instant);

/// Relies on `Instant::now`: a reading of the monotonic clock, taken as the
/// origin from which later readings are counted.
#[verifier::external_body]
pub(crate) fn clock_origin() -> (r: Instant) {
    Instant::now()
}

/// Relies on `Instant::elapsed`: the time that has passed since `origin`,
/// counted in whole milliseconds.
#[verifier::external_body]
pub(crate) fn millis_since(origin: &Instant) -> (r: u64) {
    origin.elapsed().as_millis() as u64
}

} // verus!
