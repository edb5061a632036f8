//! Wall-clock measurement of a mining round.

use std::time::{Duration, Instant};
use vstd::prelude::*;

verus! {

/// `std::time::Instant`, carried through as an opaque value.
#[verifier::external_type_specification]
#[verifier::external_body]
pub struct ExInstant(std::time::Instant);

/// Reads the monotonic clock with `Instant::now`. Nothing is claimed of the
/// value.
#[verifier::external_body]
pub(crate) fn start_clock() -> (started: Instant) {
    Instant::now()
}

/// Time since `started`, by `Instant::elapsed`. Nothing is claimed of the
/// value.
#[verifier::external_body]
pub(crate) fn elapsed_since(started: &Instant) -> (elapsed: Duration) {
    started.elapsed()
}

} // verus!
