//! The clock that steps measured in real time run on.

use vstd::prelude::*;
use std::time::{Duration, Instant};

verus! {

/// A moment on the machine's clock, taken as it is.
#[verifier::external_type_specification]
#[verifier::external_body]
pub struct ExInstant(Instant);

/// Calls `Instant::elapsed`: the time gone by since `instant`. It depends on
/// when it is asked, so nothing is promised of it.
#[verifier::external_body]
pub(crate) fn elapsed_since(instant: &Instant) -> (duration: Duration) {
    instant.elapsed()
}

} // verus!
