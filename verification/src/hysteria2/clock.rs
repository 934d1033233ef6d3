//! Monotonic time.

use std::time::{Duration, Instant};
use vstd::prelude::*;

verus! {

#[verifier::external_type_specification]
#[verifier::external_body]
pub struct ExInstant(Instant);

/// `Instant::now` reads the monotonic clock: nothing is claimed of the result.
pub assume_specification[ Instant::now ]() -> Instant
;

/// `Instant::duration_since` is the time between two moments: nothing is
/// claimed of it.
pub assume_specification[ Instant::duration_since ](now: &Instant, earlier: Instant) -> Duration
;

/// `Duration::as_nanos` gives a span of time in nanoseconds: nothing is
/// claimed of the number.
pub assume_specification[ Duration::as_nanos ](span: &Duration) -> u128
;

/// Nanoseconds since `epoch`. The monotonic clock decides: nothing is claimed of
/// the number.
pub(crate) fn nanos_since(epoch: Instant) -> u128 {
    Instant::now().duration_since(epoch).as_nanos()
}

} // verus!
