//! The clock and the lengths of time that it measures.

use std::time::{Duration, Instant};
use vstd::prelude::*;

verus! {

/// `std::time::Instant`, a reading of the monotonic clock. Nothing is said of what it holds.
#[verifier::external_type_specification]
#[verifier::external_body]
pub struct ExInstant(Instant);

/// The whole number of nanoseconds that a `Duration` spans.
pub uninterp spec fn duration_nanos(d: Duration) -> nat;

/// `Instant::now` reads the clock. What it returns differs from call to call.
pub assume_specification[ Instant::now ]() -> (r: Instant)
;

/// `Instant::elapsed` measures the time since the reading was taken. What it returns
/// depends on the clock.
pub assume_specification[ Instant::elapsed ](start: &Instant) -> (r: Duration)
;

/// `Duration::as_nanos` returns the total number of nanoseconds that the duration spans.
pub assume_specification[ Duration::as_nanos ](d: &Duration) -> (r: u128)
    ensures
        r == duration_nanos(*d),
;

/// `Duration::from_secs` makes the duration of that many whole seconds.
pub assume_specification[ Duration::from_secs ](secs: u64) -> (r: Duration)
    ensures
        duration_nanos(r) == secs * 1_000_000_000,
;

/// Cloning a `Duration` copies it.
pub assume_specification[ <Duration as Clone>::clone ](d: &Duration) -> (r: Duration)
    ensures
        r == *d,
;

} // verus!
