//! The wall clock by which a search limits itself.

use vstd::prelude::*;
use std::time::{Duration, Instant};

verus! {

#[verifier::external_type_specification]
#[verifier::external_body]
pub struct ExInstant(std::time::Instant);

/// `Instant::now`: the present moment.
#[verifier::external_body]
pub(crate) fn now() -> (moment: Instant) {
    Instant::now()
}

/// `Instant::elapsed`: the time that has passed since `start`.
#[verifier::external_body]
pub(crate) fn elapsed(start: &Instant) -> (passed: Duration) {
    start.elapsed()
}

/// `Duration::as_millis`: the whole milliseconds of a span of time.
#[verifier::external_body]
pub(crate) fn whole_millis(span: &Duration) -> (millis: u128) {
    span.as_millis()
}

} // verus!
