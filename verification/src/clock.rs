use vstd::prelude::*;

use std::time::{Duration, Instant};

verus! {

/// A point in monotonic time, as std measures it.
#[verifier::external_type_specification]
#[verifier::external_body]
pub struct ExInstant(std::time::Instant);

/// Calls `Instant::now`. The value rests on the clock: nothing is claimed.
#[verifier::external_body]
pub(crate) fn instant_now() -> Instant {
    Instant::now()
}

/// Calls `Instant::elapsed`: the time that has passed since `start`. The
/// value rests on the clock: nothing is claimed.
#[verifier::external_body]
pub(crate) fn elapsed_since(start: &Instant) -> Duration {
    start.elapsed()
}

/// The whole length of a span in nanoseconds, as std's `Duration::as_nanos`
/// gives it; it depends on the span alone.
pub uninterp spec fn span_nanos(span: Duration) -> u128;

/// Calls `Duration::as_nanos`: the whole length of a span in nanoseconds,
/// named `span_nanos`.
#[verifier::external_body]
pub(crate) fn duration_nanos(span: &Duration) -> (n: u128)
    ensures
        n == span_nanos(*span),
{
    span.as_nanos()
}

/// Nanoseconds since `start`, read from the clock.
pub(crate) fn nanos_since(start: &Instant) -> u128 {
    let span = elapsed_since(start);
    duration_nanos(&span)
}

} // verus!
