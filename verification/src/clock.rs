//! The monotonic clock, and spans of time as whole nanoseconds.

use std::time::{Duration, Instant};
use vstd::prelude::*;

verus! {

/// `std::time::Instant`, taken as it is: a moment to measure from, with
/// nothing known of when it is.
#[verifier::external_type_specification]
#[verifier::external_body]
pub struct ExInstant(std::time::Instant);

/// The number of whole seconds in a span.
pub uninterp spec fn whole_secs(d: Duration) -> nat;

/// The part of a span beyond its whole seconds, in nanoseconds.
pub uninterp spec fn subsec_nanos(d: Duration) -> nat;

/// Nanoseconds in one second.
pub const NANOS_PER_SEC: u64 = 1_000_000_000;

/// A span in nanoseconds.
pub open spec fn span_nanos(d: Duration) -> nat {
    whole_secs(d) * NANOS_PER_SEC as nat + subsec_nanos(d)
}

/// The longest span there is, in nanoseconds: 2^64 - 1 seconds and one
/// nanosecond short of another.
pub open spec fn max_span_nanos() -> nat {
    (u64::MAX as nat * NANOS_PER_SEC as nat + 999_999_999) as nat
}

/// `Instant::now`: the present moment. Nothing is known of it.
#[verifier::external_body]
pub(crate) fn now() -> Instant {
    Instant::now()
}

/// `Instant::elapsed`: the time that has gone by since `start`. It differs
/// from call to call.
#[verifier::external_body]
pub(crate) fn elapsed_since(start: &Instant) -> Duration {
    start.elapsed()
}

/// `Duration::as_secs`: the whole seconds of a span.
#[verifier::external_body]
pub(crate) fn secs_of(d: &Duration) -> (s: u64)
    ensures
        s == whole_secs(*d),
{
    d.as_secs()
}

/// `Duration::subsec_nanos`: the fraction of a second that a span holds
/// beyond its whole seconds, in nanoseconds; always less than one second.
#[verifier::external_body]
pub(crate) fn subsec_of(d: &Duration) -> (n: u32)
    ensures
        n == subsec_nanos(*d),
        n < 1_000_000_000,
{
    d.subsec_nanos()
}

/// A span as whole nanoseconds.
pub fn nanos(d: &Duration) -> (ns: u128)
    ensures
        ns == span_nanos(*d),
        ns <= max_span_nanos(),
{
    let s = secs_of(d);
    let n = subsec_of(d);
    assert(s as nat * 1_000_000_000 <= u64::MAX as nat * 1_000_000_000) by (nonlinear_arith)
        requires
            s <= u64::MAX,
    ;
    (s as u128) * (NANOS_PER_SEC as u128) + (n as u128)
}

} // verus!
