//! Monotonic time, read from the operating system.
//!
//! Nothing is claimed of the readings: they come from the machine's clock.
//! Logic that depends on time takes the readings as arguments.

use vstd::prelude::*;

verus! {

#[verifier::external_type_specification]
#[verifier::external_body]
pub struct ExInstant(std::time::Instant);

/// `Clone` of `std::time::Instant`: the type is `Copy`, and its clone is
/// the same instant.
pub assume_specification[ <std::time::Instant as Clone>::clone ](i: &std::time::Instant) -> (r: std::time::Instant)
    ensures
        r == *i,
;

/// Calls `std::time::Instant::now`; nothing is stated of the reading.
#[verifier::external_body]
pub(crate) fn instant_now() -> std::time::Instant {
    std::time::Instant::now()
}

/// Calls `std::time::Instant::elapsed` on `origin`; nothing is stated of
/// the reading.
#[verifier::external_body]
fn elapsed(origin: &std::time::Instant) -> std::time::Duration {
    origin.elapsed()
}

/// Calls `std::time::Duration::as_nanos`: the whole nanoseconds of `d`.
/// Nothing is stated, the duration being opaque here.
#[verifier::external_body]
fn whole_nanos(d: &std::time::Duration) -> u128 {
    d.as_nanos()
}

/// `ns` nanoseconds as a `u64`, saturating at `u64::MAX` (some 584 years).
pub open spec fn saturated_nanos(ns: u128) -> u64 {
    if ns > u64::MAX as u128 {
        u64::MAX
    } else {
        ns as u64
    }
}

/// A count of nanoseconds as a `u64`: the count itself up to `u64::MAX`.
pub fn saturate_nanos(ns: u128) -> (r: u64)
    ensures
        r == saturated_nanos(ns),
{
    if ns > u64::MAX as u128 {
        u64::MAX
    } else {
        ns as u64
    }
}

/// Readings keep their nanoseconds: a count that fits is kept as it is,
/// two such counts `d` apart give results `d` apart, and a larger count
/// never gives a smaller result.
pub proof fn lemma_saturation_keeps_nanos(a: u128, b: u128)
    ensures
        a <= u64::MAX ==> saturated_nanos(a) == a,
        a > u64::MAX ==> saturated_nanos(a) == u64::MAX,
        a <= b <= u64::MAX ==> saturated_nanos(b) - saturated_nanos(a) == b - a,
        a <= b ==> saturated_nanos(a) <= saturated_nanos(b),
{
}

/// Whole nanoseconds elapsed since `origin` (as `Duration::as_nanos` of
/// `Instant::elapsed`), saturating at `u64::MAX`.
pub(crate) fn nanos_since(origin: &std::time::Instant) -> u64 {
    saturate_nanos(whole_nanos(&elapsed(origin)))
}

} // verus!
