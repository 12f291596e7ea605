//! The monotonic clock of `std::time`, reached through small trusted calls.
//! What `Instant::now` and `Instant::elapsed` return depends on when they are
//! called, so nothing is promised of their values; a `Duration` is measured
//! by its whole length in nanoseconds.

use std::time::Duration;
use std::time::Instant;
use vstd::prelude::*;

verus! {

#[verifier::external_type_specification]
#[verifier::external_body]
pub struct ExInstant(Instant);

/// `std::time::Instant::now`: the current instant.
#[verifier::external_body]
pub(crate) fn instant_now() -> (r: Instant) {
    Instant::now()
}

/// `std::time::Instant::elapsed`: the time since `base`.
#[verifier::external_body]
pub(crate) fn instant_elapsed(base: &Instant) -> (r: Duration) {
    base.elapsed()
}

/// The length of a duration in nanoseconds (what `Duration::as_nanos`
/// returns).
pub uninterp spec fn nanos_of(d: Duration) -> nat;

/// `std::time::Duration::as_millis`: the total whole milliseconds of `d`,
/// its nanoseconds divided by a million.
#[verifier::external_body]
pub(crate) fn duration_as_millis(d: &Duration) -> (r: u128)
    ensures
        r as nat == nanos_of(*d) / 1_000_000,
{
    d.as_millis()
}

/// `std::time::Duration::as_nanos`: the total nanoseconds of `d`.
#[verifier::external_body]
pub(crate) fn duration_as_nanos(d: &Duration) -> (r: u128)
    ensures
        r as nat == nanos_of(*d),
{
    d.as_nanos()
}

/// The whole nanoseconds of `d`, truncated to 64 bits.
pub(crate) fn nanos_u64(d: &Duration) -> (r: u64)
    ensures
        r == (nanos_of(*d) as u128) as u64,
{
    let ns = duration_as_nanos(d);
    ns as u64
}

/// `std::time::Duration::from_millis`: a duration of `ms` milliseconds.
#[verifier::external_body]
pub(crate) fn duration_from_millis(ms: u64) -> (r: Duration)
    ensures
        nanos_of(r) == ms * 1_000_000,
{
    Duration::from_millis(ms)
}

/// `Duration >= Duration` (`PartialOrd::ge`): durations compare by length.
#[verifier::external_body]
pub(crate) fn duration_at_least(d: &Duration, bound: &Duration) -> (r: bool)
    ensures
        r == (nanos_of(*d) >= nanos_of(*bound)),
{
    *d >= *bound
}

} // verus!
