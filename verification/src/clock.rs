//! Monotonic time, as the engine's bookkeeping reads it.
//!
//! Recency and idleness are kept as nanosecond stamps measured from an
//! `Instant` captured when a table is created. The clock readings themselves
//! come from the operating system, so nothing is claimed of their values; the
//! tables that consume them keep their own stamps monotonic in verified code.

use vstd::prelude::*;
use std::time::{Duration, Instant};

verus! {

#[verifier::external_type_specification]
#[verifier::external_body]
pub struct ExInstant(Instant);

/// The length of a `Duration` in nanoseconds (`Duration::as_nanos`).
pub uninterp spec fn duration_nanos(d: Duration) -> nat;

/// `Instant::now`: the current reading of the monotonic clock. Nothing is
/// claimed of the value, which depends on the machine and the moment.
#[verifier::external_body]
pub(crate) fn instant_now() -> Instant {
    Instant::now()
}

/// `Instant::elapsed`: the time since `since`. Nothing is claimed of the
/// value, which depends on when the call is made.
#[verifier::external_body]
pub(crate) fn elapsed_since(since: &Instant) -> Duration {
    since.elapsed()
}

/// `Duration::as_nanos`: the whole nanoseconds of `d`.
#[verifier::external_body]
pub(crate) fn duration_as_nanos(d: Duration) -> (r: u128)
    ensures
        r == duration_nanos(d),
{
    d.as_nanos()
}

/// `Duration::from_secs`: a duration of exactly `secs` seconds, that is
/// `secs * 10^9` nanoseconds.
#[verifier::external_body]
pub(crate) fn duration_from_secs(secs: u64) -> (d: Duration)
    ensures
        duration_nanos(d) == secs * 1_000_000_000,
{
    Duration::from_secs(secs)
}

/// A nanosecond count clamped into `u64` (saturating at `u64::MAX`).
pub open spec fn clamp_nanos(n: nat) -> u64 {
    if n > u64::MAX {
        u64::MAX
    } else {
        n as u64
    }
}

/// Nanoseconds of `d`, saturating at `u64::MAX`.
pub fn nanos_u64(d: Duration) -> (r: u64)
    ensures
        r == clamp_nanos(duration_nanos(d)),
{
    let n = duration_as_nanos(d);
    if n > u64::MAX as u128 {
        u64::MAX
    } else {
        n as u64
    }
}

/// The next stamp of a clock whose last stamp was `last`, given an elapsed
/// reading `observed`: the reading, but strictly after `last` while that is
/// possible, so stamps order events exactly as they were issued.
pub open spec fn next_stamp(last: u64, observed: u64) -> u64 {
    if observed > last {
        observed
    } else if last < u64::MAX {
        (last + 1) as u64
    } else {
        last
    }
}

/// Compute [`next_stamp`].
pub fn advance_stamp(last: u64, observed: u64) -> (r: u64)
    ensures
        r == next_stamp(last, observed),
        r >= last,
        last < u64::MAX ==> r > last,
{
    if observed > last {
        observed
    } else if last < u64::MAX {
        last + 1
    } else {
        last
    }
}

} // verus!
