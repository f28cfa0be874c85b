//! Durations and monotonic time, seen as nanosecond counts.
use std::time::{Duration, Instant};
use vstd::prelude::*;

verus! {

#[verifier::external_type_specification]
#[verifier::external_body]
pub struct ExInstant(Instant);

/// `Duration` is `Copy`; its `clone` returns the same value.
pub assume_specification[ <Duration as Clone>::clone ](d: &Duration) -> (r: Duration)
    ensures
        r == *d,
;

pub const NANOS_PER_SEC: u128 = 1_000_000_000;

/// What `Duration::as_nanos` returns for `d`.
pub uninterp spec fn duration_nanos(d: Duration) -> nat;

/// `Duration::as_nanos`: the total number of nanoseconds in `d`.
#[verifier::external_body]
pub(crate) fn nanos_of(d: &Duration) -> (n: u128)
    ensures
        n == duration_nanos(*d),
        n / NANOS_PER_SEC <= u64::MAX,
{
    d.as_nanos()
}

/// `Duration::from_secs`: a duration of exactly `secs` whole seconds.
#[verifier::external_body]
pub(crate) fn duration_from_secs(secs: u64) -> (d: Duration)
    ensures
        duration_nanos(d) == secs * NANOS_PER_SEC,
{
    Duration::from_secs(secs)
}

/// `Duration::new`: `secs` seconds plus `nanos` nanoseconds. With
/// `nanos` below one second no carry occurs, so the call cannot panic.
#[verifier::external_body]
pub(crate) fn duration_new(secs: u64, nanos: u32) -> (d: Duration)
    requires
        nanos < NANOS_PER_SEC,
    ensures
        duration_nanos(d) == secs * NANOS_PER_SEC + nanos,
{
    Duration::new(secs, nanos)
}

/// `Duration::as_secs`: the whole seconds in `d`.
#[verifier::external_body]
pub(crate) fn secs_of(d: &Duration) -> (s: u64)
    ensures
        s == duration_nanos(*d) / (NANOS_PER_SEC as nat),
{
    d.as_secs()
}

/// A duration of `n` nanoseconds, for `n` within the range a `Duration`
/// can hold.
pub fn duration_from_nanos(n: u128) -> (d: Duration)
    requires
        n / NANOS_PER_SEC <= u64::MAX,
    ensures
        duration_nanos(d) == n,
{
    let secs = (n / NANOS_PER_SEC) as u64;
    let sub = (n % NANOS_PER_SEC) as u32;
    duration_new(secs, sub)
}

/// Whether two durations are equal (`Duration`'s `==`).
pub fn duration_eq(a: &Duration, b: &Duration) -> (r: bool)
    ensures
        r == (duration_nanos(*a) == duration_nanos(*b)),
{
    nanos_of(a) == nanos_of(b)
}

/// A starting point for measuring elapsed time.
pub struct Clock {
    origin: Instant,
}

/// `Instant::now`.
#[verifier::external_body]
fn instant_now() -> Instant {
    Instant::now()
}

/// `Instant::elapsed` in nanoseconds. The value depends on the time at which
/// it is called, so nothing is stated of it.
#[verifier::external_body]
fn elapsed_nanos(origin: &Instant) -> u128 {
    origin.elapsed().as_nanos()
}

impl Clock {
    pub fn start() -> Clock {
        Clock { origin: instant_now() }
    }

    /// Nanoseconds since this clock was started.
    pub fn now_nanos(&self) -> u128 {
        elapsed_nanos(&self.origin)
    }
}

} // verus!
