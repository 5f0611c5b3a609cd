//! Spans of time and readings of a monotonic clock, in whole nanoseconds.

use vstd::prelude::*;

verus! {

/// Nanoseconds in a second.
pub const NANOS_PER_SEC: u128 = 1_000_000_000;

/// Nanoseconds in a millisecond.
pub const NANOS_PER_MILLI: u128 = 1_000_000;

/// A span of time.
#[derive(Clone, Copy, Debug, PartialEq, Eq, Structural)]
pub struct Duration {
    pub nanos: u128,
}

impl Duration {
    /// The span of `secs` seconds, in specifications.
    pub open spec fn of_secs(secs: nat) -> Duration {
        Duration { nanos: (secs * NANOS_PER_SEC) as u128 }
    }

    /// The span of `secs` seconds.
    pub fn from_secs(secs: u64) -> (span: Duration)
        ensures
            span.nanos == secs * NANOS_PER_SEC,
            span == Duration::of_secs(secs as nat),
    {
        Duration { nanos: secs as u128 * NANOS_PER_SEC }
    }

    /// The span of `millis` milliseconds.
    pub fn from_millis(millis: u64) -> (span: Duration)
        ensures
            span.nanos == millis * NANOS_PER_MILLI,
    {
        Duration { nanos: millis as u128 * NANOS_PER_MILLI }
    }

    /// The number of whole seconds in the span.
    pub fn as_secs(&self) -> (secs: u128)
        ensures
            secs == self.nanos / NANOS_PER_SEC,
    {
        self.nanos / NANOS_PER_SEC
    }

    /// `self - other`, or the empty span where `other` is the longer one.
    pub open spec fn less(self, other: Duration) -> Duration {
        if self.nanos >= other.nanos {
            Duration { nanos: (self.nanos - other.nanos) as u128 }
        } else {
            Duration { nanos: 0 }
        }
    }

    /// `self - other`, or the empty span where `other` is the longer one.
    pub fn saturating_sub(&self, other: Duration) -> (rest: Duration)
        ensures
            rest == self.less(other),
    {
        Duration { nanos: self.nanos.saturating_sub(other.nanos) }
    }
}

/// A reading of a monotonic clock: the time since a fixed moment in the past.
#[derive(Clone, Copy, Debug, PartialEq, Eq, Structural)]
pub struct Instant {
    pub nanos: u128,
}

impl Instant {
    /// The span from `earlier` to `self`; empty where `earlier` is not the earlier one.
    pub open spec fn since(self, earlier: Instant) -> Duration {
        Duration { nanos: self.nanos }.less(Duration { nanos: earlier.nanos })
    }

    /// The span from `earlier` to `self`; empty where `earlier` is not the earlier one.
    pub fn duration_since(&self, earlier: Instant) -> (span: Duration)
        ensures
            span == self.since(earlier),
    {
        Duration { nanos: self.nanos.saturating_sub(earlier.nanos) }
    }
}

/// A second is a thousand milliseconds, and a billion nanoseconds.
pub proof fn law_units(secs: nat)
    requires
        secs <= u64::MAX,
    ensures
        Duration::of_secs(secs).nanos == secs * 1_000_000_000,
        NANOS_PER_SEC == 1_000_000_000,
        NANOS_PER_MILLI * 1000 == NANOS_PER_SEC,
{
}

/// What is taken from a span and what is left of it make up the span; nothing is left where
/// more is taken than there is.
pub proof fn law_what_is_left(whole: Duration, taken: Duration)
    ensures
        taken.nanos <= whole.nanos ==> whole.less(taken).nanos + taken.nanos == whole.nanos,
        taken.nanos > whole.nanos ==> whole.less(taken).nanos == 0,
{
}

/// A moment and the span from it to a later one make up the later one; from a later moment
/// to an earlier one there is no span.
pub proof fn law_time_adds_up(earlier: Instant, later: Instant)
    requires
        earlier.nanos <= later.nanos,
    ensures
        earlier.nanos + later.since(earlier).nanos == later.nanos,
        earlier.since(later).nanos == 0,
{
}

} // verus!
