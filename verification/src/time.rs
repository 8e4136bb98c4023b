//! Spans of time as whole nanoseconds.

use vstd::prelude::*;

verus! {

/// Nanoseconds in one millisecond.
pub const NANOS_PER_MILLI: u64 = 1_000_000;

/// Nanoseconds in one second.
pub const NANOS_PER_SEC: u64 = 1_000_000_000;

/// A span of time, held as a count of nanoseconds.
///
/// The longest span is `u64::MAX` nanoseconds (about 584 years); the
/// constructors and the sum saturate there.
#[derive(Clone, Copy, Debug, PartialEq, Eq, PartialOrd, Ord, Hash, Structural)]
pub struct Duration {
    pub nanos: u64,
}

/// `n` capped at the largest `u64`.
pub open spec fn saturate(n: int) -> u64 {
    if n < 0 {
        0
    } else if n > u64::MAX {
        u64::MAX
    } else {
        n as u64
    }
}

impl Duration {
    /// The empty span.
    pub fn zero() -> (d: Duration)
        ensures
            d.nanos == 0,
    {
        Duration { nanos: 0 }
    }

    /// The span of `nanos` nanoseconds.
    pub fn from_nanos(nanos: u64) -> (d: Duration)
        ensures
            d.nanos == nanos,
    {
        Duration { nanos }
    }

    /// The span of `millis` milliseconds, capped at the longest span.
    pub fn from_millis(millis: u64) -> (d: Duration)
        ensures
            d.nanos == saturate(millis * NANOS_PER_MILLI),
    {
        if millis > u64::MAX / NANOS_PER_MILLI {
            Duration { nanos: u64::MAX }
        } else {
            Duration { nanos: millis * NANOS_PER_MILLI }
        }
    }

    /// The span of `secs` seconds, capped at the longest span.
    pub fn from_secs(secs: u64) -> (d: Duration)
        ensures
            d.nanos == saturate(secs * NANOS_PER_SEC),
    {
        if secs > u64::MAX / NANOS_PER_SEC {
            Duration { nanos: u64::MAX }
        } else {
            Duration { nanos: secs * NANOS_PER_SEC }
        }
    }

    /// The count of nanoseconds.
    pub fn as_nanos(&self) -> (n: u64)
        ensures
            n == self.nanos,
    {
        self.nanos
    }

    /// The count of whole milliseconds.
    pub fn as_millis(&self) -> (n: u64)
        ensures
            n == self.nanos / NANOS_PER_MILLI,
    {
        self.nanos / NANOS_PER_MILLI
    }

    /// The count of whole seconds.
    pub fn as_secs(&self) -> (n: u64)
        ensures
            n == self.nanos / NANOS_PER_SEC,
    {
        self.nanos / NANOS_PER_SEC
    }

    /// Whether the span is empty.
    pub fn is_zero(&self) -> (z: bool)
        ensures
            z == (self.nanos == 0),
    {
        self.nanos == 0
    }

    /// The sum of two spans, capped at the longest span.
    pub fn saturating_add(self, other: Duration) -> (d: Duration)
        ensures
            d.nanos == saturate(self.nanos + other.nanos),
    {
        if self.nanos > u64::MAX - other.nanos {
            Duration { nanos: u64::MAX }
        } else {
            Duration { nanos: self.nanos + other.nanos }
        }
    }

    /// What is left of `self` after `other`, or the empty span where
    /// `other` is the longer.
    pub fn saturating_sub(self, other: Duration) -> (d: Duration)
        ensures
            d.nanos == saturate(self.nanos - other.nanos),
    {
        if self.nanos < other.nanos {
            Duration { nanos: 0 }
        } else {
            Duration { nanos: self.nanos - other.nanos }
        }
    }

    /// The shorter of two spans.
    pub fn min(self, other: Duration) -> (d: Duration)
        ensures
            d.nanos == if self.nanos <= other.nanos { self.nanos } else { other.nanos },
    {
        if self.nanos <= other.nanos {
            self
        } else {
            other
        }
    }
}

} // verus!
