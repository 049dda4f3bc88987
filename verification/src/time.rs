//! Points and spans of a monotonic clock, in whole nanoseconds.
//!
//! The library never reads a clock. Callers take a reading and hand it in.

use vstd::prelude::*;

verus! {

/// A span of time.
#[derive(Debug, Clone, Copy, PartialEq, Eq, Structural, Hash)]
pub struct Duration {
    /// Length of the span in nanoseconds.
    pub nanos: u128,
}

/// A reading of a monotonic clock.
#[derive(Debug, Clone, Copy, PartialEq, Eq, Structural, Hash)]
pub struct Instant {
    /// Nanoseconds since the clock's origin.
    pub nanos: u128,
}

impl Duration {
    /// The empty span.
    pub fn zero() -> (d: Duration)
        ensures
            d.nanos == 0,
    {
        Duration { nanos: 0 }
    }

    /// A span of whole nanoseconds.
    pub fn from_nanos(nanos: u64) -> (d: Duration)
        ensures
            d.nanos == nanos,
    {
        Duration { nanos: nanos as u128 }
    }

    /// A span of whole milliseconds.
    pub fn from_millis(millis: u64) -> (d: Duration)
        ensures
            d.nanos == millis * 1_000_000,
    {
        Duration { nanos: millis as u128 * 1_000_000 }
    }

    /// A span of whole seconds.
    pub fn from_secs(secs: u64) -> (d: Duration)
        ensures
            d.nanos == secs * 1_000_000_000,
    {
        Duration { nanos: secs as u128 * 1_000_000_000 }
    }

    /// Whether the span is empty.
    pub fn is_zero(&self) -> (b: bool)
        ensures
            b == (self.nanos == 0),
    {
        self.nanos == 0
    }
}

/// Nanoseconds from `earlier` to `later`, zero when `earlier` is not earlier.
pub open spec fn elapsed_nanos(earlier: Instant, later: Instant) -> int {
    if later.nanos >= earlier.nanos {
        later.nanos - earlier.nanos
    } else {
        0
    }
}

impl Instant {
    /// A reading of `nanos` nanoseconds.
    pub fn from_nanos(nanos: u64) -> (i: Instant)
        ensures
            i.nanos == nanos,
    {
        Instant { nanos: nanos as u128 }
    }

    /// The span since `earlier`, zero when `earlier` lies in the future.
    pub fn duration_since(&self, earlier: Instant) -> (d: Duration)
        ensures
            d.nanos == elapsed_nanos(earlier, *self),
    {
        if self.nanos >= earlier.nanos {
            Duration { nanos: self.nanos - earlier.nanos }
        } else {
            Duration { nanos: 0 }
        }
    }

    /// The reading `span` later, or `None` where the clock cannot show it.
    pub fn checked_add(&self, span: Duration) -> (i: Option<Instant>)
        ensures
            match i {
                Some(later) => later.nanos == self.nanos + span.nanos,
                None => self.nanos + span.nanos > u128::MAX,
            },
    {
        match self.nanos.checked_add(span.nanos) {
            Some(nanos) => Some(Instant { nanos }),
            None => None,
        }
    }
}

} // verus!
