//! Spans of time and moments, counted in nanoseconds.
use vstd::prelude::*;

verus! {

/// The longest span: what `u64::MAX` seconds and 999 999 999 nanoseconds are.
pub const MAX_NANOS: u128 = 18_446_744_073_709_551_615_999_999_999;

/// A span of time.
#[derive(Clone, Copy, Debug, PartialEq, Eq, Structural)]
pub struct Duration {
    pub nanos: u128,
}

impl Duration {
    /// The span is no longer than the longest that can be told.
    pub open spec fn wf(self) -> bool {
        self.nanos <= MAX_NANOS
    }

    /// A span of whole seconds.
    pub fn from_secs(secs: u64) -> (d: Duration)
        ensures
            d.nanos == secs * 1_000_000_000,
            d.wf(),
    {
        Duration { nanos: secs as u128 * 1_000_000_000 }
    }

    /// A span of whole milliseconds.
    pub fn from_millis(millis: u64) -> (d: Duration)
        ensures
            d.nanos == millis * 1_000_000,
            d.wf(),
    {
        Duration { nanos: millis as u128 * 1_000_000 }
    }

    /// A span of whole microseconds.
    pub fn from_micros(micros: u64) -> (d: Duration)
        ensures
            d.nanos == micros * 1_000,
            d.wf(),
    {
        Duration { nanos: micros as u128 * 1_000 }
    }

    /// A span of whole nanoseconds.
    pub fn from_nanos(nanos: u64) -> (d: Duration)
        ensures
            d.nanos == nanos,
            d.wf(),
    {
        Duration { nanos: nanos as u128 }
    }

    /// The whole seconds of the span.
    pub fn as_secs(&self) -> (secs: u64)
        requires
            self.wf(),
        ensures
            secs == self.nanos / 1_000_000_000,
    {
        (self.nanos / 1_000_000_000) as u64
    }

    /// The whole milliseconds of the span.
    pub fn as_millis(&self) -> (millis: u128)
        ensures
            millis == self.nanos / 1_000_000,
    {
        self.nanos / 1_000_000
    }

    /// The whole microseconds of the span.
    pub fn as_micros(&self) -> (micros: u128)
        ensures
            micros == self.nanos / 1_000,
    {
        self.nanos / 1_000
    }

    /// The nanoseconds of the span.
    pub fn as_nanos(&self) -> (nanos: u128)
        ensures
            nanos == self.nanos,
    {
        self.nanos
    }
}

/// A moment, counted in nanoseconds from a start that the caller chooses once.
#[derive(Clone, Copy, Debug, PartialEq, Eq, Structural)]
pub struct Instant {
    pub nanos: u128,
}

impl Instant {
    /// The moment a span later.
    pub fn after(&self, d: Duration) -> (r: Instant)
        requires
            self.nanos + d.nanos <= u128::MAX,
        ensures
            r.nanos == self.nanos + d.nanos,
    {
        Instant { nanos: self.nanos + d.nanos }
    }

    /// The span since an earlier moment, zero where `earlier` is not earlier.
    pub open spec fn since_spec(self, earlier: Instant) -> Duration {
        Duration {
            nanos: if self.nanos >= earlier.nanos {
                (self.nanos - earlier.nanos) as u128
            } else {
                0
            },
        }
    }

    /// The span since an earlier moment, zero where `earlier` is not earlier.
    pub fn since(&self, earlier: Instant) -> (d: Duration)
        ensures
            d == self.since_spec(earlier),
    {
        if self.nanos >= earlier.nanos {
            Duration { nanos: self.nanos - earlier.nanos }
        } else {
            Duration { nanos: 0 }
        }
    }
}

/// The span from one moment to a later one leads from the first to the second; no
/// span leads back. More time has passed since an earlier moment, and at a later one.
pub proof fn spans_lead_to_moments(earlier: Instant, later: Instant, at: Instant)
    requires
        earlier.nanos <= later.nanos,
    ensures
        earlier.nanos + later.since_spec(earlier).nanos == later.nanos,
        earlier.since_spec(later).nanos == 0,
        at.since_spec(earlier).nanos >= at.since_spec(later).nanos,
        later.since_spec(at).nanos >= earlier.since_spec(at).nanos,
{
}

} // verus!
