//! Spans of time, as whole seconds and a remainder in nanoseconds.

use vstd::prelude::*;

verus! {

/// A span of time.
#[derive(Debug, Clone, Copy, PartialEq, Eq, Structural)]
pub struct Duration {
    pub secs: u64,
    /// Less than one second.
    pub nanos: u32,
}

/// The span of `secs` whole seconds.
pub open spec fn seconds(secs: u64) -> Duration {
    Duration { secs, nanos: 0 }
}

/// The span of `ms` milliseconds.
pub open spec fn milliseconds(ms: u64) -> Duration {
    Duration { secs: ms / 1000, nanos: (ms % 1000 * 1_000_000) as u32 }
}

/// The longest span there is.
pub open spec fn forever() -> Duration {
    Duration { secs: u64::MAX, nanos: 999_999_999 }
}

impl Duration {
    /// The remainder is less than a second.
    pub open spec fn wf(self) -> bool {
        self.nanos < 1_000_000_000
    }

    /// The length of the span in nanoseconds.
    pub open spec fn total(self) -> nat {
        (self.secs * 1_000_000_000 + self.nanos) as nat
    }

    /// No time at all.
    pub fn zero() -> (d: Self)
        ensures
            d == seconds(0),
    {
        Duration { secs: 0, nanos: 0 }
    }

    /// The longest span there is. It stands for the uptime of a predecessor
    /// that never existed.
    pub fn longest() -> (d: Self)
        ensures
            d == forever(),
            d.wf(),
            forall|other: Self| #[trigger] other.wf() ==> other.total() <= d.total(),
    {
        Duration { secs: u64::MAX, nanos: 999_999_999 }
    }

    /// A span of whole seconds.
    pub fn from_secs(secs: u64) -> (d: Self)
        ensures
            d == seconds(secs),
            d.wf(),
            d.total() == secs * 1_000_000_000,
    {
        Duration { secs, nanos: 0 }
    }

    /// A span of milliseconds.
    pub fn from_millis(ms: u64) -> (d: Self)
        ensures
            d == milliseconds(ms),
            d.wf(),
            d.total() == ms * 1_000_000,
    {
        Duration { secs: ms / 1000, nanos: (ms % 1000) as u32 * 1_000_000 }
    }

    /// The whole seconds in the span.
    pub fn as_secs(&self) -> (n: u64)
        ensures
            n == self.secs,
            self.wf() ==> n == self.total() / 1_000_000_000,
    {
        self.secs
    }

    /// The whole milliseconds in the span.
    pub fn as_millis(&self) -> (n: u128)
        requires
            self.wf(),
        ensures
            n == self.total() / 1_000_000,
    {
        self.secs as u128 * 1000 + self.nanos as u128 / 1_000_000
    }

    /// Whether the span is no time at all.
    pub fn is_zero(&self) -> (b: bool)
        ensures
            b == (self.total() == 0),
            b == (*self == seconds(0)),
    {
        self.secs == 0 && self.nanos == 0
    }

    /// Whether this span is no longer than `other`.
    pub fn at_most(&self, other: &Self) -> (b: bool)
        requires
            self.wf(),
            other.wf(),
        ensures
            b == (self.total() <= other.total()),
    {
        self.secs < other.secs || (self.secs == other.secs && self.nanos <= other.nanos)
    }
}

// -------------------------------------------------------------------- laws

/// A thousand milliseconds are a second, and a second is a billion nanoseconds.
pub proof fn law_how_spans_are_counted(n: u64)
    ensures
        seconds(n).secs == n && seconds(n).nanos == 0,
        seconds(n).total() == n * 1_000_000_000,
        milliseconds(n).wf() && milliseconds(n).total() == n * 1_000_000,
        n <= 0xffff_ffff ==> milliseconds((n * 1000) as u64) == seconds(n),
        forever().wf() && forever().total() == 18_446_744_073_709_551_615_999_999_999,
{
}

/// Of two spans the one with more whole seconds is longer, and of two with as many the
/// one with more nanoseconds.
pub proof fn law_how_spans_compare(a: Duration, b: Duration)
    requires
        a.wf(),
        b.wf(),
    ensures
        a.total() < b.total() <==> a.secs < b.secs || (a.secs == b.secs && a.nanos < b.nanos),
        a.total() == b.total() <==> a == b,
{
}

} // verus!
