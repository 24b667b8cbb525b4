//! Spans of time, as whole seconds and the nanoseconds beyond them.

use vstd::prelude::*;

verus! {

/// Nanoseconds in a second.
pub const NANOS_PER_SEC: u32 = 1_000_000_000;

/// A span of time.
#[derive(Debug, Clone, Copy, PartialEq, Eq)]
pub struct Duration {
    pub secs: u64,
    pub nanos: u32,
}

impl Duration {
    /// The nanoseconds stay below one second.
    pub open spec fn wf(self) -> bool {
        self.nanos < NANOS_PER_SEC
    }

    /// The length in nanoseconds.
    pub open spec fn total(self) -> int {
        self.secs * 1_000_000_000 + self.nanos
    }

    /// The length in whole milliseconds.
    pub open spec fn total_millis(self) -> int {
        self.secs * 1000 + self.nanos / 1_000_000
    }

    pub fn from_secs(secs: u64) -> (r: Duration)
        ensures
            r.wf(),
            r.secs == secs,
            r.nanos == 0,
    {
        Duration { secs, nanos: 0 }
    }

    pub fn from_millis(millis: u64) -> (r: Duration)
        ensures
            r.wf(),
            r.total() == millis * 1_000_000,
            r.secs == millis / 1000,
            r.nanos == (millis % 1000) * 1_000_000,
    {
        let rest: u32 = (millis % 1000) as u32;
        Duration { secs: millis / 1000, nanos: rest * 1_000_000 }
    }

    pub fn is_zero(&self) -> (r: bool)
        ensures
            r == (self.secs == 0 && self.nanos == 0),
    {
        self.secs == 0 && self.nanos == 0
    }

    /// The length in whole milliseconds, as far as 64 bits go.
    pub fn as_millis(&self) -> (r: u64)
        ensures
            r == (if self.total_millis() <= u64::MAX {
                self.total_millis()
            } else {
                u64::MAX as int
            }),
    {
        let part: u64 = (self.nanos / 1_000_000) as u64;
        if self.secs > (u64::MAX - part) / 1000 {
            u64::MAX
        } else {
            self.secs * 1000 + part
        }
    }

    /// Whether this span is at least as long as `other`.
    pub fn at_least(&self, other: &Duration) -> (r: bool)
        requires
            self.wf(),
            other.wf(),
        ensures
            r == (self.total() >= other.total()),
    {
        self.secs > other.secs || (self.secs == other.secs && self.nanos >= other.nanos)
    }

    /// The shorter of two spans.
    pub fn shorter(self, other: Duration) -> (r: Duration)
        requires
            self.wf(),
            other.wf(),
        ensures
            r == (if self.total() <= other.total() {
                self
            } else {
                other
            }),
    {
        if other.at_least(&self) {
            self
        } else {
            other
        }
    }

    /// Twice as long, as far as the type goes.
    pub fn doubled(self) -> (r: Duration)
        requires
            self.wf(),
        ensures
            r.wf(),
            2 * self.total() <= Duration::longest().total() ==> r.total() == 2 * self.total(),
            2 * self.total() > Duration::longest().total() ==> r == Duration::longest(),
    {
        let n: u32 = self.nanos * 2;
        let carry: u64 = if n >= NANOS_PER_SEC { 1 } else { 0 };
        let nanos: u32 = if n >= NANOS_PER_SEC { n - NANOS_PER_SEC } else { n };
        if self.secs > (u64::MAX - carry) / 2 {
            Duration { secs: u64::MAX, nanos: NANOS_PER_SEC - 1 }
        } else {
            Duration { secs: self.secs * 2 + carry, nanos }
        }
    }

    /// The longest span of the type.
    pub open spec fn longest() -> Duration {
        Duration { secs: u64::MAX, nanos: (NANOS_PER_SEC - 1) as u32 }
    }
}

} // verus!
