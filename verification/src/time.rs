//! Spans of time with millisecond-exact arithmetic.

use vstd::prelude::*;

verus! {

/// A span of time: whole seconds plus a sub-second part in nanoseconds.
#[derive(Debug, Clone, Copy, PartialEq, Eq)]
pub struct Duration {
    secs: u64,
    nanos: u32,
}

impl Duration {
    /// The seconds part.
    pub closed spec fn spec_secs(self) -> nat {
        self.secs as nat
    }

    /// The nanoseconds part, below one second.
    pub closed spec fn spec_nanos(self) -> nat {
        self.nanos as nat
    }

    /// Whole milliseconds in the span.
    pub closed spec fn total_millis(self) -> nat {
        self.secs as nat * 1000 + self.nanos as nat / 1_000_000
    }

    /// A span of `secs` whole seconds.
    pub fn from_secs(secs: u64) -> (d: Duration)
        ensures
            d.spec_secs() == secs,
            d.spec_nanos() == 0,
            d.total_millis() == secs * 1000,
    {
        Duration { secs, nanos: 0 }
    }

    /// A span of `millis` milliseconds.
    pub fn from_millis(millis: u64) -> (d: Duration)
        ensures
            d.spec_secs() == millis / 1000,
            d.spec_nanos() == (millis % 1000) * 1_000_000,
            d.total_millis() == millis,
    {
        let d = Duration { secs: millis / 1000, nanos: ((millis % 1000) as u32) * 1_000_000 };
        assert((millis % 1000) * 1_000_000 / 1_000_000 == millis % 1000) by (nonlinear_arith);
        assert(millis / 1000 * 1000 + millis % 1000 == millis) by (nonlinear_arith);
        d
    }

    /// Whether the span is empty.
    pub fn is_zero(&self) -> (r: bool)
        ensures
            r == (self.spec_secs() == 0 && self.spec_nanos() == 0),
    {
        self.secs == 0 && self.nanos == 0
    }

    /// The sub-second part in nanoseconds.
    pub fn subsec_nanos(&self) -> (r: u32)
        ensures
            r == self.spec_nanos(),
    {
        self.nanos
    }

    /// Whole seconds in the span.
    pub fn as_secs(&self) -> (r: u64)
        ensures
            r == self.spec_secs(),
    {
        self.secs
    }

    /// Whole milliseconds in the span.
    pub fn as_millis(&self) -> (r: u128)
        ensures
            r == self.total_millis(),
    {
        assert(self.secs as nat * 1000 <= 18446744073709551615 * 1000) by (nonlinear_arith)
            requires self.secs <= 18446744073709551615u64;
        (self.secs as u128) * 1000 + (self.nanos / 1_000_000) as u128
    }
}

} // verus!
