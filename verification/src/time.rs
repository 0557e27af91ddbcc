//! Spans of time as plain numbers.
use vstd::prelude::*;

verus! {

/// A span of time, counted in nanoseconds. Also used for a point in time,
/// given as the span since an origin that the caller picks.
#[derive(Clone, Copy, Debug, PartialEq, Eq, Structural, PartialOrd, Ord, Hash)]
pub struct TimeSpan {
    pub nanos: u128,
}

impl TimeSpan {
    /// The span of `secs` seconds.
    pub fn from_secs(secs: u64) -> (span: TimeSpan)
        ensures
            span.nanos == secs * 1_000_000_000,
    {
        assert(secs * 1_000_000_000 <= u64::MAX * 1_000_000_000) by (nonlinear_arith)
            requires
                secs <= u64::MAX,
        ;
        let wide: u128 = secs as u128;
        TimeSpan { nanos: wide * 1_000_000_000 }
    }

    /// The span of `millis` milliseconds.
    pub fn from_millis(millis: u64) -> (span: TimeSpan)
        ensures
            span.nanos == millis * 1_000_000,
    {
        assert(millis * 1_000_000 <= u64::MAX * 1_000_000) by (nonlinear_arith)
            requires
                millis <= u64::MAX,
        ;
        let wide: u128 = millis as u128;
        TimeSpan { nanos: wide * 1_000_000 }
    }

    /// The whole milliseconds of the span, cut to 64 bits.
    pub fn as_millis(&self) -> (millis: u64)
        ensures
            millis == (self.nanos / 1_000_000) % 0x1_0000_0000_0000_0000,
    {
        let whole: u128 = self.nanos / 1_000_000;
        let low: u128 = whole % 0x1_0000_0000_0000_0000;
        low as u64
    }

    /// The span from `earlier` to `self`, and no time at all where `earlier`
    /// is the later of the two.
    pub fn since(&self, earlier: TimeSpan) -> (span: TimeSpan)
        ensures
            span.nanos == if self.nanos >= earlier.nanos {
                self.nanos - earlier.nanos
            } else {
                0
            },
    {
        if self.nanos >= earlier.nanos {
            TimeSpan { nanos: self.nanos - earlier.nanos }
        } else {
            TimeSpan { nanos: 0 }
        }
    }
}

} // verus!
