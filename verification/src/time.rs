//! Lengths of time as plain numbers.
//!
//! The library never reads a clock. A caller that owns one hands in how much
//! time has gone by since an origin of its choosing, and gets back decisions.

use vstd::prelude::*;

verus! {

/// A length of time, counted in nanoseconds.
///
/// A `Span` also serves as a point in time: the time gone by since the
/// caller's origin.
#[derive(Debug, Clone, Copy, PartialEq, Eq, PartialOrd, Ord, Hash, Structural)]
pub struct Span {
    pub nanos: u128,
}

pub const NANOS_PER_MILLI: u128 = 1_000_000;

pub const NANOS_PER_SEC: u128 = 1_000_000_000;

impl Span {
    /// The span of no length.
    pub fn zero() -> (s: Span)
        ensures
            s.nanos == 0,
    {
        Span { nanos: 0 }
    }

    pub fn from_nanos(nanos: u128) -> (s: Span)
        ensures
            s.nanos == nanos,
    {
        Span { nanos }
    }

    pub fn from_millis(millis: u64) -> (s: Span)
        ensures
            s.nanos == millis * NANOS_PER_MILLI,
    {
        Span { nanos: (millis as u128) * NANOS_PER_MILLI }
    }

    pub fn from_secs(secs: u64) -> (s: Span)
        ensures
            s.nanos == secs * NANOS_PER_SEC,
    {
        Span { nanos: (secs as u128) * NANOS_PER_SEC }
    }

    pub fn as_nanos(&self) -> (n: u128)
        ensures
            n == self.nanos,
    {
        self.nanos
    }

    /// The whole milliseconds in the span.
    pub fn as_millis(&self) -> (n: u128)
        ensures
            n == self.nanos / NANOS_PER_MILLI,
    {
        self.nanos / NANOS_PER_MILLI
    }

    /// The time from `earlier` to `self`; nothing where `earlier` is the later one.
    pub open spec fn since(self, earlier: Span) -> nat {
        if self.nanos >= earlier.nanos {
            (self.nanos - earlier.nanos) as nat
        } else {
            0
        }
    }

    /// The time from `earlier` to `self`, never negative.
    pub fn elapsed_since(&self, earlier: &Span) -> (d: Span)
        ensures
            d.nanos == self.since(*earlier),
    {
        if self.nanos >= earlier.nanos {
            Span { nanos: self.nanos - earlier.nanos }
        } else {
            Span { nanos: 0 }
        }
    }
}

} // verus!
