//! Spans of time.

use vstd::prelude::*;

verus! {

/// Nanoseconds in a second.
pub const NANOS_PER_SEC: u32 = 1_000_000_000;

/// A span of time in whole seconds and nanoseconds below one second.
#[derive(Clone, Copy, Debug, PartialEq, Eq)]
pub struct TimeSpan {
    secs: u64,
    nanos: u32,
}

impl View for TimeSpan {
    type V = nat;

    /// The span in nanoseconds.
    open spec fn view(&self) -> nat {
        self.secs() as nat * NANOS_PER_SEC as nat + self.nanos() as nat
    }
}

impl TimeSpan {
    /// Whole seconds of the span.
    pub closed spec fn secs(self) -> u64 {
        self.secs
    }

    /// Nanoseconds beyond the whole seconds.
    pub closed spec fn nanos(self) -> u32 {
        self.nanos
    }

    #[verifier::type_invariant]
    spec fn wf(self) -> bool {
        self.nanos < NANOS_PER_SEC
    }

    /// A span of `secs` seconds and `nanos` nanoseconds.
    pub fn new(secs: u64, nanos: u32) -> (span: Self)
        requires
            secs + nanos / NANOS_PER_SEC <= u64::MAX,
        ensures
            span.secs() == secs + nanos / 1_000_000_000,
            span.nanos() == nanos % 1_000_000_000,
            span@ == secs * 1_000_000_000 + nanos,
    {
        TimeSpan {
            secs: secs + (nanos / NANOS_PER_SEC) as u64,
            nanos: nanos % NANOS_PER_SEC,
        }
    }

    pub fn from_secs(secs: u64) -> (span: Self)
        ensures
            span.secs() == secs,
            span.nanos() == 0,
            span@ == secs * 1_000_000_000,
    {
        TimeSpan { secs, nanos: 0 }
    }

    pub fn as_secs(&self) -> (secs: u64)
        ensures
            secs == self.secs(),
            secs == self@ / 1_000_000_000,
    {
        proof {
            use_type_invariant(self);
        }
        self.secs
    }

    pub fn subsec_nanos(&self) -> (nanos: u32)
        ensures
            nanos == self.nanos(),
            nanos == self@ % 1_000_000_000,
    {
        proof {
            use_type_invariant(self);
        }
        self.nanos
    }

    /// Whether this span is longer than `other`.
    pub fn exceeds(&self, other: &Self) -> (longer: bool)
        ensures
            longer == (self@ > other@),
    {
        proof {
            use_type_invariant(self);
            use_type_invariant(other);
        }
        self.secs > other.secs || self.secs == other.secs && self.nanos > other.nanos
    }

    /// The two spans one after the other.
    pub fn plus(&self, other: &Self) -> (total: Self)
        requires
            self@ + other@ < (u64::MAX + 1) * NANOS_PER_SEC,
        ensures
            total@ == self@ + other@,
    {
        proof {
            use_type_invariant(self);
            use_type_invariant(other);
        }
        let nanos: u32 = self.nanos + other.nanos;
        if nanos >= NANOS_PER_SEC {
            TimeSpan { secs: self.secs + other.secs + 1, nanos: nanos - NANOS_PER_SEC }
        } else {
            TimeSpan { secs: self.secs + other.secs, nanos }
        }
    }
}

} // verus!
