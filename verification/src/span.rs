//! Lengths of time with nanosecond precision.

use vstd::prelude::*;

verus! {

/// Nanoseconds in one second.
pub const NANOS_PER_SEC: u32 = 1_000_000_000;

/// A length of time: whole seconds and a fraction counted in nanoseconds.
#[derive(Clone, Copy, Debug, PartialEq, Eq, Structural)]
pub struct Span {
    pub secs: u64,
    pub nanos: u32,
}

impl Span {
    /// The fraction is less than one second.
    pub open spec fn wf(self) -> bool {
        self.nanos < NANOS_PER_SEC
    }

    /// The whole length in nanoseconds.
    pub open spec fn total_nanos(self) -> nat {
        (self.secs * NANOS_PER_SEC + self.nanos) as nat
    }

    /// The span of `total` nanoseconds.
    pub open spec fn of_nanos(total: nat) -> Span {
        Span {
            secs: (total / (NANOS_PER_SEC as nat)) as u64,
            nanos: (total % (NANOS_PER_SEC as nat)) as u32,
        }
    }

    /// Whole seconds in this span after it has been stretched `factor` times,
    /// the fraction of a second left over being dropped.
    pub open spec fn stretched_secs(self, factor: u32) -> nat {
        self.total_nanos() * (factor as nat) / (NANOS_PER_SEC as nat)
    }

    /// A span of whole seconds.
    pub fn from_secs(secs: u64) -> (r: Span)
        ensures
            r == (Span { secs, nanos: 0 }),
            r.wf(),
            r.total_nanos() == secs * NANOS_PER_SEC,
    {
        Span { secs, nanos: 0 }
    }

    /// This span cut into `parts` equal parts, rounded down to the nanosecond.
    pub fn divided_by(self, parts: u32) -> (r: Span)
        requires
            self.wf(),
            parts > 0,
        ensures
            r.wf(),
            r.total_nanos() == self.total_nanos() / (parts as nat),
            r == Span::of_nanos(self.total_nanos() / (parts as nat)),
    {
        let unit: u128 = 1_000_000_000;
        let total: u128 = (self.secs as u128) * unit + (self.nanos as u128);
        let part: u128 = total / (parts as u128);
        assert(part <= total) by (nonlinear_arith)
            requires
                part == total / (parts as u128),
                parts > 0,
        ;
        let secs: u128 = part / unit;
        let nanos: u128 = part % unit;
        Span { secs: secs as u64, nanos: nanos as u32 }
    }

    /// Half of this span.
    pub fn half(self) -> (r: Span)
        requires
            self.wf(),
        ensures
            r.wf(),
            r.total_nanos() == self.total_nanos() / 2,
    {
        self.divided_by(2)
    }

    /// The whole seconds of this span stretched `factor` times, or `u64::MAX`
    /// where they do not fit.
    pub fn stretch_secs(self, factor: u32) -> (r: u64)
        ensures
            r == if self.stretched_secs(factor) <= u64::MAX {
                self.stretched_secs(factor)
            } else {
                u64::MAX as nat
            },
    {
        let unit: u128 = 1_000_000_000;
        let total: u128 = (self.secs as u128) * unit + (self.nanos as u128);
        assert(total * (factor as u128) <= u128::MAX) by (nonlinear_arith)
            requires
                total <= 0xffff_ffff_ffff_ffff * 1_000_000_000 + 0xffff_ffff,
                factor <= 0xffff_ffff,
        ;
        let stretched: u128 = total * (factor as u128) / unit;
        if stretched > u64::MAX as u128 {
            u64::MAX
        } else {
            stretched as u64
        }
    }
}

} // verus!
