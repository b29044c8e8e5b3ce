//! Lengths of time, and the number of frames they hold at a sample rate.

use vstd::prelude::*;

verus! {

/// The number of nanoseconds in a second.
pub const NANOS_PER_SEC: u64 = 1_000_000_000;

/// The number of frames that `nanos` nanoseconds hold at `rate` frames per
/// second, rounded to the nearest whole frame (halves round up).
pub open spec fn frame_count(nanos: nat, rate: nat) -> nat {
    (nanos * rate + 500_000_000) / 1_000_000_000
}

/// The length in nanoseconds of `frames` frames at `rate` frames per second,
/// rounded to the nearest nanosecond.
pub open spec fn span_of_frames(frames: nat, rate: nat) -> nat
    recommends
        rate > 0,
{
    (2 * frames * 1_000_000_000 + rate) / (2 * rate)
}

/// A length of time, held in whole nanoseconds.
#[derive(Clone, Copy, Debug, PartialEq, Eq, Structural)]
pub struct Duration {
    pub nanos: u64,
}

impl Duration {
    /// A length of `nanos` nanoseconds.
    pub fn from_nanos(nanos: u64) -> (r: Duration)
        ensures
            r.nanos == nanos,
    {
        Duration { nanos }
    }

    /// A length of `millis` milliseconds.
    pub fn from_millis(millis: u32) -> (r: Duration)
        ensures
            r.nanos == millis * 1_000_000,
    {
        Duration { nanos: millis as u64 * 1_000_000 }
    }

    /// The time that `frames` frames take at `rate` frames per second.
    pub fn from_frames(frames: u32, rate: u32) -> (r: Duration)
        requires
            rate > 0,
        ensures
            r.nanos == span_of_frames(frames as nat, rate as nat),
    {
        let twice: u64 = 2 * (frames as u64) * NANOS_PER_SEC + rate as u64;
        let divisor: u64 = 2 * (rate as u64);
        Duration { nanos: twice / divisor }
    }

    /// The sum of two lengths; it stops at the longest length that can be held.
    pub open spec fn spec_saturating_add(self, other: Duration) -> Duration {
        Duration {
            nanos: if self.nanos + other.nanos > u64::MAX {
                u64::MAX
            } else {
                (self.nanos + other.nanos) as u64
            },
        }
    }

    /// The sum of two lengths; it stops at the longest length that can be held.
    #[verifier::when_used_as_spec(spec_saturating_add)]
    pub fn saturating_add(self, other: Duration) -> (r: Duration)
        ensures
            r == self.saturating_add(other),
    {
        if self.nanos > u64::MAX - other.nanos {
            Duration { nanos: u64::MAX }
        } else {
            Duration { nanos: self.nanos + other.nanos }
        }
    }

    /// Half of the length, rounded down to a whole nanosecond.
    pub open spec fn spec_half(self) -> Duration {
        Duration { nanos: self.nanos / 2 }
    }

    /// Half of the length, rounded down to a whole nanosecond.
    #[verifier::when_used_as_spec(spec_half)]
    pub fn half(self) -> (r: Duration)
        ensures
            r == self.half(),
    {
        Duration { nanos: self.nanos / 2 }
    }

    /// The longer of two lengths.
    pub open spec fn spec_max(self, other: Duration) -> Duration {
        if self.nanos >= other.nanos {
            self
        } else {
            other
        }
    }

    /// The longer of two lengths.
    #[verifier::when_used_as_spec(spec_max)]
    pub fn max(self, other: Duration) -> (r: Duration)
        ensures
            r == self.max(other),
    {
        if self.nanos >= other.nanos {
            self
        } else {
            other
        }
    }

    /// The number of frames that the length holds at `rate`.
    pub open spec fn frames_at(self, rate: u32) -> nat {
        frame_count(self.nanos as nat, rate as nat)
    }

    /// The number of frames that the length holds at `rate`, or `None` where
    /// that number does not fit in `usize`.
    pub fn frames(self, rate: u32) -> (r: Option<usize>)
        ensures
            r == if self.frames_at(rate) <= usize::MAX {
                Some(self.frames_at(rate) as usize)
            } else {
                None
            },
    {
        assert(self.nanos * rate <= 0xffff_ffff_ffff_ffff * 0xffff_ffff) by (nonlinear_arith)
            requires
                self.nanos <= 0xffff_ffff_ffff_ffff,
                rate <= 0xffff_ffff,
        ;
        let product: u128 = self.nanos as u128 * rate as u128;
        let count: u128 = (product + 500_000_000) / 1_000_000_000;
        if count <= usize::MAX as u128 {
            Some(count as usize)
        } else {
            None
        }
    }
}

/// More time never holds fewer frames.
pub proof fn lemma_frame_count_monotonic(shorter: nat, longer: nat, rate: nat)
    requires
        shorter <= longer,
    ensures
        frame_count(shorter, rate) <= frame_count(longer, rate),
{
    assert(shorter * rate <= longer * rate) by (nonlinear_arith)
        requires
            shorter <= longer,
    ;
}

/// `frame_count` rounds to the nearest frame: what it gives is no more than
/// half a frame away from `nanos * rate / 1_000_000_000`, and a half rounds
/// up.
pub proof fn lemma_frame_count_rounds(nanos: nat, rate: nat)
    ensures
        frame_count(nanos, rate) * 1_000_000_000 - 500_000_000 <= nanos * rate,
        nanos * rate < frame_count(nanos, rate) * 1_000_000_000 + 500_000_000,
{
    let shifted = (nanos * rate + 500_000_000) as int;
    vstd::arithmetic::div_mod::lemma_fundamental_div_mod(shifted, 1_000_000_000);
    vstd::arithmetic::div_mod::lemma_mod_bound(shifted, 1_000_000_000);
}

} // verus!
