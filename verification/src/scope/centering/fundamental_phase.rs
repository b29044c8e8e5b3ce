//! Centering on the phase of the fundamental.
//!
//! The period of the signal is picked from its cumulative mean normalized
//! difference, which the caller computes over the search range; the phase of
//! the fundamental, measured over the cycles that the period spans, then
//! gives the index at which a cycle starts.

use vstd::prelude::*;
use crate::sample::Sample;
use crate::scope::centering::SearchRange;

verus! {

/// A full turn of the phase.
pub const FULL_TURN: u64 = 0x1_0000_0000;

/// The period of a signal and the phase of its fundamental.
#[derive(Clone, Copy, Debug, PartialEq, Eq, Structural)]
pub struct Pitch {
    /// The period, in samples.
    pub period: usize,
    /// The phase of the fundamental, counted from half a turn before zero:
    /// `turn / FULL_TURN` of a cycle.
    pub turn: u32,
}

/// `turn / FULL_TURN` of `period` samples, rounded to the nearest sample.
pub open spec fn phase_shift(period: nat, turn: nat) -> nat {
    (turn * period + 0x8000_0000) / 0x1_0000_0000
}

/// The index at which the cycle starts: one period into the search range,
/// less the shift that the phase stands for.
pub open spec fn phase_center(start: int, pitch: Pitch) -> int {
    start + pitch.period - phase_shift(pitch.period as nat, pitch.turn as nat)
}

/// The signal changes sign at `i`: the sample before `i` carries a negative
/// sign and the sample at `i` does not.
pub open spec fn sign_rises<S: Sample>(data: Seq<S>, i: int) -> bool {
    &&& 1 <= i < data.len()
    &&& data[i - 1].spec_sign_negative()
    &&& !data[i].spec_sign_negative()
}

/// `snapped` is the first index from `center` on, and less than `period`
/// samples after it, at which the sign rises; or `center`, where there is
/// none.
pub open spec fn is_snapped<S: Sample>(data: Seq<S>, center: int, period: int, snapped: int) -> bool {
    if exists|i: int| center <= i < center + period && sign_rises(data, i) {
        &&& center <= snapped < center + period
        &&& sign_rises(data, snapped)
        &&& forall|i: int| center <= i < snapped ==> !sign_rises(data, i)
    } else {
        snapped == center
    }
}

/// The first index from 2 on at which the difference function falls below
/// `threshold`.
pub open spec fn is_first_dip<S: Sample>(difference: Seq<S>, threshold: S, dip: int) -> bool {
    &&& 2 <= dip < difference.len()
    &&& difference[dip].spec_less(threshold)
    &&& forall|t: int| 2 <= t < dip ==> !difference[t].spec_less(threshold)
}

/// `period` is the bottom of the descent that starts at `dip`: the
/// difference function falls at every step from `dip` to `period`, and not
/// at the step after `period`.
pub open spec fn is_bottom_of<S: Sample>(difference: Seq<S>, dip: int, period: int) -> bool {
    &&& dip <= period < difference.len()
    &&& forall|t: int| dip <= t < period ==> (#[trigger] difference[t + 1]).spec_less(difference[t])
    &&& (period + 1 < difference.len() ==> !difference[period + 1].spec_less(difference[period]))
}

/// `period` is the period that the difference function shows: the bottom of
/// the descent from its first dip below `threshold`; or, where it never dips,
/// its length, and 2 where it is shorter than that.
pub open spec fn is_period<S: Sample>(difference: Seq<S>, threshold: S, period: int) -> bool {
    &&& (forall|t: int| 2 <= t < difference.len() ==> !(#[trigger] difference[t]).spec_less(threshold))
        ==> period == if difference.len() >= 2 {
        difference.len() as int
    } else {
        2
    }
    &&& forall|dip: int| #[trigger]
        is_first_dip(difference, threshold, dip) ==> is_bottom_of(difference, dip, period)
}

/// Whether `pitch` can be used over `range` of data of `len` samples: the
/// range lies within the data, and two periods fit into it.
pub open spec fn pitch_fits(len: nat, range: SearchRange, pitch: Pitch) -> bool {
    &&& range.start <= range.end <= len
    &&& pitch.period <= range.reach()
}

/// Centers on the start of a cycle of the fundamental.
#[derive(Debug)]
pub struct FundamentalPhase<S> {
    threshold: S,
    snap_to_crossings: bool,
    last_tau: usize,
}

impl<S: Sample> FundamentalPhase<S> {
    /// How strict the detection of a period is.
    pub closed spec fn spec_threshold(&self) -> S {
        self.threshold
    }

    /// Whether the center is moved on to the next change of sign.
    pub closed spec fn spec_snap_to_crossings(&self) -> bool {
        self.snap_to_crossings
    }

    /// The period that was picked last.
    pub closed spec fn spec_last_tau(&self) -> usize {
        self.last_tau
    }

    /// An algorithm that takes a dip of the difference function below
    /// `threshold` for a period.
    pub fn new(threshold: S, snap_to_crossings: bool) -> (r: Self)
        ensures
            r.threshold() == threshold,
            r.snap_to_crossings() == snap_to_crossings,
            r.last_tau() == 0,
    {
        FundamentalPhase { threshold, snap_to_crossings, last_tau: 0 }
    }

    /// How strict the detection of a period is.
    #[verifier::when_used_as_spec(spec_threshold)]
    pub fn threshold(&self) -> (r: S)
        ensures
            r == self.threshold(),
    {
        self.threshold
    }

    /// Whether the center is moved on to the next change of sign.
    #[verifier::when_used_as_spec(spec_snap_to_crossings)]
    pub fn snap_to_crossings(&self) -> (r: bool)
        ensures
            r == self.snap_to_crossings(),
    {
        self.snap_to_crossings
    }

    /// The period that was picked last.
    #[verifier::when_used_as_spec(spec_last_tau)]
    pub fn last_tau(&self) -> (r: usize)
        ensures
            r == self.last_tau(),
    {
        self.last_tau
    }

    /// Sets how strict the detection of a period is.
    pub fn set_threshold(&mut self, threshold: S)
        ensures
            final(self).threshold() == threshold,
            final(self).snap_to_crossings() == old(self).snap_to_crossings(),
            final(self).last_tau() == old(self).last_tau(),
    {
        self.threshold = threshold;
    }

    /// Sets whether the center is moved on to the next change of sign.
    pub fn set_snap_to_crossings(&mut self, snap_to_crossings: bool)
        ensures
            final(self).threshold() == old(self).threshold(),
            final(self).snap_to_crossings() == snap_to_crossings,
            final(self).last_tau() == old(self).last_tau(),
    {
        self.snap_to_crossings = snap_to_crossings;
    }

    /// Picks the period from the cumulative mean normalized difference of
    /// the signal, and remembers it.
    pub fn pick_period(&mut self, difference: &[S]) -> (period: usize)
        ensures
            is_period(difference@, old(self).threshold(), period as int),
            2 <= period,
            period <= difference@.len() || period == 2,
            final(self).last_tau() == period,
            final(self).threshold() == old(self).threshold(),
            final(self).snap_to_crossings() == old(self).snap_to_crossings(),
    {
        let len = difference.len();
        let threshold = self.threshold;
        let mut tau: usize = 2;
        while tau < len
            invariant
                2 <= tau,
                tau <= len || tau == 2,
                len == difference@.len(),
                *self == *old(self),
                threshold == self.threshold,
                forall|t: int| 2 <= t < tau ==> !(#[trigger] difference@[t]).spec_less(threshold),
            decreases len - tau,
        {
            if difference[tau].less(threshold) {
                let ghost dip = tau as int;
                while tau + 1 < len && difference[tau + 1].less(difference[tau])
                    invariant
                        2 <= dip <= tau < len,
                        len == difference@.len(),
                        *self == *old(self),
                        forall|t: int| dip <= t < tau ==> (#[trigger] difference@[t + 1]).spec_less(difference@[t]),
                    decreases len - tau,
                {
                    tau += 1;
                }
                self.last_tau = tau;
                return tau;
            }
            tau += 1;
        }
        self.last_tau = tau;
        tau
    }

    /// The center for the period and phase in `pitch`: one period into the
    /// search range, less the shift that the phase stands for; and from
    /// there on to the next change of sign within one period, where the
    /// algorithm snaps to crossings.
    pub fn center(&mut self, data: &[S], center_range: &SearchRange, pitch: &Pitch) -> (r: usize)
        requires
            pitch_fits(data@.len(), *center_range, *pitch),
        ensures
            *final(self) == *old(self),
            center_range.contains(r),
            if old(self).snap_to_crossings() {
                is_snapped(data@, phase_center(center_range.start as int, *pitch), pitch.period as int, r as int)
            } else {
                r == phase_center(center_range.start as int, *pitch)
            },
    {
        let period = pitch.period;
        assert(pitch.turn * period <= 0xffff_ffff * 0xffff_ffff_ffff_ffff) by (nonlinear_arith)
            requires
                pitch.turn <= 0xffff_ffff,
                period <= 0xffff_ffff_ffff_ffff,
        ;
        let scaled: u128 = pitch.turn as u128 * period as u128 + 0x8000_0000;
        let shift: u128 = scaled / 0x1_0000_0000;
        assert(shift <= period) by (nonlinear_arith)
            requires
                shift == (pitch.turn * period + 0x8000_0000) / 0x1_0000_0000,
                pitch.turn <= 0xffff_ffff,
                period >= 0,
        ;
        let center = center_range.start + period - shift as usize;
        if self.snap_to_crossings {
            let len = data.len();
            let mut i: usize = center;
            while i < center + period
                invariant
                    center <= i <= center + period,
                    center_range.start <= center,
                    center + period <= center_range.end,
                    center_range.end <= len,
                    len == data@.len(),
                    center == phase_center(center_range.start as int, *pitch),
                    period == pitch.period,
                    *self == *old(self),
                    self.snap_to_crossings,
                    forall|j: int| center <= j < i ==> !sign_rises(data@, j),
                decreases center + period - i,
            {
                if 1 <= i && i < len && data[i - 1].sign_negative() && !data[i].sign_negative() {
                    assert(sign_rises(data@, i as int));
                    return i;
                }
                i += 1;
            }
        }
        center
    }
}

/// Only one period fits a difference function.
pub proof fn lemma_period_unique<S: Sample>(difference: Seq<S>, threshold: S, a: int, b: int)
    requires
        is_period(difference, threshold, a),
        is_period(difference, threshold, b),
    ensures
        a == b,
{
    if exists|t: int| 2 <= t < difference.len() && difference[t].spec_less(threshold) {
        let t = choose|t: int| 2 <= t < difference.len() && difference[t].spec_less(threshold);
        let dip = lemma_first_dip(difference, threshold, t);
        assert(is_bottom_of(difference, dip, a) && is_bottom_of(difference, dip, b));
    }
}

/// The first dip, given that the difference function dips at `t`.
proof fn lemma_first_dip<S: Sample>(difference: Seq<S>, threshold: S, t: int) -> (dip: int)
    requires
        2 <= t < difference.len(),
        difference[t].spec_less(threshold),
    ensures
        is_first_dip(difference, threshold, dip),
    decreases t,
{
    if exists|u: int| 2 <= u < t && difference[u].spec_less(threshold) {
        let u = choose|u: int| 2 <= u < t && difference[u].spec_less(threshold);
        lemma_first_dip(difference, threshold, u)
    } else {
        t
    }
}

} // verus!
