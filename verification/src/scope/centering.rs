//! The algorithms that pick the sample on which a scope centers its trace.

pub mod fundamental_phase;
pub mod none;
pub mod zero_crossing;

use vstd::prelude::*;
use crate::sample::Sample;
use crate::scope::centering::fundamental_phase::{
    is_snapped, phase_center, pitch_fits, FundamentalPhase, Pitch,
};
use crate::scope::centering::none::NoCentering;
use crate::scope::centering::zero_crossing::{is_nearest_crossing, midpoint, ZeroCrossing};

verus! {

/// The indices among which a center is looked for, both ends included.
#[derive(Clone, Copy, Debug, PartialEq, Eq, Structural)]
pub struct SearchRange {
    pub start: usize,
    pub end: usize,
}

impl SearchRange {
    /// Half the width of the range; nothing for a range that ends before it
    /// starts.
    pub open spec fn reach(&self) -> int {
        if self.end >= self.start {
            (self.end - self.start) / 2
        } else {
            0
        }
    }

    /// Half the width of the range.
    pub fn half_width(&self) -> (r: usize)
        ensures
            r == self.reach(),
    {
        if self.end >= self.start {
            (self.end - self.start) / 2
        } else {
            0
        }
    }

    /// Whether `index` lies in the range.
    pub open spec fn spec_contains(&self, index: usize) -> bool {
        self.start <= index <= self.end
    }

    /// Whether `index` lies in the range.
    #[verifier::when_used_as_spec(spec_contains)]
    pub fn contains(&self, index: usize) -> (r: bool)
        ensures
            r == self.contains(index),
    {
        self.start <= index && index <= self.end
    }
}

/// The algorithm by which a scope centers its trace.
pub enum Centering<S> {
    NoCentering(NoCentering),
    ZeroCrossing(ZeroCrossing),
    FundamentalPhase(FundamentalPhase<S>),
}

impl<S: Sample> Centering<S> {
    /// `center` is the index that the algorithm picks in `data`, looking
    /// among `range`, where the signal was found to have `pitch`.
    ///
    /// The phase of the fundamental cannot be followed without a pitch that
    /// fits the range: the midpoint is picked then.
    pub open spec fn is_center(self, data: Seq<S>, range: SearchRange, pitch: Option<Pitch>, center: int) -> bool {
        match self {
            Centering::NoCentering(_) => center == midpoint(data),
            Centering::ZeroCrossing(_) => is_nearest_crossing(data, range, center),
            Centering::FundamentalPhase(algorithm) => match pitch {
                Some(pitch) if pitch_fits(data.len(), range, pitch) => if algorithm.snap_to_crossings() {
                    is_snapped(data, phase_center(range.start as int, pitch), pitch.period as int, center)
                } else {
                    center == phase_center(range.start as int, pitch)
                },
                _ => center == midpoint(data),
            },
        }
    }

    /// Whether the algorithm reads the pitch of the signal.
    pub fn needs_pitch(&self) -> (r: bool)
        ensures
            r == (self is FundamentalPhase),
    {
        match self {
            Centering::FundamentalPhase(_) => true,
            _ => false,
        }
    }

    /// The index on which to center `data`.
    pub fn center(&mut self, data: &[S], center_range: &SearchRange, pitch: Option<Pitch>) -> (r: usize)
        ensures
            *final(self) == *old(self),
            old(self).is_center(data@, *center_range, pitch, r as int),
            r <= data@.len(),
    {
        match self {
            Centering::NoCentering(algorithm) => algorithm.center(data, center_range),
            Centering::ZeroCrossing(algorithm) => algorithm.center(data, center_range),
            Centering::FundamentalPhase(algorithm) => {
                match pitch {
                    Some(pitch) => {
                        if center_range.start <= center_range.end && center_range.end <= data.len()
                            && pitch.period <= center_range.half_width() {
                            algorithm.center(data, center_range, &pitch)
                        } else {
                            data.len() / 2
                        }
                    },
                    None => data.len() / 2,
                }
            },
        }
    }

    /// The name under which the algorithm is shown.
    pub fn name(&self) -> (r: String)
        ensures
            r@ == match self {
                Centering::NoCentering(_) => "None"@,
                Centering::ZeroCrossing(_) => "Zero Crossing"@,
                Centering::FundamentalPhase(_) => "Fundamental Phase"@,
            },
    {
        match self {
            Centering::NoCentering(_) => "None".to_owned(),
            Centering::ZeroCrossing(_) => "Zero Crossing".to_owned(),
            Centering::FundamentalPhase(_) => "Fundamental Phase".to_owned(),
        }
    }
}

} // verus!
