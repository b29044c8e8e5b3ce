//! No centering: the trace is shown as it comes.

use vstd::prelude::*;
use crate::sample::Sample;
use crate::scope::centering::SearchRange;

verus! {

/// Always picks the midpoint of the data.
#[derive(Clone, Copy, Debug, Default)]
pub struct NoCentering;

impl NoCentering {
    /// The midpoint of `data`, whatever it holds and wherever the search
    /// range lies.
    pub fn center<S: Sample>(&self, data: &[S], center_range: &SearchRange) -> (r: usize)
        ensures
            r == data@.len() / 2,
    {
        data.len() / 2
    }
}

} // verus!
