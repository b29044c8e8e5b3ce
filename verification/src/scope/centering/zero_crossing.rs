//! Centering on the rising zero crossing that is nearest to the midpoint.

use vstd::prelude::*;
use crate::sample::Sample;
use crate::scope::centering::SearchRange;

verus! {

/// The signal rises through zero between `i` and `i + 1`: it is at most zero
/// at `i` and at least zero at `i + 1`.
pub open spec fn rising<S: Sample>(data: Seq<S>, i: int) -> bool {
    &&& 0 <= i
    &&& i + 1 < data.len()
    &&& data[i].spec_at_most(S::spec_zero())
    &&& S::spec_zero().spec_at_most(data[i + 1])
}

/// The midpoint of the data.
pub open spec fn midpoint<S>(data: Seq<S>) -> int {
    data.len() as int / 2
}

/// The signal rises through zero at `i`, and `i` lies in the search range.
pub open spec fn crossing<S: Sample>(data: Seq<S>, range: SearchRange, i: int) -> bool {
    range.start <= i <= range.end && rising(data, i)
}

/// A rising zero crossing of the search range lies `distance` samples to the
/// left or to the right of the midpoint.
pub open spec fn crossing_at<S: Sample>(data: Seq<S>, range: SearchRange, distance: int) -> bool {
    crossing(data, range, midpoint(data) - distance) || crossing(data, range, midpoint(data) + distance)
}

/// `center` is the rising zero crossing of the search range that is nearest
/// to the midpoint, the left one where two are equally near; or the midpoint,
/// where the range holds none.
pub open spec fn is_nearest_crossing<S: Sample>(data: Seq<S>, range: SearchRange, center: int) -> bool {
    &&& (forall|d: int| 0 <= d ==> !crossing_at(data, range, d)) ==> center == midpoint(data)
    &&& forall|d: int|
        0 <= d && #[trigger] crossing_at(data, range, d) && (forall|e: int|
            0 <= e < d ==> !crossing_at(data, range, e)) ==> center == if crossing(
            data,
            range,
            midpoint(data) - d,
        ) {
            midpoint(data) - d
        } else {
            midpoint(data) + d
        }
}

/// Centers on the rising zero crossing nearest to the midpoint.
#[derive(Clone, Copy, Debug, Default)]
pub struct ZeroCrossing;

impl ZeroCrossing {
    /// Whether the signal rises through zero at `i`, within the search range.
    fn is_crossing<S: Sample>(data: &[S], center_range: &SearchRange, i: usize) -> (r: bool)
        ensures
            r == crossing(data@, *center_range, i as int),
    {
        center_range.start <= i && i <= center_range.end && i < data.len() && i + 1 < data.len()
            && data[i].at_most(S::zero()) && S::zero().at_most(data[i + 1])
    }

    /// Scans outward from the midpoint of `data`, at each distance first to
    /// the left and then to the right, for a rising zero crossing that lies
    /// in `center_range`.
    pub fn center<S: Sample>(&mut self, data: &[S], center_range: &SearchRange) -> (r: usize)
        ensures
            is_nearest_crossing(data@, *center_range, r as int),
            center_range.contains(r) || r == midpoint(data@),
            r <= data@.len(),
    {
        let len = data.len();
        let center = len / 2;
        let mut distance: usize = 0;
        while distance < len
            invariant
                distance <= len,
                len == data@.len(),
                center == midpoint(data@),
                forall|d: int| 0 <= d < distance ==> !crossing_at(data@, *center_range, d),
            decreases len - distance,
        {
            if distance <= center && Self::is_crossing(data, center_range, center - distance) {
                assert(crossing_at(data@, *center_range, distance as int));
                return center - distance;
            }
            if distance < len - center && Self::is_crossing(data, center_range, center + distance) {
                assert(crossing_at(data@, *center_range, distance as int));
                return center + distance;
            }
            distance += 1;
        }
        center
    }
}

/// Only one index can be the nearest crossing.
pub proof fn lemma_nearest_crossing_unique<S: Sample>(data: Seq<S>, range: SearchRange, a: int, b: int)
    requires
        is_nearest_crossing(data, range, a),
        is_nearest_crossing(data, range, b),
    ensures
        a == b,
{
    if exists|d: int| 0 <= d && crossing_at(data, range, d) {
        let d = choose|d: int| 0 <= d && crossing_at(data, range, d);
        let first = lemma_first_crossing(data, range, d);
        assert(crossing_at(data, range, first));
    }
}

/// The least distance at which a crossing lies, given that one lies at
/// distance `d`.
proof fn lemma_first_crossing<S: Sample>(data: Seq<S>, range: SearchRange, d: int) -> (first: int)
    requires
        0 <= d,
        crossing_at(data, range, d),
    ensures
        0 <= first <= d,
        crossing_at(data, range, first),
        forall|e: int| 0 <= e < first ==> !crossing_at(data, range, e),
    decreases d,
{
    if exists|e: int| 0 <= e < d && crossing_at(data, range, e) {
        let e = choose|e: int| 0 <= e < d && crossing_at(data, range, e);
        lemma_first_crossing(data, range, e)
    } else {
        d
    }
}

/// Where the signal rises through zero at `k` and nowhere else, and `k` lies
/// in the search range, the nearest crossing is `k`.
pub proof fn lemma_single_crossing<S: Sample>(data: Seq<S>, range: SearchRange, k: int, center: int)
    requires
        is_nearest_crossing(data, range, center),
        rising(data, k),
        forall|i: int| rising(data, i) ==> i == k,
        range.start <= k <= range.end,
    ensures
        center == k,
{
    let d = if k <= midpoint(data) {
        midpoint(data) - k
    } else {
        k - midpoint(data)
    };
    assert(crossing_at(data, range, d));
}

/// Of two crossings equally far from the midpoint, the left one is picked,
/// provided that none lies nearer.
pub proof fn lemma_left_before_right<S: Sample>(data: Seq<S>, range: SearchRange, d: int, center: int)
    requires
        is_nearest_crossing(data, range, center),
        0 <= d,
        crossing(data, range, midpoint(data) - d),
        crossing(data, range, midpoint(data) + d),
        forall|e: int| 0 <= e < d ==> !crossing_at(data, range, e),
    ensures
        center == midpoint(data) - d,
{
    assert(crossing_at(data, range, d));
}

/// How far `i` lies from the midpoint of the data.
pub open spec fn distance<S>(data: Seq<S>, i: int) -> int {
    if i >= midpoint(data) {
        i - midpoint(data)
    } else {
        midpoint(data) - i
    }
}

/// A crossing that lies nearer to the midpoint than any other is picked.
#[verifier::spinoff_prover]
#[verifier::rlimit(40)]
pub proof fn lemma_nearer_wins<S: Sample>(data: Seq<S>, range: SearchRange, k: int, center: int)
    requires
        is_nearest_crossing(data, range, center),
        crossing(data, range, k),
        forall|i: int| crossing(data, range, i) && i != k ==> distance(data, k) < distance(data, i),
    ensures
        center == k,
{
    let d = distance(data, k);
    assert(crossing_at(data, range, d));
    assert forall|e: int| 0 <= e < d implies !crossing_at(data, range, e) by {
        if crossing(data, range, midpoint(data) - e) {
            assert(distance(data, midpoint(data) - e) == e);
        }
        if crossing(data, range, midpoint(data) + e) {
            assert(distance(data, midpoint(data) + e) == e);
        }
    }
    if d > 0 && k == midpoint(data) + d && crossing(data, range, midpoint(data) - d) {
        assert(distance(data, midpoint(data) - d) == d);
    }
}

} // verus!
