use rawrscope::{Centering, FundamentalPhase, NoCentering, Pitch, SearchRange, ZeroCrossing};

fn whole(data: &[i32]) -> SearchRange {
    SearchRange { start: 0, end: data.len() }
}

#[test]
fn search_range_reach_and_contains() {
    let range = SearchRange { start: 10, end: 31 };
    assert_eq!(range.half_width(), 10);
    assert!(range.contains(10));
    assert!(range.contains(31));
    assert!(!range.contains(9));
    assert!(!range.contains(32));
    assert_eq!(SearchRange { start: 5, end: 2 }.half_width(), 0);
}

#[test]
fn no_centering_picks_the_midpoint() {
    let algorithm = NoCentering;
    assert_eq!(algorithm.center(&[5i32, -3, 8, 1, 0, 7, 2], &SearchRange { start: 0, end: 0 }), 3);
    assert_eq!(algorithm.center(&[1i32; 10], &SearchRange { start: 2, end: 8 }), 5);
    assert_eq!(algorithm.center(&[-1i32], &SearchRange { start: 0, end: 1 }), 0);
    let empty: [i32; 0] = [];
    assert_eq!(algorithm.center(&empty, &SearchRange { start: 0, end: 0 }), 0);
}

#[test]
fn zero_crossing_finds_the_single_crossing() {
    // negative up to index 6, positive from index 7 on
    let mut data = vec![-5i32; 7];
    data.extend(vec![5i32; 9]);
    let mut algorithm = ZeroCrossing;
    assert_eq!(algorithm.center(&data, &whole(&data)), 6);
    // and to the right of the midpoint
    let mut data = vec![-5i32; 11];
    data.extend(vec![5i32; 5]);
    assert_eq!(algorithm.center(&data, &whole(&data)), 10);
}

#[test]
fn zero_crossing_at_the_midpoint() {
    let data = [-1i32, -1, -1, -1, 1, 1, 1, 1];
    let mut algorithm = ZeroCrossing;
    // the midpoint is 4; the crossing lies between 3 and 4
    assert_eq!(algorithm.center(&data, &whole(&data)), 3);
    let data = [-1i32, -1, -1, -1, -1, 1, 1, 1];
    assert_eq!(algorithm.center(&data, &whole(&data)), 4);
}

#[test]
fn zero_crossing_prefers_the_nearer_crossing() {
    //            0   1  2   3   4   5   6  7   8  9
    let data = [-1i32, 1, 1, -1, -1, -1, -1, 1, -1, 1];
    // midpoint 5; crossings at 0, 6 and 8; 6 is nearest
    let mut algorithm = ZeroCrossing;
    assert_eq!(algorithm.center(&data, &whole(&data)), 6);
}

#[test]
fn zero_crossing_checks_the_left_side_first() {
    //           0   1   2  3  4  5   6  7  8  9
    let data = [1i32, 1, -1, 1, 1, 1, -1, 1, 1, 1];
    // midpoint 5; crossings at 2 and 6; 6 is nearer
    let mut algorithm = ZeroCrossing;
    assert_eq!(algorithm.center(&data, &whole(&data)), 6);
    //           0   1   2   3  4  5  6   7  8  9
    let data = [1i32, 1, 1, -1, 1, 1, 1, -1, 1, 1];
    // crossings at 3 and 7, both two samples from the midpoint: left wins
    assert_eq!(algorithm.center(&data, &whole(&data)), 3);
}

#[test]
fn zero_crossing_counts_zero_as_both_sides() {
    let data = [3i32, 3, 3, 0, 0, 3, 3, 3];
    // zero is at most zero and at least zero: the pair at the midpoint rises
    let mut algorithm = ZeroCrossing;
    assert_eq!(algorithm.center(&data, &whole(&data)), 4);
    let data = [3i32, 3, 0, 0, -3, -3, 3, 3];
    // midpoint 4; the pairs at 2 and at 5 rise, and 5 is nearer
    assert_eq!(algorithm.center(&data, &whole(&data)), 5);
    let data = [3i32, 3, 0, 0, -3, -3, -3, 3];
    // the pairs at 2 and at 6 are equally near: left wins
    assert_eq!(algorithm.center(&data, &whole(&data)), 2);
}

#[test]
fn zero_crossing_falls_back_to_the_midpoint() {
    let data = [4i32; 12];
    let mut algorithm = ZeroCrossing;
    assert_eq!(algorithm.center(&data, &whole(&data)), 6);
    let falling = [5i32, 4, 3, 2, 1, -1, -2, -3];
    assert_eq!(algorithm.center(&falling, &whole(&falling)), 4);
}

#[test]
fn zero_crossing_stays_within_the_range() {
    let mut data = vec![-5i32; 3];
    data.extend(vec![5i32; 17]);
    // midpoint 10, crossing at 2
    let mut algorithm = ZeroCrossing;
    assert_eq!(algorithm.center(&data, &SearchRange { start: 3, end: 18 }), 10);
    assert_eq!(algorithm.center(&data, &SearchRange { start: 0, end: 1 }), 10);
    // the crossing lies on the first index of the range
    assert_eq!(algorithm.center(&data, &SearchRange { start: 2, end: 18 }), 2);
    // and on the last one
    assert_eq!(algorithm.center(&data, &SearchRange { start: 0, end: 2 }), 2);
    assert_eq!(algorithm.center(&data, &SearchRange { start: 0, end: 20 }), 2);
    // a range that ends before it starts holds nothing
    assert_eq!(algorithm.center(&data, &SearchRange { start: 20, end: 0 }), 10);
}

#[test]
fn zero_crossing_picks_the_nearest_of_the_range() {
    //            0   1  2   3   4   5   6  7   8  9
    let data = [-1i32, 1, 1, -1, -1, -1, -1, 1, -1, 1];
    // crossings at 0, 6 and 8; the midpoint is 5
    let mut algorithm = ZeroCrossing;
    assert_eq!(algorithm.center(&data, &SearchRange { start: 7, end: 9 }), 8);
    assert_eq!(algorithm.center(&data, &SearchRange { start: 0, end: 5 }), 0);
    assert_eq!(algorithm.center(&data, &SearchRange { start: 1, end: 5 }), 5);
}

#[test]
fn zero_crossing_on_short_data() {
    let mut algorithm = ZeroCrossing;
    let empty: [i32; 0] = [];
    assert_eq!(algorithm.center(&empty, &SearchRange { start: 0, end: 0 }), 0);
    assert_eq!(algorithm.center(&[-1i32], &SearchRange { start: 0, end: 1 }), 0);
    assert_eq!(algorithm.center(&[-1i32, 1], &SearchRange { start: 0, end: 2 }), 0);
    // the pair that starts at the last sample has no second sample
    assert_eq!(algorithm.center(&[1i32, -1], &SearchRange { start: 0, end: 2 }), 1);
}

#[test]
fn period_is_the_bottom_of_the_first_dip() {
    let mut algorithm = FundamentalPhase::new(50i32, false);
    //                 0    1   2   3   4   5   6   7   8   9
    let difference = [100, 90, 80, 70, 40, 30, 20, 25, 10, 60];
    // first below 50 at 4, falling until 6
    assert_eq!(algorithm.pick_period(&difference), 6);
    assert_eq!(algorithm.last_tau(), 6);
}

#[test]
fn period_ignores_the_first_two_lags() {
    let mut algorithm = FundamentalPhase::new(50i32, false);
    let difference = [0, 0, 100, 100, 49, 100];
    assert_eq!(algorithm.pick_period(&difference), 4);
}

#[test]
fn period_runs_to_the_end_of_a_falling_difference() {
    let mut algorithm = FundamentalPhase::new(50i32, false);
    let difference = [100, 100, 100, 40, 30, 20];
    assert_eq!(algorithm.pick_period(&difference), 5);
}

#[test]
fn period_without_a_dip_is_the_whole_length() {
    let mut algorithm = FundamentalPhase::new(50i32, false);
    let difference = [100, 100, 50, 60, 70];
    assert_eq!(algorithm.pick_period(&difference), 5);
    assert_eq!(algorithm.pick_period(&[100, 100]), 2);
    assert_eq!(algorithm.pick_period(&[100]), 2);
    assert_eq!(algorithm.pick_period(&[]), 2);
    assert_eq!(algorithm.last_tau(), 2);
}

#[test]
fn threshold_decides_what_counts_as_a_dip() {
    let difference = [100, 100, 80, 60, 70, 30, 20, 90];
    let mut strict = FundamentalPhase::new(50i32, false);
    assert_eq!(strict.pick_period(&difference), 6);
    let mut lax = FundamentalPhase::new(90i32, false);
    assert_eq!(lax.pick_period(&difference), 3);
    lax.set_threshold(50);
    assert_eq!(lax.threshold(), 50);
    assert_eq!(lax.pick_period(&difference), 6);
}

#[test]
fn phase_gives_the_start_of_the_cycle() {
    let data = [0i32; 100];
    let range = SearchRange { start: 10, end: 90 };
    let mut algorithm = FundamentalPhase::new(50i32, false);
    // no shift: one period into the range
    assert_eq!(algorithm.center(&data, &range, &Pitch { period: 20, turn: 0 }), 30);
    // half a turn: half a period less
    assert_eq!(algorithm.center(&data, &range, &Pitch { period: 20, turn: 0x8000_0000 }), 20);
    // a quarter of a turn
    assert_eq!(algorithm.center(&data, &range, &Pitch { period: 20, turn: 0x4000_0000 }), 25);
    // nearly a full turn: a whole period less
    assert_eq!(algorithm.center(&data, &range, &Pitch { period: 20, turn: u32::MAX }), 10);
}

#[test]
fn phase_shift_is_rounded_to_the_nearest_sample() {
    let data = [0i32; 100];
    let range = SearchRange { start: 0, end: 100 };
    let mut algorithm = FundamentalPhase::new(50i32, false);
    // a quarter of seven samples is 1.75 samples: 2
    assert_eq!(algorithm.center(&data, &range, &Pitch { period: 7, turn: 0x4000_0000 }), 5);
    // a tenth of a turn of 12 samples is 1.2 samples: 1
    assert_eq!(algorithm.center(&data, &range, &Pitch { period: 12, turn: 429_496_730 }), 11);
    // half of five samples is 2.5 samples: 3
    assert_eq!(algorithm.center(&data, &range, &Pitch { period: 5, turn: 0x8000_0000 }), 2);
}

#[test]
fn snapping_moves_on_to_the_next_change_of_sign() {
    let mut data = vec![-1i32; 100];
    for i in 0..100 {
        // positive on 25..50 and 75..100
        if (i / 25) % 2 == 1 {
            data[i] = 1;
        }
    }
    let range = SearchRange { start: 0, end: 100 };
    let mut algorithm = FundamentalPhase::new(50i32, true);
    assert!(algorithm.snap_to_crossings());
    // the center by phase is 20; the sign rises at 25
    assert_eq!(algorithm.center(&data, &range, &Pitch { period: 50, turn: 0x9999_999a }), 25);
    // from 30 on the next rise is at 75
    assert_eq!(algorithm.center(&data, &range, &Pitch { period: 50, turn: 0x6666_6666 }), 75);
    algorithm.set_snap_to_crossings(false);
    assert_eq!(algorithm.center(&data, &range, &Pitch { period: 50, turn: 0x6666_6666 }), 30);
}

#[test]
fn snapping_stays_where_the_sign_does_not_rise_within_a_period() {
    let mut data = vec![1i32; 100];
    data[60] = -1;
    let range = SearchRange { start: 0, end: 100 };
    let mut algorithm = FundamentalPhase::new(50i32, true);
    // center 20, period 20: looks at 20..40, the rise at 61 is out of reach
    assert_eq!(algorithm.center(&data, &range, &Pitch { period: 20, turn: 0 }), 20);
    // center 50, period 50: looks at 50..100
    assert_eq!(algorithm.center(&data, &range, &Pitch { period: 50, turn: 0 }), 61);
}

#[test]
fn snapping_takes_zero_for_positive() {
    let data = [-1i32, -1, -1, 0, 0, 1, 1, 1, 1, 1];
    let range = SearchRange { start: 0, end: 10 };
    let mut algorithm = FundamentalPhase::new(50i32, true);
    assert_eq!(algorithm.center(&data, &range, &Pitch { period: 4, turn: 0x8000_0000 }), 3);
}

#[test]
fn centering_dispatches_to_its_algorithm() {
    let mut data = vec![-5i32; 7];
    data.extend(vec![5i32; 9]);
    let range = SearchRange { start: 0, end: 16 };
    let mut none: Centering<i32> = Centering::NoCentering(NoCentering);
    assert!(!none.needs_pitch());
    assert_eq!(none.center(&data, &range, None), 8);
    let mut crossing: Centering<i32> = Centering::ZeroCrossing(ZeroCrossing);
    assert!(!crossing.needs_pitch());
    assert_eq!(crossing.center(&data, &range, None), 6);
    let mut phase = Centering::FundamentalPhase(FundamentalPhase::new(50i32, false));
    assert!(phase.needs_pitch());
    assert_eq!(phase.center(&data, &range, Some(Pitch { period: 4, turn: 0x4000_0000 })), 3);
}

#[test]
fn fundamental_phase_without_a_fitting_pitch_picks_the_midpoint() {
    let data = [0i32; 16];
    let range = SearchRange { start: 0, end: 16 };
    let mut phase = Centering::FundamentalPhase(FundamentalPhase::new(50i32, true));
    assert_eq!(phase.center(&data, &range, None), 8);
    // two periods of nine samples do not fit into sixteen
    assert_eq!(phase.center(&data, &range, Some(Pitch { period: 9, turn: 0 })), 8);
    assert_eq!(phase.center(&data, &range, Some(Pitch { period: 8, turn: 0 })), 8);
    // a range that does not lie in the data
    let outside = SearchRange { start: 0, end: 17 };
    assert_eq!(phase.center(&data, &outside, Some(Pitch { period: 4, turn: 0 })), 8);
}

#[test]
fn centering_names() {
    let none: Centering<i32> = Centering::NoCentering(NoCentering);
    assert_eq!(none.name(), "None");
    let crossing: Centering<i32> = Centering::ZeroCrossing(ZeroCrossing);
    assert_eq!(crossing.name(), "Zero Crossing");
    let phase = Centering::FundamentalPhase(FundamentalPhase::new(0i32, false));
    assert_eq!(phase.name(), "Fundamental Phase");
}
