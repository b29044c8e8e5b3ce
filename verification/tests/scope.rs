use rawrscope::{
    Centering, Conversion, Duration, FundamentalPhase, GridRect, MixerBuilder, NoCentering, Pitch,
    Scope, ScopeError, SearchRange, Stage, Submission, SubmissionSlot, ZeroCrossing,
};

fn rect() -> GridRect {
    GridRect { x: 0, y: 0, w: 1, h: 1 }
}

fn scope(window_ms: u32, trigger_ms: u32, centering: Centering<i32>) -> Scope<i32> {
    Scope::new(Duration::from_millis(window_ms), Duration::from_millis(trigger_ms), rect(), centering)
}

fn submission(rates: &[u32], millis: u32) -> Submission<i32> {
    let mut builder = MixerBuilder::new();
    for rate in rates {
        builder.source_rate(*rate);
    }
    let mixer = builder.build::<i32>(SubmissionSlot::new(None));
    mixer.submission_builder().create(Duration::from_millis(millis))
}

#[test]
fn slot_holds_one_submission() {
    let mut slot: SubmissionSlot<i32> = SubmissionSlot::new(None);
    assert_eq!(slot.size_hint(), (0, Some(0)));
    assert!(slot.peek().is_none());
    assert!(slot.next().is_none());
    *slot.submission() = Some(submission(&[1000], 2));
    assert_eq!(slot.size_hint(), (1, Some(1)));
    // a second submission takes the place of the first
    let old = slot.submission().replace(submission(&[2000], 2));
    assert_eq!(old.unwrap().rate_at(0), 1000);
    assert_eq!(slot.size_hint(), (1, Some(1)));
    let taken = slot.next().unwrap();
    assert_eq!(taken.rate_at(0), 2000);
    assert_eq!(slot.size_hint(), (0, Some(0)));
    assert!(slot.next().is_none());
}

#[test]
fn slot_can_start_full() {
    let mut slot = SubmissionSlot::new(Some(submission(&[1000], 2)));
    assert_eq!(slot.size_hint(), (1, Some(1)));
    assert!(slot.next().is_some());
    assert!(slot.next().is_none());
}

#[test]
fn wanted_length_is_window_and_lookahead() {
    let scope = scope(20, 10, Centering::NoCentering(NoCentering));
    assert_eq!(scope.wanted_length(), Duration::from_millis(30));
    let long: Scope<i32> = Scope::new(
        Duration::from_nanos(u64::MAX),
        Duration::from_nanos(1),
        rect(),
        Centering::NoCentering(NoCentering),
    );
    assert_eq!(long.wanted_length().nanos, u64::MAX);
}

#[test]
fn an_unconfigured_scope_does_nothing() {
    let mut scope = scope(20, 10, Centering::NoCentering(NoCentering));
    assert!(!scope.is_configured());
    assert_eq!(scope.stage(), Stage::Idle);
    assert!(scope.build_submission().is_none());
    assert!(scope.pending().is_none());
    assert_eq!(scope.conversion(44100), Conversion::Unregistered);
    assert_eq!(scope.submit(submission(&[1000], 2)), Err(ScopeError::Unconfigured));
    assert_eq!(scope.mix(&vec![]), Err(ScopeError::Unconfigured));
    assert_eq!(scope.center(None), Err(ScopeError::Unconfigured));
    assert_eq!(scope.process(&vec![]), Err(ScopeError::Unconfigured));
    assert_eq!(scope.search_range(), None);
    assert!(scope.output().is_empty());
    assert_eq!(scope.stage(), Stage::Idle);
}

#[test]
fn the_mixer_of_a_scope_has_one_channel_and_the_highest_rate() {
    let mut scope = scope(20, 10, Centering::NoCentering(NoCentering));
    scope.configure_mixer(vec![44100, 48000, 44100]);
    assert!(scope.is_configured());
    assert_eq!(scope.conversion(48000), Conversion::Passthrough);
    assert_eq!(scope.conversion(44100), Conversion::Resample);
    assert_eq!(scope.conversion(8000), Conversion::Unregistered);
    let sub = scope.build_submission().unwrap();
    assert_eq!(sub.channels(), 1);
    assert_eq!(sub.stream_count(), 2);
    assert_eq!(sub.length(), Duration::from_millis(30));
    assert_eq!(sub.length_of_channel(48000), Some(1440));
    assert_eq!(sub.length_of_channel(44100), Some(1323));
}

#[test]
fn process_without_audio() {
    let mut scope = scope(20, 10, Centering::NoCentering(NoCentering));
    scope.configure_mixer(vec![44100]);
    assert_eq!(scope.process(&vec![]), Err(ScopeError::NoAudio));
    assert_eq!(scope.stage(), Stage::Idle);
    assert!(scope.output().is_empty());
}

#[test]
fn one_mono_source_fills_a_window_of_20_ms() {
    let mut scope = scope(20, 10, Centering::ZeroCrossing(ZeroCrossing));
    scope.configure_mixer(vec![44100]);
    let mut sub = scope.build_submission().unwrap();
    let wave: Vec<i32> = (0..1323).map(|i| if (i / 50) % 2 == 0 { -1000 } else { 1000 }).collect();
    sub.add(44100, 0, &wave);
    assert_eq!(scope.submit(sub), Ok(()));
    assert_eq!(scope.stage(), Stage::Submitted);
    assert!(scope.pending().is_some());
    assert_eq!(scope.process(&vec![]), Ok(Stage::Ready));
    assert_eq!(scope.stage(), Stage::Ready);
    assert!(scope.pending().is_none());
    let expected = (0.020f64 * 44100.0).round() as usize;
    assert_eq!(expected, 882);
    assert_eq!(scope.output().len(), expected);
    assert_eq!(scope.mixed_audio().len(), 1323);
    // the lookahead holds 441 samples: the search leaves out 441 at each end
    assert_eq!(scope.search_range(), Some(SearchRange { start: 441, end: 882 }));
    // midpoint 661; the wave rises between 649 and 650, twelve samples to
    // the left, and the window starts half a window before
    assert_eq!(scope.output(), &wave[649 - 441..649 - 441 + 882]);
}

#[test]
fn the_window_of_a_resampled_source() {
    let mut scope = scope(20, 10, Centering::NoCentering(NoCentering));
    scope.configure_mixer(vec![22050, 44100]);
    let mut sub = scope.build_submission().unwrap();
    sub.add(22050, 0, &vec![7; 662]);
    scope.submit(sub).unwrap();
    // the resampler gave less than a whole chunk: silence fills it up
    let resampled = vec![Some(vec![7; 1000]), None];
    assert_eq!(scope.process(&resampled), Ok(Stage::Ready));
    assert_eq!(scope.output().len(), 882);
    // the window starts at 661 - 441 = 220
    assert_eq!(scope.output()[0], 7);
    assert_eq!(scope.output()[779], 7);
    assert_eq!(scope.output()[780], 0);
}

#[test]
fn a_new_submission_replaces_the_one_that_waits() {
    let mut scope = scope(2, 0, Centering::NoCentering(NoCentering));
    scope.configure_mixer(vec![1000]);
    let mut first = scope.build_submission().unwrap();
    first.add(1000, 0, &[1, 1]);
    let mut second = scope.build_submission().unwrap();
    second.add(1000, 0, &[2, 2]);
    scope.submit(first).unwrap();
    scope.submit(second).unwrap();
    assert_eq!(scope.process(&vec![]), Ok(Stage::Ready));
    assert_eq!(scope.output(), &[2, 2]);
    // the mailbox is empty now: the old trace stays
    assert_eq!(scope.process(&vec![]), Err(ScopeError::NoAudio));
    assert_eq!(scope.output(), &[2, 2]);
    assert_eq!(scope.stage(), Stage::Ready);
}

#[test]
fn fundamental_phase_waits_for_the_pitch() {
    let mut scope = scope(10, 10, Centering::FundamentalPhase(FundamentalPhase::new(50, false)));
    scope.configure_mixer(vec![1000]);
    let mut sub = scope.build_submission().unwrap();
    let ramp: Vec<i32> = (0..20).collect();
    sub.add(1000, 0, &ramp);
    scope.submit(sub).unwrap();
    assert_eq!(scope.process(&vec![]), Ok(Stage::Mixed));
    assert_eq!(scope.stage(), Stage::Mixed);
    assert_eq!(scope.mixed_audio(), &ramp);
    assert_eq!(scope.search_range(), Some(SearchRange { start: 5, end: 15 }));
    // one period of 4 samples into the range, less a quarter of a period
    assert_eq!(scope.center(Some(Pitch { period: 4, turn: 0x4000_0000 })), Ok(()));
    assert_eq!(scope.stage(), Stage::Ready);
    // the center is 8: the window of 10 samples starts at 3
    assert_eq!(scope.output(), &ramp[3..13]);
}

#[test]
fn the_window_never_leaves_the_buffer() {
    // no lookahead: the window is the whole buffer, wherever the center is
    let mut scope = scope(10, 0, Centering::ZeroCrossing(ZeroCrossing));
    scope.configure_mixer(vec![1000]);
    let mut sub = scope.build_submission().unwrap();
    sub.add(1000, 0, &[-1, -1, 1, 1, 1, 1, 1, 1, 1, 1]);
    scope.submit(sub).unwrap();
    assert_eq!(scope.process(&vec![]), Ok(Stage::Ready));
    assert_eq!(scope.output(), &[-1, -1, 1, 1, 1, 1, 1, 1, 1, 1]);
}

#[test]
fn a_wider_window_than_the_audio_shows_what_there_is() {
    let mut scope = scope(4, 2, Centering::NoCentering(NoCentering));
    scope.configure_mixer(vec![1000]);
    let mut sub = scope.build_submission().unwrap();
    sub.add(1000, 0, &[1, 2, 3, 4, 5, 6]);
    scope.submit(sub).unwrap();
    assert_eq!(scope.process(&vec![]), Ok(Stage::Ready));
    assert_eq!(scope.output(), &[2, 3, 4, 5]);
    // the window is widened after the fact
    scope.window_size = Duration::from_millis(50);
    assert_eq!(scope.output(), &[2, 3, 4, 5, 6]);
}

#[test]
fn configuring_again_empties_the_mailbox() {
    let mut scope = scope(2, 0, Centering::NoCentering(NoCentering));
    scope.configure_mixer(vec![1000]);
    let sub = scope.build_submission().unwrap();
    scope.submit(sub).unwrap();
    scope.configure_mixer(vec![2000]);
    assert_eq!(scope.stage(), Stage::Idle);
    assert!(scope.pending().is_none());
    assert_eq!(scope.process(&vec![]), Err(ScopeError::NoAudio));
}

#[test]
fn a_scope_is_submitted_while_a_submission_waits() {
    let mut scope = scope(2, 0, Centering::NoCentering(NoCentering));
    scope.configure_mixer(vec![1000]);
    assert_eq!(scope.stage(), Stage::Idle);
    let first = scope.build_submission().unwrap();
    scope.submit(first).unwrap();
    assert_eq!(scope.stage(), Stage::Submitted);
    assert_eq!(scope.mix(&vec![]), Ok(()));
    assert_eq!(scope.stage(), Stage::Mixed);
    // a submission that comes in before the window is centered
    let second = scope.build_submission().unwrap();
    scope.submit(second).unwrap();
    assert_eq!(scope.stage(), Stage::Submitted);
    assert_eq!(scope.center(None), Ok(()));
    assert_eq!(scope.stage(), Stage::Submitted);
    assert_eq!(scope.process(&vec![]), Ok(Stage::Ready));
    assert_eq!(scope.stage(), Stage::Ready);
}
