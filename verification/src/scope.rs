//! Scopes: one visual trace each, with its own mixer and centering.

pub mod centering;

use vstd::prelude::*;
use crate::audio::mixer::{
    is_target_rate, first_occurrences, Conversion, ConverterType, Mixer, MixerBuilder, Submission,
};
use crate::sample::Sample;
use crate::scope::centering::fundamental_phase::Pitch;
use crate::scope::centering::{Centering, SearchRange};
use crate::state::GridRect;
use crate::time::{frame_count, lemma_frame_count_monotonic, Duration};

verus! {

/// A mailbox that holds at most one submission: a submission put into a full
/// slot takes the place of the one that was never consumed.
#[derive(Debug)]
pub struct SubmissionSlot<S> {
    inner: Option<Submission<S>>,
}

impl<S: Sample> SubmissionSlot<S> {
    /// What the slot holds.
    pub closed spec fn held(&self) -> Option<Submission<S>> {
        self.inner
    }

    /// A slot that holds `inner`.
    pub fn new(inner: Option<Submission<S>>) -> (r: Self)
        ensures
            r.held() == inner,
    {
        SubmissionSlot { inner }
    }

    /// The content of the slot, to look at or to replace.
    pub fn submission(&mut self) -> (r: &mut Option<Submission<S>>)
        ensures
            *r == old(self).held(),
            final(self).held() == *final(r),
    {
        &mut self.inner
    }

    /// What the slot holds, to look at.
    pub fn peek(&self) -> (r: &Option<Submission<S>>)
        ensures
            *r == self.held(),
    {
        &self.inner
    }

    /// Takes the submission out of the slot, which is empty afterwards.
    pub fn next(&mut self) -> (r: Option<Submission<S>>)
        ensures
            r == old(self).held(),
            final(self).held() is None,
    {
        self.inner.take()
    }

    /// The number of submissions that `next` will still give: one for a full
    /// slot, none for an empty one.
    pub fn size_hint(&self) -> (r: (usize, Option<usize>))
        ensures
            r == if self.held() is Some {
                (1usize, Some(1usize))
            } else {
                (0usize, Some(0usize))
            },
    {
        match self.inner {
            Some(_) => (1, Some(1)),
            None => (0, Some(0)),
        }
    }
}

/// How far a scope has come with the audio of the current video frame.
#[derive(Clone, Copy, Debug, PartialEq, Eq, Structural)]
pub enum Stage {
    /// Nothing is waiting, and nothing was mixed since the mixer was set up.
    Idle,
    /// A submission waits in the mailbox.
    Submitted,
    /// The submission was mixed; the window is not centered yet.
    Mixed,
    /// The window is centered and `output` gives the trace of this frame.
    Ready,
}

/// Why a scope could not go on.
#[derive(Clone, Copy, Debug, PartialEq, Eq, Structural)]
pub enum ScopeError {
    /// The scope has no mixer yet.
    Unconfigured,
    /// No chunk came out of the mixer: no submission was waiting, or its
    /// chunk could not be held in memory.
    NoAudio,
}

/// The first index of the window that is shown, for a window of `window`
/// samples around `center` in a buffer of `len` samples: half a window before
/// the center, moved as far as it takes for the window to lie in the buffer.
pub open spec fn window_offset(center: int, window: int, len: int) -> int {
    let wanted = if center >= window / 2 {
        center - window / 2
    } else {
        0
    };
    if window >= len {
        0
    } else if wanted > len - window {
        len - window
    } else {
        wanted
    }
}

/// The range in which a center is looked for, in a buffer of `len` samples
/// of which `trigger` are lookahead: it leaves out, at each end, half of
/// what is not lookahead.
pub open spec fn trigger_range(len: int, trigger: int) -> SearchRange {
    let pad = if trigger >= len {
        0
    } else {
        (len - trigger) / 2
    };
    SearchRange { start: pad as usize, end: (len - pad) as usize }
}

/// One visual trace: a window of audio, mixed by a mixer of its own and
/// centered by its algorithm.
pub struct Scope<S> {
    /// The length of audio that is shown.
    pub window_size: Duration,
    /// The cells of the grid that the trace covers.
    pub rect: GridRect,
    /// The length of audio that is fetched beyond the window, for the
    /// centering to search in.
    pub trigger_width: Duration,
    pub centering: Centering<S>,
    mixer: Option<Mixer<S>>,
    audio: Vec<S>,
    center_offset: usize,
    progress: Stage,
}

impl<S: Sample> Scope<S> {
    /// The length of audio that is shown.
    pub closed spec fn spec_window_size(&self) -> Duration {
        self.window_size
    }

    /// The length of audio that is fetched beyond the window.
    pub closed spec fn spec_trigger_width(&self) -> Duration {
        self.trigger_width
    }

    /// The cells of the grid that the trace covers.
    pub closed spec fn spec_rect(&self) -> GridRect {
        self.rect
    }

    /// The algorithm that centers the window.
    pub closed spec fn spec_centering(&self) -> Centering<S> {
        self.centering
    }

    /// The mixer, once the scope is configured.
    pub closed spec fn mixer(&self) -> Option<Mixer<S>> {
        self.mixer
    }

    /// What was mixed last.
    pub closed spec fn audio(&self) -> Seq<S> {
        self.audio@
    }

    /// The index of the mixed audio at which the window starts.
    pub closed spec fn spec_center_offset(&self) -> usize {
        self.center_offset
    }

    /// How far the scope has come with the audio that it took out of its
    /// mailbox last: `Idle`, `Mixed` or `Ready`.
    pub closed spec fn settled(&self) -> Stage {
        self.progress
    }

    /// How far the scope has come with the audio of the current frame:
    /// `Submitted` while a submission waits in the mailbox, else as far as
    /// it came with the one before.
    pub open spec fn spec_stage(&self) -> Stage {
        if self.mixer() matches Some(mixer) && mixer.pending() is Some {
            Stage::Submitted
        } else {
            self.settled()
        }
    }

    /// The scope has the settings of `other`: its window, its lookahead,
    /// its place in the grid and its centering.
    pub open spec fn same_settings(&self, other: Scope<S>) -> bool {
        &&& self.spec_window_size() == other.spec_window_size()
        &&& self.spec_trigger_width() == other.spec_trigger_width()
        &&& self.spec_rect() == other.spec_rect()
        &&& self.spec_centering() == other.spec_centering()
    }

    /// The length of audio that the scope asks for: the window and the
    /// lookahead.
    pub open spec fn spec_wanted_length(&self) -> Duration {
        self.spec_window_size().saturating_add(self.spec_trigger_width())
    }

    /// The rate of the mixer; meaningful once the scope is configured.
    pub open spec fn rate(&self) -> u32 {
        self.mixer()->0.sample_rate()
    }

    /// The number of samples of the window, where the scope is configured.
    pub open spec fn window_frames(&self) -> nat {
        self.spec_window_size().frames_at(self.rate())
    }

    /// The number of samples of the window that the mixed audio can fill.
    pub open spec fn visible_frames(&self) -> nat {
        if self.window_frames() <= self.audio().len() {
            self.window_frames()
        } else {
            self.audio().len()
        }
    }

    /// The range in which the center of the mixed audio is looked for.
    pub open spec fn spec_search_range(&self) -> SearchRange {
        trigger_range(self.audio().len() as int, self.spec_trigger_width().frames_at(self.rate()) as int)
    }

    /// The part of the mixed audio that is shown: from the offset of the
    /// center on, as many samples as the window has, and no more than the
    /// buffer holds. Nothing is shown before the scope is configured.
    pub open spec fn shown(&self) -> Seq<S> {
        if self.mixer() is Some {
            let len = self.audio().len() as int;
            let from = if self.spec_center_offset() <= len {
                self.spec_center_offset() as int
            } else {
                len
            };
            let to = if from + self.window_frames() <= len {
                from + self.window_frames()
            } else {
                len
            };
            self.audio().subrange(from, to)
        } else {
            Seq::empty()
        }
    }

    /// The window is centered on the mixed audio: the algorithm of the
    /// scope picks the center in the search range, given `pitch`, and the
    /// window starts half its length before that, as far as the buffer
    /// allows.
    pub open spec fn is_centered(&self, pitch: Option<Pitch>) -> bool {
        exists|center: int|
            {
                &&& #[trigger] self.spec_centering().is_center(
                    self.audio(),
                    self.spec_search_range(),
                    pitch,
                    center,
                )
                &&& self.spec_center_offset() == window_offset(
                    center,
                    self.visible_frames() as int,
                    self.audio().len() as int,
                )
            }
    }

    /// A scope without a mixer.
    pub fn new(window_size: Duration, trigger_width: Duration, rect: GridRect, centering: Centering<S>) -> (r: Self)
        ensures
            r.spec_window_size() == window_size,
            r.spec_trigger_width() == trigger_width,
            r.spec_rect() == rect,
            r.spec_centering() == centering,
            r.mixer() is None,
            r.audio() == Seq::<S>::empty(),
            r.spec_center_offset() == 0,
            r.settled() == Stage::Idle,
    {
        Scope {
            window_size,
            rect,
            trigger_width,
            centering,
            mixer: None,
            audio: Vec::new(),
            center_offset: 0,
            progress: Stage::Idle,
        }
    }

    /// The length of audio that the scope asks for.
    #[verifier::when_used_as_spec(spec_wanted_length)]
    pub fn wanted_length(&self) -> (r: Duration)
        ensures
            r == self.wanted_length(),
    {
        self.window_size.saturating_add(self.trigger_width)
    }

    /// How far the scope has come with the audio of the current frame.
    #[verifier::when_used_as_spec(spec_stage)]
    pub fn stage(&self) -> (r: Stage)
        ensures
            r == self.stage(),
    {
        match &self.mixer {
            Some(mixer) => if mixer.waiting().is_some() {
                Stage::Submitted
            } else {
                self.progress
            },
            None => self.progress,
        }
    }

    /// Whether the scope has a mixer.
    pub fn is_configured(&self) -> (r: bool)
        ensures
            r == (self.mixer() is Some),
    {
        self.mixer.is_some()
    }

    /// The mixer of the scope, once it is configured.
    pub fn configured_mixer(&self) -> (r: Option<&Mixer<S>>)
        ensures
            match r {
                Some(mixer) => self.mixer() == Some(*mixer),
                None => self.mixer() is None,
            },
    {
        self.mixer.as_ref()
    }

    /// Gives the scope a mixer of its own for sources of the rates
    /// `source_rates`: one channel, linear interpolation, and as its target
    /// the highest of the rates. Whatever waited in the old mixer is gone.
    pub fn configure_mixer(&mut self, source_rates: Vec<u32>)
        ensures
            final(self).mixer() matches Some(mixer) && {
                &&& mixer.wf()
                &&& mixer.channels() == 1
                &&& mixer.converter() == ConverterType::Linear
                &&& is_target_rate(None, source_rates@, mixer.sample_rate())
                &&& mixer.rates() == first_occurrences(source_rates@)
                &&& mixer.pending() is None
            },
            final(self).settled() == Stage::Idle,
            final(self).same_settings(*old(self)),
            final(self).audio() == old(self).audio(),
            final(self).spec_center_offset() == old(self).spec_center_offset(),
    {
        let mut mixer_builder = MixerBuilder::new();
        mixer_builder.channels(1);
        mixer_builder.resample_type(ConverterType::Linear);
        let mut i: usize = 0;
        while i < source_rates.len()
            invariant
                i <= source_rates.len(),
                mixer_builder.spec_channels() == 1,
                mixer_builder.forced_rate() is None,
                mixer_builder.converter() == ConverterType::Linear,
                mixer_builder.source_rates() == source_rates@.take(i as int),
            decreases source_rates.len() - i,
        {
            mixer_builder.source_rate(source_rates[i]);
            i += 1;
        }
        assert(source_rates@.take(source_rates.len() as int) =~= source_rates@);
        self.mixer = Some(mixer_builder.build(SubmissionSlot::new(None)));
        self.progress = Stage::Idle;
    }

    /// A silent submission of the wanted length for the mixer of this scope,
    /// or `None` where the scope has no mixer yet or the submission could not
    /// be held in memory.
    pub fn build_submission(&self) -> (r: Option<Submission<S>>)
        ensures
            match self.mixer() {
                Some(mixer) => {
                    if crate::audio::mixer::stream_sizes_fit(
                        mixer.rates(),
                        mixer.channels() as nat,
                        self.wanted_length(),
                    ) {
                        r matches Some(submission) && {
                            &&& submission.wf()
                            &&& submission.channels() == mixer.channels()
                            &&& submission.length() == self.wanted_length()
                            &&& submission.rates() == mixer.rates()
                            &&& submission.buffers().len() == mixer.rates().len()
                            &&& forall|k: int| 0 <= k < mixer.rates().len() ==>
                                #[trigger] submission.buffers()[k] == crate::audio::mixer::silence::<S>(
                                    self.wanted_length().frames_at(mixer.rates()[k]) * mixer.channels() as nat,
                                )
                        }
                    } else {
                        r is None
                    }
                },
                None => r is None,
            },
    {
        match &self.mixer {
            Some(mixer) => {
                let builder = mixer.submission_builder();
                let length = self.wanted_length();
                if builder.fits(length) {
                    Some(builder.create(length))
                } else {
                    None
                }
            },
            None => None,
        }
    }

    /// Puts `submission` into the mailbox of the mixer, in place of one that
    /// was never mixed.
    pub fn submit(&mut self, submission: Submission<S>) -> (r: Result<(), ScopeError>)
        ensures
            match old(self).mixer() {
                None => r == Err::<(), ScopeError>(ScopeError::Unconfigured) && *final(self) == *old(self),
                Some(before) => {
                    &&& r is Ok
                    &&& final(self).settled() == old(self).settled()
                    &&& final(self).mixer() matches Some(mixer) && {
                        &&& mixer.pending() == Some(submission)
                        &&& mixer.same_layout(before)
                    }
                    &&& final(self).same_settings(*old(self))
                    &&& final(self).audio() == old(self).audio()
                    &&& final(self).spec_center_offset() == old(self).spec_center_offset()
                },
            },
    {
        match &mut self.mixer {
            Some(mixer) => {
                let slot = mixer.submission_queue().submission();
                *slot = Some(submission);
                Ok(())
            },
            None => Err(ScopeError::Unconfigured),
        }
    }

    /// The submission that waits to be mixed, if there is one.
    pub fn pending(&self) -> (r: Option<&Submission<S>>)
        ensures
            match r {
                Some(submission) => self.mixer() matches Some(mixer) && mixer.pending() == Some(*submission),
                None => self.mixer() matches Some(mixer) ==> mixer.pending() is None,
            },
    {
        match &self.mixer {
            Some(mixer) => mixer.waiting().as_ref(),
            None => None,
        }
    }

    /// What the mixer of the scope does to a stream at `rate`: without a
    /// mixer, no rate is declared.
    pub fn conversion(&self, rate: u32) -> (r: Conversion)
        ensures
            r == match self.mixer() {
                Some(mixer) => crate::audio::mixer::conversion_of(mixer.rates(), mixer.sample_rate(), rate),
                None => Conversion::Unregistered,
            },
    {
        match &self.mixer {
            Some(mixer) => mixer.conversion(rate),
            None => Conversion::Unregistered,
        }
    }

    /// Mixes the waiting submission into the audio of the scope.
    ///
    /// `resampled[k]` is what the resampler gave for stream `k` of the
    /// waiting submission. Where no chunk comes out, the audio stays as it
    /// was.
    pub fn mix(&mut self, resampled: &Vec<Option<Vec<S>>>) -> (r: Result<(), ScopeError>)
        ensures
            final(self).same_settings(*old(self)),
            final(self).spec_center_offset() == old(self).spec_center_offset(),
            match old(self).mixer() {
                None => r == Err::<(), ScopeError>(ScopeError::Unconfigured) && *final(self) == *old(self),
                Some(before) => {
                    &&& final(self).mixer() matches Some(mixer) && {
                        &&& mixer.pending() is None
                        &&& mixer.same_layout(before)
                    }
                    &&& match before.pending() {
                        Some(submission) if before.spec_chunk_len(submission.length()) <= usize::MAX => {
                            &&& r is Ok
                            &&& final(self).audio() == before.mixdown(submission, resampled@)
                            &&& final(self).settled() == Stage::Mixed
                        },
                        _ => {
                            &&& r == Err::<(), ScopeError>(ScopeError::NoAudio)
                            &&& final(self).audio() == old(self).audio()
                            &&& final(self).settled() == old(self).settled()
                        },
                    }
                },
            },
    {
        match &mut self.mixer {
            Some(mixer) => {
                match mixer.next(resampled) {
                    Some(chunk) => {
                        self.audio = chunk;
                        self.progress = Stage::Mixed;
                        Ok(())
                    },
                    None => Err(ScopeError::NoAudio),
                }
            },
            None => Err(ScopeError::Unconfigured),
        }
    }

    /// What was mixed last.
    pub fn mixed_audio(&self) -> (r: &Vec<S>)
        ensures
            r@ == self.audio(),
    {
        &self.audio
    }

    /// The range in which the center of the mixed audio is looked for, or
    /// `None` where the scope has no mixer.
    pub fn search_range(&self) -> (r: Option<SearchRange>)
        ensures
            r == if self.mixer() is Some {
                Some(self.spec_search_range())
            } else {
                None
            },
    {
        match &self.mixer {
            Some(mixer) => {
                let len = self.audio.len();
                let trigger = match self.trigger_width.frames(mixer.sample_rate()) {
                    Some(trigger) => if trigger >= len {
                        len
                    } else {
                        trigger
                    },
                    None => len,
                };
                let pad = (len - trigger) / 2;
                Some(SearchRange { start: pad, end: len - pad })
            },
            None => None,
        }
    }

    /// Centers the window on the mixed audio: the algorithm of the scope
    /// picks the center in the search range, and the window starts half its
    /// length before that, as far as the buffer allows.
    ///
    /// `pitch` is the pitch of the mixed audio over the search range; only
    /// an algorithm that needs the pitch reads it.
    pub fn center(&mut self, pitch: Option<Pitch>) -> (r: Result<(), ScopeError>)
        ensures
            final(self).same_settings(*old(self)),
            final(self).mixer() == old(self).mixer(),
            final(self).audio() == old(self).audio(),
            match old(self).mixer() {
                None => r == Err::<(), ScopeError>(ScopeError::Unconfigured) && *final(self) == *old(self),
                Some(_) => {
                    &&& r is Ok
                    &&& final(self).settled() == Stage::Ready
                    &&& final(self).is_centered(pitch)
                    &&& final(self).shown().len() == final(self).visible_frames()
                },
            },
    {
        let range = match self.search_range() {
            Some(range) => range,
            None => {
                return Err(ScopeError::Unconfigured);
            },
        };
        let rate = match &self.mixer {
            Some(mixer) => mixer.sample_rate(),
            None => {
                return Err(ScopeError::Unconfigured);
            },
        };
        let len = self.audio.len();
        let window = match self.window_size.frames(rate) {
            Some(window) => if window >= len {
                len
            } else {
                window
            },
            None => len,
        };
        let center = self.centering.center(self.audio.as_slice(), &range, pitch);
        let wanted = if center >= window / 2 {
            center - window / 2
        } else {
            0
        };
        let offset = if window >= len {
            0
        } else if wanted > len - window {
            len - window
        } else {
            wanted
        };
        self.center_offset = offset;
        self.progress = Stage::Ready;
        proof {
            assert(self.spec_centering().is_center(
                self.audio(),
                self.spec_search_range(),
                pitch,
                center as int,
            ));
        }
        Ok(())
    }

    /// Mixes the waiting submission and, unless the algorithm of the scope
    /// needs the pitch of what was mixed, centers the window on it.
    ///
    /// The scope is `Ready` afterwards, or `Mixed` where the pitch is needed:
    /// `center` then finishes the frame.
    pub fn process(&mut self, resampled: &Vec<Option<Vec<S>>>) -> (r: Result<Stage, ScopeError>)
        ensures
            final(self).same_settings(*old(self)),
            match old(self).mixer() {
                None => r == Err::<Stage, ScopeError>(ScopeError::Unconfigured) && *final(self) == *old(self),
                Some(before) => {
                    &&& final(self).mixer() matches Some(mixer) && {
                        &&& mixer.pending() is None
                        &&& mixer.same_layout(before)
                    }
                    &&& match before.pending() {
                        Some(submission) if before.spec_chunk_len(submission.length()) <= usize::MAX => {
                            &&& final(self).audio() == before.mixdown(submission, resampled@)
                            &&& r == Ok::<Stage, ScopeError>(final(self).settled())
                            &&& if old(self).spec_centering() is FundamentalPhase {
                                &&& final(self).settled() == Stage::Mixed
                                &&& final(self).spec_center_offset() == old(self).spec_center_offset()
                            } else {
                                &&& final(self).settled() == Stage::Ready
                                &&& final(self).is_centered(None)
                                &&& final(self).shown().len() == final(self).visible_frames()
                            }
                        },
                        _ => {
                            &&& r == Err::<Stage, ScopeError>(ScopeError::NoAudio)
                            &&& final(self).audio() == old(self).audio()
                            &&& final(self).settled() == old(self).settled()
                            &&& final(self).spec_center_offset() == old(self).spec_center_offset()
                        },
                    }
                },
            },
    {
        match self.mix(resampled) {
            Ok(()) => {},
            Err(e) => {
                return Err(e);
            },
        }
        if self.centering.needs_pitch() {
            Ok(Stage::Mixed)
        } else {
            match self.center(None) {
                Ok(()) => Ok(Stage::Ready),
                Err(e) => Err(e),
            }
        }
    }

    /// The window that is shown.
    pub fn output(&self) -> (r: &[S])
        ensures
            r@ == self.shown(),
    {
        match &self.mixer {
            Some(mixer) => {
                let len = self.audio.len();
                let from = if self.center_offset <= len {
                    self.center_offset
                } else {
                    len
                };
                let to = match self.window_size.frames(mixer.sample_rate()) {
                    Some(window) => if window <= len - from {
                        from + window
                    } else {
                        len
                    },
                    None => len,
                };
                vstd::slice::slice_subrange(self.audio.as_slice(), from, to)
            },
            None => {
                vstd::slice::slice_subrange(self.audio.as_slice(), 0, 0)
            },
        }
    }
}

/// Once a submission of the wanted length is mixed by the one-channel mixer
/// of a scope and the window is centered, the scope shows exactly the
/// samples of its window: `round(window_size * rate)` of them.
pub proof fn lemma_window_is_filled<S: Sample>(
    scope: Scope<S>,
    submission: Submission<S>,
    resampled: Seq<Option<Vec<S>>>,
)
    requires
        scope.mixer() matches Some(mixer) && mixer.channels() == 1 && scope.audio() == mixer.mixdown(
            submission,
            resampled,
        ),
        submission.length() == scope.wanted_length(),
        scope.shown().len() == scope.visible_frames(),
    ensures
        scope.shown().len() == frame_count(scope.spec_window_size().nanos as nat, scope.rate() as nat),
{
    crate::audio::mixer::lemma_mixdown_len(scope.mixer()->0, submission, resampled);
    lemma_frame_count_monotonic(
        scope.spec_window_size().nanos as nat,
        scope.wanted_length().nanos as nat,
        scope.rate() as nat,
    );
}

} // verus!
