//! The master output: a mixer whose chunks are handed to the output device
//! sample by sample.

use vstd::prelude::*;
use crate::audio::mixer::{
    is_target_rate, first_occurrences, silence, Mixer, MixerBuilder, Submission,
    SubmissionBuilder,
};
use crate::sample::Sample;
use crate::scope::SubmissionSlot;

verus! {

/// Which of the hosts or devices of the machine to open.
#[derive(Clone, Copy, Debug, PartialEq, Eq, Structural)]
pub enum Choice {
    /// The one that the machine offers by default.
    Default,
    /// The one at this place in the list.
    Listed(usize),
}

/// `index` is the first place at which `names` holds `wanted`.
pub open spec fn is_first_named(names: Seq<String>, wanted: Seq<char>, index: int) -> bool {
    &&& 0 <= index < names.len()
    &&& names[index]@ == wanted
    &&& forall|i: int| 0 <= i < index ==> (#[trigger] names[i])@ != wanted
}

/// Picks the host or device to open: the first in `names` that goes by the
/// name `wanted`, and the default where no name is asked for or none in the
/// list goes by it.
pub fn pick_named(names: &Vec<String>, wanted: &Option<String>) -> (r: Choice)
    ensures
        match r {
            Choice::Listed(index) => wanted matches Some(name) && is_first_named(names@, name@, index as int),
            Choice::Default => wanted matches Some(name) ==> forall|i: int|
                0 <= i < names.len() ==> (#[trigger] names[i])@ != name@,
        },
{
    match wanted {
        Some(name) => {
            let mut i: usize = 0;
            while i < names.len()
                invariant
                    i <= names.len(),
                    *wanted == Some(*name),
                    forall|j: int| 0 <= j < i ==> (#[trigger] names[j])@ != name@,
                decreases names.len() - i,
            {
                let candidate: &String = &names[i];
                if *candidate == *name {
                    return Choice::Listed(i);
                }
                i += 1;
            }
            Choice::Default
        },
        None => Choice::Default,
    }
}

/// The chunks of a mixer, one after the other, as one stream of samples.
pub struct MixerStream<S> {
    mixer: Mixer<S>,
    chunk: Vec<S>,
    position: usize,
}

impl<S: Sample> MixerStream<S> {
    /// The mixer that the chunks come from.
    pub closed spec fn mixer(&self) -> Mixer<S> {
        self.mixer
    }

    /// The samples that were mixed and not handed out yet.
    pub closed spec fn remaining(&self) -> Seq<S> {
        if self.position <= self.chunk.len() {
            self.chunk@.subrange(self.position as int, self.chunk.len() as int)
        } else {
            Seq::empty()
        }
    }

    /// The stream of the chunks of `mixer`; nothing is mixed yet.
    pub fn new(mixer: Mixer<S>) -> (r: Self)
        ensures
            r.mixer() == mixer,
            r.remaining() == Seq::<S>::empty(),
    {
        MixerStream { mixer, chunk: Vec::new(), position: 0 }
    }

    /// The mixer, to look at.
    pub fn source(&self) -> (r: &Mixer<S>)
        ensures
            *r == self.mixer(),
    {
        &self.mixer
    }

    /// The mixer, to hand it a submission.
    pub fn source_mut(&mut self) -> (r: &mut Mixer<S>)
        ensures
            *r == old(self).mixer(),
            final(self).mixer() == *final(r),
            final(self).remaining() == old(self).remaining(),
    {
        &mut self.mixer
    }

    /// The number of samples that can be handed out before the stream needs
    /// another chunk.
    pub fn available(&self) -> (r: usize)
        ensures
            r == self.remaining().len(),
    {
        if self.position <= self.chunk.len() {
            self.chunk.len() - self.position
        } else {
            0
        }
    }

    /// Mixes the submission that waits in the mixer and puts the chunk at
    /// the end of the stream. Tells whether a chunk came out.
    ///
    /// `resampled[k]` is what the resampler gave for stream `k` of the
    /// waiting submission.
    pub fn feed(&mut self, resampled: &Vec<Option<Vec<S>>>) -> (r: bool)
        ensures
            final(self).mixer().same_layout(old(self).mixer()),
            final(self).mixer().pending() is None,
            match old(self).mixer().pending() {
                Some(submission) if old(self).mixer().spec_chunk_len(submission.length()) <= usize::MAX => {
                    &&& r
                    &&& final(self).remaining() == old(self).remaining() + old(self).mixer().mixdown(
                        submission,
                        resampled@,
                    )
                },
                _ => !r && final(self).remaining() == old(self).remaining(),
            },
    {
        match self.mixer.next(resampled) {
            Some(mut chunk) => {
                if self.position >= self.chunk.len() {
                    self.chunk = chunk;
                    self.position = 0;
                } else {
                    self.chunk.append(&mut chunk);
                }
                true
            },
            None => false,
        }
    }

    /// The next sample of the stream, or `None` where the stream needs
    /// another chunk first.
    pub fn next(&mut self) -> (r: Option<S>)
        ensures
            final(self).mixer() == old(self).mixer(),
            r == if old(self).remaining().len() > 0 {
                Some(old(self).remaining()[0])
            } else {
                None
            },
            final(self).remaining() == if old(self).remaining().len() > 0 {
                old(self).remaining().skip(1)
            } else {
                old(self).remaining()
            },
    {
        if self.position < self.chunk.len() {
            let sample = self.chunk[self.position];
            self.position = self.position + 1;
            Some(sample)
        } else {
            None
        }
    }

    /// The next `len` samples of the stream for the output device: silence
    /// takes the place of what the stream cannot give.
    pub fn fill(&mut self, len: usize) -> (r: Vec<S>)
        ensures
            final(self).mixer() == old(self).mixer(),
            r@.len() == len,
            forall|i: int| 0 <= i < len ==> #[trigger] r@[i] == if i < old(self).remaining().len() {
                old(self).remaining()[i]
            } else {
                S::spec_zero()
            },
            final(self).remaining() == if len <= old(self).remaining().len() {
                old(self).remaining().skip(len as int)
            } else {
                Seq::<S>::empty()
            },
    {
        let ghost before = self.remaining();
        let mut out: Vec<S> = Vec::new();
        while out.len() < len
            invariant
                out.len() <= len,
                self.mixer() == old(self).mixer(),
                before == old(self).remaining(),
                forall|i: int| 0 <= i < out.len() ==> #[trigger] out@[i] == if i < before.len() {
                    before[i]
                } else {
                    S::spec_zero()
                },
                self.remaining() == if out.len() <= before.len() {
                    before.skip(out.len() as int)
                } else {
                    Seq::<S>::empty()
                },
            decreases len - out.len(),
        {
            let sample = match self.next() {
                Some(sample) => sample,
                None => S::zero(),
            };
            out.push(sample);
        }
        out
    }
}

/// The master output: a mixer for the format of the output device, and the
/// stream of its chunks.
pub struct Player<S> {
    submission_builder: SubmissionBuilder,
    mixer_stream: MixerStream<S>,
    channels: u16,
    sample_rate: u32,
}

impl<S: Sample> Player<S> {
    /// The number of channels of the output device.
    pub closed spec fn spec_channels(&self) -> u16 {
        self.channels
    }

    /// The sample rate of the output device.
    pub closed spec fn spec_sample_rate(&self) -> u32 {
        self.sample_rate
    }

    /// The builder of the submissions that the mixer takes.
    pub closed spec fn builder(&self) -> SubmissionBuilder {
        self.submission_builder
    }

    /// The stream that the output device is fed from.
    pub closed spec fn stream(&self) -> MixerStream<S> {
        self.mixer_stream
    }

    /// The builder of submissions goes with the mixer.
    pub open spec fn consistent(&self) -> bool {
        &&& self.stream().mixer().wf()
        &&& self.builder().wf()
        &&& self.builder().channels() == self.stream().mixer().channels()
        &&& self.builder().rates() == self.stream().mixer().rates()
    }

    /// A player for an output device of `channels` channels at
    /// `sample_rate`. Its mixer knows no source rate yet.
    pub fn new(channels: u16, sample_rate: u32) -> (player: Self)
        ensures
            player.consistent(),
            player.spec_channels() == channels,
            player.spec_sample_rate() == sample_rate,
            player.stream().mixer().channels() == channels,
            player.stream().mixer().sample_rate() == sample_rate,
            player.stream().mixer().rates() == Seq::<u32>::empty(),
            player.stream().mixer().pending() is None,
            player.stream().remaining() == Seq::<S>::empty(),
    {
        let mut mixer_builder = MixerBuilder::new();
        mixer_builder.channels(channels as usize);
        mixer_builder.target_sample_rate(sample_rate);
        let mixer = mixer_builder.build(SubmissionSlot::new(None));
        let submission_builder = mixer.submission_builder();
        let mixer_stream = mixer.into_stream();
        Player { submission_builder, mixer_stream, channels, sample_rate }
    }

    /// The number of channels of the output device.
    #[verifier::when_used_as_spec(spec_channels)]
    pub fn channels(&self) -> (r: u16)
        ensures
            r == self.channels(),
    {
        self.channels
    }

    /// The sample rate of the output device.
    #[verifier::when_used_as_spec(spec_sample_rate)]
    pub fn sample_rate(&self) -> (r: u32)
        ensures
            r == self.sample_rate(),
    {
        self.sample_rate
    }

    /// The builder of the submissions that the mixer takes.
    pub fn submission_builder(&self) -> (r: &SubmissionBuilder)
        ensures
            *r == self.builder(),
    {
        &self.submission_builder
    }

    /// Puts a newly built mixer in the place of the old one. What the old
    /// mixer had mixed, and what waited in it, is gone.
    pub fn rebuild_mixer(&mut self, builder: MixerBuilder)
        ensures
            final(self).spec_channels() == old(self).spec_channels(),
            final(self).spec_sample_rate() == old(self).spec_sample_rate(),
            final(self).consistent(),
            final(self).stream().mixer().channels() == builder.spec_channels(),
            final(self).stream().mixer().converter() == builder.converter(),
            is_target_rate(
                builder.forced_rate(),
                builder.source_rates(),
                final(self).stream().mixer().sample_rate(),
            ),
            final(self).stream().mixer().rates() == first_occurrences(builder.source_rates()),
            final(self).stream().mixer().pending() is None,
            final(self).stream().remaining() == Seq::<S>::empty(),
    {
        let mixer = builder.build(SubmissionSlot::new(None));
        self.submission_builder = mixer.submission_builder();
        self.mixer_stream = mixer.into_stream();
    }

    /// Hands `sub` to the mixer. The mixer holds one submission at a time:
    /// while one waits, `sub` is handed back.
    pub fn submit(&mut self, sub: Submission<S>) -> (r: Result<(), Submission<S>>)
        ensures
            final(self).spec_channels() == old(self).spec_channels(),
            final(self).spec_sample_rate() == old(self).spec_sample_rate(),
            final(self).builder() == old(self).builder(),
            final(self).stream().remaining() == old(self).stream().remaining(),
            final(self).stream().mixer().same_layout(old(self).stream().mixer()),
            match old(self).stream().mixer().pending() {
                Some(_) => r == Err::<(), Submission<S>>(sub) && *final(self) == *old(self),
                None => r is Ok && final(self).stream().mixer().pending() == Some(sub),
            },
    {
        if self.mixer_stream.source().waiting().is_some() {
            let _ = self.mixer_stream.source().channels();
            Err(sub)
        } else {
            let slot = self.mixer_stream.source_mut().submission_queue().submission();
            *slot = Some(sub);
            Ok(())
        }
    }

    /// The submission that waits to be mixed, if there is one.
    pub fn pending(&self) -> (r: &Option<Submission<S>>)
        ensures
            *r == self.stream().mixer().pending(),
    {
        self.mixer_stream.source().waiting()
    }

    /// The mixer of the player.
    pub fn mixer(&self) -> (r: &Mixer<S>)
        ensures
            *r == self.stream().mixer(),
    {
        self.mixer_stream.source()
    }

    /// What the output device plays next: `len` samples of the stream, with
    /// silence in the place of what the stream cannot give.
    ///
    /// A submission that waits is mixed first where the stream holds fewer
    /// than `len` samples; `resampled[k]` is what the resampler gave for
    /// its stream `k`.
    pub fn render(&mut self, resampled: &Vec<Option<Vec<S>>>, len: usize) -> (r: Vec<S>)
        ensures
            final(self).spec_channels() == old(self).spec_channels(),
            final(self).spec_sample_rate() == old(self).spec_sample_rate(),
            final(self).builder() == old(self).builder(),
            r@.len() == len,
            ({
                let before = old(self).stream();
                let fed = match before.mixer().pending() {
                    Some(submission) if before.remaining().len() < len && before.mixer().spec_chunk_len(
                        submission.length(),
                    ) <= usize::MAX => before.remaining() + before.mixer().mixdown(submission, resampled@),
                    _ => before.remaining(),
                };
                &&& forall|i: int| 0 <= i < len ==> #[trigger] r@[i] == if i < fed.len() {
                    fed[i]
                } else {
                    S::spec_zero()
                }
                &&& final(self).stream().remaining() == if len <= fed.len() {
                    fed.skip(len as int)
                } else {
                    Seq::<S>::empty()
                }
            }),
    {
        if self.mixer_stream.available() < len {
            self.mixer_stream.feed(resampled);
        }
        self.mixer_stream.fill(len)
    }
}

} // verus!
