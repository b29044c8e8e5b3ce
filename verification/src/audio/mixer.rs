//! Submissions and the mixer that sums them into one output stream.

use vstd::prelude::*;
use vstd::arithmetic::div_mod::{lemma_fundamental_div_mod, lemma_fundamental_div_mod_converse};
use crate::audio::playback::MixerStream;
use crate::sample::Sample;
use crate::scope::SubmissionSlot;
use crate::time::{frame_count, Duration};

verus! {

/// `rates` holds no rate twice.
pub open spec fn distinct(rates: Seq<u32>) -> bool {
    forall|i: int, j: int| 0 <= i < j < rates.len() ==> rates[i] != rates[j]
}

/// A stream of `length` at `rate` in `channels` channels can be held in
/// memory: its frames can be counted, and so can its samples.
pub open spec fn stream_size_fits(rate: u32, channels: nat, length: Duration) -> bool {
    &&& length.frames_at(rate) <= usize::MAX
    &&& length.frames_at(rate) * channels <= usize::MAX
}

/// A stream of `length` at each of `rates` can be held in memory.
pub open spec fn stream_sizes_fit(rates: Seq<u32>, channels: nat, length: Duration) -> bool {
    forall|k: int| 0 <= k < rates.len() ==> stream_size_fits(#[trigger] rates[k], channels, length)
}

/// `len` samples of silence.
pub open spec fn silence<S: Sample>(len: nat) -> Seq<S> {
    Seq::new(len, |i: int| S::spec_zero())
}

/// What `buffer` holds after `samples` were added to its channel `channel`:
/// frame `f` of that channel gains `samples[f]`, or silence past the end of
/// `samples`; the other channels keep what they held.
pub open spec fn added<S: Sample>(buffer: Seq<S>, channels: nat, channel: nat, samples: Seq<S>) -> Seq<S> {
    Seq::new(
        buffer.len(),
        |i: int|
            if i % (channels as int) == channel {
                buffer[i].spec_plus(
                    if i / (channels as int) < samples.len() {
                        samples[i / (channels as int)]
                    } else {
                        S::spec_zero()
                    },
                )
            } else {
                buffer[i]
            },
    )
}

/// `after` is `before` with `samples` added to channel `channel` of its
/// stream at `rate`. Where `before` holds no stream at `rate`, or `channel`
/// is not one of its channels, `after` holds what `before` held.
pub open spec fn is_added<S: Sample>(
    before: Submission<S>,
    after: Submission<S>,
    rate: u32,
    channel: usize,
    samples: Seq<S>,
) -> bool {
    &&& after.wf()
    &&& after.channels() == before.channels()
    &&& after.length() == before.length()
    &&& after.rates() == before.rates()
    &&& after.buffers().len() == before.buffers().len()
    &&& forall|k: int| 0 <= k < before.buffers().len() ==>
        #[trigger] after.buffers()[k] == if before.rates()[k] == rate && channel < before.channels() {
            added(before.buffers()[k], before.channels() as nat, channel as nat, samples)
        } else {
            before.buffers()[k]
        }
}

/// Prepares submissions for one mixer: it knows the mixer's channel count and
/// the source rates that were declared to it.
#[derive(Debug)]
pub struct SubmissionBuilder {
    channels: usize,
    rates: Vec<u32>,
}

impl SubmissionBuilder {
    /// The builder knows each rate once.
    #[verifier::type_invariant]
    pub closed spec fn wf(self) -> bool {
        distinct(self.rates@)
    }

    /// The number of interleaved channels.
    pub closed spec fn spec_channels(&self) -> usize {
        self.channels
    }

    /// The number of interleaved channels of every stream.
    #[verifier::when_used_as_spec(spec_channels)]
    pub fn channels(&self) -> (r: usize)
        ensures
            r == self.channels(),
    {
        self.channels
    }

    /// The source rates for which a submission gets a stream, in the order in
    /// which they were first declared.
    pub closed spec fn rates(&self) -> Seq<u32> {
        self.rates@
    }

    /// Whether the buffers of a submission of `length` can be held in memory:
    /// the frames of each stream can be counted, and so can its samples.
    pub open spec fn spec_fits(&self, length: Duration) -> bool {
        stream_sizes_fit(self.rates(), self.channels() as nat, length)
    }

    /// Whether the buffers of a submission of `length` can be held in memory.
    #[verifier::when_used_as_spec(spec_fits)]
    pub fn fits(&self, length: Duration) -> (r: bool)
        ensures
            r == self.fits(length),
    {
        let mut k: usize = 0;
        while k < self.rates.len()
            invariant
                k <= self.rates.len(),
                forall|j: int| 0 <= j < k ==> stream_size_fits(#[trigger] self.rates[j], self.channels as nat, length),
            decreases self.rates.len() - k,
        {
            let fitting = match length.frames(self.rates[k]) {
                Some(frames) => frames.checked_mul(self.channels).is_some(),
                None => false,
            };
            if !fitting {
                assert(!stream_size_fits(self.rates()[k as int], self.channels() as nat, length));
                return false;
            }
            k += 1;
        }
        true
    }

    /// `submission` is the silent submission of `length` that this builder
    /// creates: one zeroed buffer per declared rate, holding `length` of audio
    /// in every channel.
    pub open spec fn is_created<S: Sample>(&self, length: Duration, submission: Submission<S>) -> bool {
        &&& submission.wf()
        &&& submission.channels() == self.channels()
        &&& submission.length() == length
        &&& submission.rates() == self.rates()
        &&& submission.buffers().len() == self.rates().len()
        &&& forall|k: int| 0 <= k < self.rates().len() ==>
            #[trigger] submission.buffers()[k] == silence::<S>(
                length.frames_at(self.rates()[k]) * self.channels() as nat,
            )
    }

    /// A silent submission of `length`: one zeroed buffer per declared rate,
    /// holding `length` of audio in every channel.
    pub fn create<S: Sample>(&self, length: Duration) -> (r: Submission<S>)
        requires
            self.fits(length),
        ensures
            self.is_created(length, r),
    {
        proof {
            use_type_invariant(self);
        }
        let mut rates: Vec<u32> = Vec::new();
        let mut buffers: Vec<Vec<S>> = Vec::new();
        let mut k: usize = 0;
        while k < self.rates.len()
            invariant
                k <= self.rates.len(),
                self.fits(length),
                rates@ == self.rates@.take(k as int),
                buffers.len() == k,
                forall|j: int| 0 <= j < k ==>
                    (#[trigger] buffers[j])@ == silence::<S>(length.frames_at(self.rates[j]) * self.channels as nat),
            decreases self.rates.len() - k,
        {
            let rate = self.rates[k];
            assert(stream_size_fits(self.rates()[k as int], self.channels() as nat, length));
            let frames = length.frames(rate).unwrap();
            let size = frames * self.channels;
            let mut buffer: Vec<S> = Vec::new();
            while buffer.len() < size
                invariant
                    buffer.len() <= size,
                    buffer@ == silence::<S>(buffer.len() as nat),
                decreases size - buffer.len(),
            {
                buffer.push(S::zero());
            }
            rates.push(rate);
            buffers.push(buffer);
            k += 1;
        }
        assert(rates@ == self.rates@);
        let made = Submission { rates, buffers, channels: self.channels, length };
        made
    }
}

/// One frame's worth of audio: for each declared source rate one interleaved
/// buffer, all of the same length in time.
#[derive(Debug)]
pub struct Submission<S> {
    rates: Vec<u32>,
    buffers: Vec<Vec<S>>,
    channels: usize,
    length: Duration,
}

impl<S> Submission<S> {
    /// The submission holds each rate once, and each of its buffers holds
    /// its length of audio in every channel.
    #[verifier::type_invariant]
    pub closed spec fn wf(self) -> bool {
        &&& self.rates.len() == self.buffers.len()
        &&& distinct(self.rates@)
        &&& stream_sizes_fit(self.rates@, self.channels as nat, self.length)
        &&& forall|k: int| 0 <= k < self.buffers.len() ==>
            (#[trigger] self.buffers[k]).len() == self.length.frames_at(self.rates[k]) * self.channels
    }
}

impl<S: Sample> Submission<S> {
    /// The number of interleaved channels.
    pub closed spec fn spec_channels(&self) -> usize {
        self.channels
    }

    /// The length of time that every stream holds.
    pub closed spec fn spec_length(&self) -> Duration {
        self.length
    }

    /// The rates of the streams, in the order in which they are mixed.
    pub closed spec fn rates(&self) -> Seq<u32> {
        self.rates@
    }

    /// The interleaved buffers; `buffers()[k]` is the stream at `rates()[k]`.
    pub closed spec fn buffers(&self) -> Seq<Seq<S>> {
        Seq::new(self.buffers.len() as nat, |k: int| self.buffers[k]@)
    }

    /// What a well-formed submission is made of.
    pub proof fn lemma_shape(self)
        requires
            self.wf(),
        ensures
            self.rates().len() == self.buffers().len(),
            distinct(self.rates()),
            stream_sizes_fit(self.rates(), self.channels() as nat, self.length()),
            forall|k: int| 0 <= k < self.buffers().len() ==>
                (#[trigger] self.buffers()[k]).len() == self.length().frames_at(self.rates()[k]) * self.channels(),
    {
    }

    /// The number of interleaved channels of every stream.
    #[verifier::when_used_as_spec(spec_channels)]
    pub fn channels(&self) -> (r: usize)
        ensures
            r == self.channels(),
    {
        self.channels
    }

    /// The length of time that every stream holds.
    #[verifier::when_used_as_spec(spec_length)]
    pub fn length(&self) -> (r: Duration)
        ensures
            r == self.length(),
    {
        self.length
    }

    /// The number of streams.
    pub fn stream_count(&self) -> (r: usize)
        ensures
            r == self.rates().len(),
            r == self.buffers().len(),
    {
        proof {
            use_type_invariant(self);
        }
        self.rates.len()
    }

    /// The rate of stream `k`.
    pub fn rate_at(&self, k: usize) -> (r: u32)
        requires
            k < self.rates().len(),
        ensures
            r == self.rates()[k as int],
    {
        self.rates[k]
    }

    /// The interleaved samples of stream `k`.
    pub fn samples_at(&self, k: usize) -> (r: &Vec<S>)
        requires
            k < self.rates().len(),
        ensures
            r@ == self.buffers()[k as int],
            r@.len() == self.length().frames_at(self.rates()[k as int]) * self.channels(),
    {
        proof {
            use_type_invariant(self);
        }
        &self.buffers[k]
    }

    fn position(&self, rate: u32) -> (r: Option<usize>)
        ensures
            match r {
                Some(k) => k < self.rates.len() && self.rates[k as int] == rate,
                None => !self.rates@.contains(rate),
            },
    {
        let mut k: usize = 0;
        while k < self.rates.len()
            invariant
                k <= self.rates.len(),
                forall|j: int| 0 <= j < k ==> self.rates[j] != rate,
            decreases self.rates.len() - k,
        {
            if self.rates[k] == rate {
                return Some(k);
            }
            k += 1;
        }
        None
    }

    /// The number of frames that the stream at `rate` holds in each channel,
    /// or `None` where the submission holds no stream at `rate`.
    pub open spec fn spec_length_of_channel(&self, rate: u32) -> Option<usize> {
        if self.rates().contains(rate) {
            Some(self.length().frames_at(rate) as usize)
        } else {
            None
        }
    }

    /// The number of frames that the stream at `rate` holds in each channel,
    /// or `None` where the submission holds no stream at `rate`.
    #[verifier::when_used_as_spec(spec_length_of_channel)]
    pub fn length_of_channel(&self, rate: u32) -> (r: Option<usize>)
        ensures
            r == self.length_of_channel(rate),
            self.rates().contains(rate) ==> self.length().frames_at(rate) <= usize::MAX,
    {
        proof {
            use_type_invariant(self);
        }
        match self.position(rate) {
            Some(k) => {
                assert(stream_size_fits(self.rates[k as int], self.channels as nat, self.length));
                self.length.frames(rate)
            },
            None => None,
        }
    }

    /// Adds `samples` to channel `channel` of the stream at `rate`, frame by
    /// frame from the start of the buffer. Frames past the end of `samples`
    /// gain silence; samples past the end of the buffer are left out. Where
    /// the submission holds no stream at `rate`, or `channel` is not one of
    /// its channels, nothing changes.
    pub fn add(&mut self, rate: u32, channel: usize, samples: &[S])
        ensures
            is_added(*old(self), *final(self), rate, channel, samples@),
    {
        proof {
            use_type_invariant(&*self);
        }
        if channel >= self.channels {
            return;
        }
        let found = self.position(rate);
        if let Some(k) = found {
            let mut taken = Submission { rates: Vec::new(), buffers: Vec::new(), channels: 1, length: self.length };
            std::mem::swap(self, &mut taken);
            let Submission { rates, mut buffers, channels, length } = taken;
            let ghost before = buffers[k as int]@;
            let buffer: &mut Vec<S> = &mut buffers[k];
            let len = buffer.len();
            let frames = len / channels;
            proof {
                let n = length.frames_at(rates[k as int]) as int;
                lemma_fundamental_div_mod_converse(len as int, channels as int, n, 0);
            }
            let mut frame: usize = 0;
            while frame < frames
                invariant
                    channels >= 1,
                    channel < channels,
                    buffer.len() == len,
                    len == before.len(),
                    len == frames * channels,
                    frame <= frames,
                    forall|i: int| 0 <= i < len ==> #[trigger] buffer[i] == if i % (channels as int) == channel && i / (channels as int) < frame {
                        added(before, channels as nat, channel as nat, samples@)[i]
                    } else {
                        before[i]
                    },
                decreases frames - frame,
            {
                assert(frame * channels + channel < frames * channels) by (nonlinear_arith)
                    requires
                        frame < frames,
                        channel < channels,
                ;
                let slot = frame * channels + channel;
                let gain = if frame < samples.len() { samples[frame] } else { S::zero() };
                let sum = buffer[slot].plus(gain);
                buffer[slot] = sum;
                proof {
                    lemma_fundamental_div_mod_converse(slot as int, channels as int, frame as int, channel as int);
                    assert forall|i: int| 0 <= i < len implies #[trigger] buffer[i] == if i % (channels as int) == channel && i / (channels as int) < frame + 1 {
                        added(before, channels as nat, channel as nat, samples@)[i]
                    } else {
                        before[i]
                    } by {
                        if i != slot && i % (channels as int) == channel && i / (channels as int) == frame {
                            lemma_fundamental_div_mod(i, channels as int);
                            assert((channels as int) * (i / (channels as int)) == frame * channels) by (nonlinear_arith)
                                requires
                                    i / (channels as int) == frame,
                            ;
                        }
                    }
                }
                frame += 1;
            }
            proof {
                let target = added(before, channels as nat, channel as nat, samples@);
                assert forall|i: int| 0 <= i < len implies #[trigger] buffer[i] == target[i] by {
                    lemma_fundamental_div_mod(i, channels as int);
                    if i / (channels as int) >= frames {
                        assert((i / (channels as int)) * channels >= frames * channels) by (nonlinear_arith)
                            requires
                                i / (channels as int) >= frames,
                                channels >= 1,
                        ;
                    }
                }
                assert(buffer@ =~= added(before, channels as nat, channel as nat, samples@));
            }
            *self = Submission { rates, buffers, channels, length };
        }
    }
}

/// The rate that is assumed where a mixer is told of no rate at all.
pub const DEFAULT_SAMPLE_RATE: u32 = 44100;

/// The interpolation that a resampler is asked to use.
#[derive(Clone, Copy, Debug, PartialEq, Eq, Structural)]
pub enum ConverterType {
    SincBestQuality,
    SincMediumQuality,
    SincFastest,
    ZeroOrderHold,
    Linear,
}

/// What a mixer does to a stream of a given rate.
#[derive(Clone, Copy, Debug, PartialEq, Eq, Structural)]
pub enum Conversion {
    /// The rate is the target rate: the stream is mixed as it is.
    Passthrough,
    /// The stream has to be resampled to the target rate before it is mixed.
    Resample,
    /// The rate was never declared to the mixer: the stream is dropped.
    Unregistered,
}

/// `rates` without repetitions: each rate stands where it first occurs.
pub open spec fn first_occurrences(rates: Seq<u32>) -> Seq<u32>
    decreases rates.len(),
{
    if rates.len() == 0 {
        Seq::empty()
    } else {
        let earlier = first_occurrences(rates.drop_last());
        if earlier.contains(rates.last()) {
            earlier
        } else {
            earlier.push(rates.last())
        }
    }
}

/// `first_occurrences` keeps every rate, once.
pub proof fn lemma_first_occurrences(rates: Seq<u32>)
    ensures
        distinct(first_occurrences(rates)),
        forall|r: u32| first_occurrences(rates).contains(r) <==> rates.contains(r),
    decreases rates.len(),
{
    if rates.len() > 0 {
        let shorter = rates.drop_last();
        let earlier = first_occurrences(shorter);
        lemma_first_occurrences(shorter);
        assert forall|r: u32| first_occurrences(rates).contains(r) <==> rates.contains(r) by {
            if rates.contains(r) {
                let i = choose|i: int| 0 <= i < rates.len() && rates[i] == r;
                if i < rates.len() - 1 {
                    assert(shorter[i] == r);
                    assert(shorter.contains(r));
                    let j = choose|j: int| 0 <= j < earlier.len() && earlier[j] == r;
                    assert(first_occurrences(rates)[j] == r);
                } else if !earlier.contains(r) {
                    assert(first_occurrences(rates)[earlier.len() as int] == r);
                }
            }
            if first_occurrences(rates).contains(r) {
                let j = choose|j: int| 0 <= j < first_occurrences(rates).len() && first_occurrences(rates)[j] == r;
                if j < earlier.len() {
                    assert(shorter.contains(r));
                }
            }
        }
    }
}

/// The rate that a mixer resamples to: the forced rate where there is one,
/// else the highest of the declared source rates, else the default rate.
pub open spec fn is_target_rate(forced: Option<u32>, sources: Seq<u32>, target: u32) -> bool {
    match forced {
        Some(rate) => target == rate,
        None => if sources.len() == 0 {
            target == DEFAULT_SAMPLE_RATE
        } else {
            &&& sources.contains(target)
            &&& forall|i: int| 0 <= i < sources.len() ==> sources[i] <= target
        },
    }
}

/// What a mixer with the declared `rates` and the target rate `target` does
/// to a stream at `rate`.
pub open spec fn conversion_of(rates: Seq<u32>, target: u32, rate: u32) -> Conversion {
    if !rates.contains(rate) {
        Conversion::Unregistered
    } else if rate == target {
        Conversion::Passthrough
    } else {
        Conversion::Resample
    }
}

/// `rates` without the rate `target`, in their order.
pub open spec fn without(rates: Seq<u32>, target: u32) -> Seq<u32>
    decreases rates.len(),
{
    if rates.len() == 0 {
        Seq::empty()
    } else {
        let earlier = without(rates.drop_last(), target);
        if rates.last() == target {
            earlier
        } else {
            earlier.push(rates.last())
        }
    }
}

/// The rates that need a resampler are those that the mixer resamples, each
/// once.
pub proof fn lemma_without(rates: Seq<u32>, target: u32)
    requires
        distinct(rates),
    ensures
        distinct(without(rates, target)),
        forall|rate: u32| #[trigger]
            without(rates, target).contains(rate) <==> conversion_of(rates, target, rate) == Conversion::Resample,
    decreases rates.len(),
{
    if rates.len() > 0 {
        let shorter = rates.drop_last();
        let last = rates.last();
        let earlier = without(shorter, target);
        assert(distinct(shorter)) by {
            assert forall|i: int, j: int| 0 <= i < j < shorter.len() implies shorter[i] != shorter[j] by {
                assert(shorter[i] == rates[i] && shorter[j] == rates[j]);
            }
        }
        lemma_without(shorter, target);
        assert(!shorter.contains(last)) by {
            if shorter.contains(last) {
                let j = choose|j: int| 0 <= j < shorter.len() && shorter[j] == last;
                assert(rates[j] == rates[rates.len() - 1]);
            }
        }
        assert forall|rate: u32| rates.contains(rate) <==> shorter.contains(rate) || rate == last by {
            if rates.contains(rate) {
                let j = choose|j: int| 0 <= j < rates.len() && rates[j] == rate;
                if j < shorter.len() {
                    assert(shorter[j] == rate);
                }
            }
            if shorter.contains(rate) {
                let j = choose|j: int| 0 <= j < shorter.len() && shorter[j] == rate;
                assert(rates[j] == rate);
            }
            if rate == last {
                assert(rates[rates.len() - 1] == rate);
            }
        }
        let result = without(rates, target);
        if last == target {
            assert forall|rate: u32| #[trigger]
                result.contains(rate) <==> conversion_of(rates, target, rate) == Conversion::Resample by {
                assert(earlier.contains(rate) <==> conversion_of(shorter, target, rate) == Conversion::Resample);
            }
        } else {
            assert(!earlier.contains(last)) by {
                assert(earlier.contains(last) <==> conversion_of(shorter, target, last) == Conversion::Resample);
            }
            assert forall|rate: u32| result.contains(rate) <==> earlier.contains(rate) || rate == last by {
                if result.contains(rate) {
                    let j = choose|j: int| 0 <= j < result.len() && result[j] == rate;
                    if j < earlier.len() {
                        assert(earlier[j] == rate);
                    }
                }
                if earlier.contains(rate) {
                    let j = choose|j: int| 0 <= j < earlier.len() && earlier[j] == rate;
                    assert(result[j] == rate);
                }
                if rate == last {
                    assert(result[earlier.len() as int] == rate);
                }
            }
            assert forall|rate: u32| #[trigger]
                result.contains(rate) <==> conversion_of(rates, target, rate) == Conversion::Resample by {
                assert(earlier.contains(rate) <==> conversion_of(shorter, target, rate) == Conversion::Resample);
                assert(result.contains(rate) <==> earlier.contains(rate) || rate == last);
            }
            assert forall|a: int, b: int| 0 <= a < b < result.len() implies result[a] != result[b] by {
                if b == earlier.len() {
                    assert(earlier[a] == result[a]);
                    assert(earlier.contains(result[a]));
                } else {
                    assert(earlier[a] == result[a] && earlier[b] == result[b]);
                }
            }
        }
    }
}

/// A stream at the target rate is never resampled, and a stream is
/// resampled only where its rate was declared and is not the target rate.
pub proof fn lemma_target_is_never_resampled(rates: Seq<u32>, target: u32)
    ensures
        conversion_of(rates, target, target) != Conversion::Resample,
        forall|rate: u32| #[trigger]
            conversion_of(rates, target, rate) == Conversion::Resample <==> rates.contains(rate) && rate
                != target,
{
}

/// Collects what a mixer is to be made of.
#[derive(Clone, Debug)]
pub struct MixerBuilder {
    channels: usize,
    sample_rate: Option<u32>,
    conv_type: ConverterType,
    source_rates: Vec<u32>,
}

impl MixerBuilder {
    /// The number of interleaved channels.
    pub closed spec fn spec_channels(&self) -> usize {
        self.channels
    }

    /// The forced target rate, if one was set.
    pub closed spec fn forced_rate(&self) -> Option<u32> {
        self.sample_rate
    }

    /// The interpolation that the resamplers are to use.
    pub closed spec fn converter(&self) -> ConverterType {
        self.conv_type
    }

    /// The declared source rates, in the order of their declaration.
    pub closed spec fn source_rates(&self) -> Seq<u32> {
        self.source_rates@
    }

    /// A builder for one channel, no forced target rate, the fastest sinc
    /// interpolation and no source rates.
    pub fn new() -> (r: Self)
        ensures
            r.spec_channels() == 1,
            r.forced_rate() is None,
            r.converter() == ConverterType::SincFastest,
            r.source_rates() == Seq::<u32>::empty(),
    {
        MixerBuilder {
            channels: 1,
            sample_rate: None,
            conv_type: ConverterType::SincFastest,
            source_rates: Vec::new(),
        }
    }

    /// Sets the number of channels of the output.
    pub fn channels(&mut self, channels: usize) -> (r: &mut Self)
        ensures
            r.spec_channels() == channels,
            r.forced_rate() == old(self).forced_rate(),
            r.converter() == old(self).converter(),
            r.source_rates() == old(self).source_rates(),
            *final(self) == *final(r),
    {
        self.channels = channels;
        self
    }

    /// Forces the target rate.
    pub fn target_sample_rate(&mut self, rate: u32) -> (r: &mut Self)
        ensures
            r.spec_channels() == old(self).spec_channels(),
            r.forced_rate() == Some(rate),
            r.converter() == old(self).converter(),
            r.source_rates() == old(self).source_rates(),
            *final(self) == *final(r),
    {
        self.sample_rate = Some(rate);
        self
    }

    /// Sets the interpolation that the resamplers are to use.
    pub fn resample_type(&mut self, ty: ConverterType) -> (r: &mut Self)
        ensures
            r.spec_channels() == old(self).spec_channels(),
            r.forced_rate() == old(self).forced_rate(),
            r.converter() == ty,
            r.source_rates() == old(self).source_rates(),
            *final(self) == *final(r),
    {
        self.conv_type = ty;
        self
    }

    /// Declares the rate of a source.
    pub fn source_rate(&mut self, rate: u32) -> (r: &mut Self)
        ensures
            r.spec_channels() == old(self).spec_channels(),
            r.forced_rate() == old(self).forced_rate(),
            r.converter() == old(self).converter(),
            r.source_rates() == old(self).source_rates().push(rate),
            *final(self) == *final(r),
    {
        self.source_rates.push(rate);
        self
    }

    /// Builds the mixer, which takes its submissions from `source`.
    ///
    /// The mixer resamples to the forced target rate where one was set, else
    /// to the highest declared source rate, else to the default rate. It
    /// knows each declared source rate once. A mixer is built for any number
    /// of channels; one without channels mixes chunks without samples.
    pub fn build<S: Sample>(self, source: SubmissionSlot<S>) -> (mixer: Mixer<S>)
        ensures
            mixer.wf(),
            mixer.channels() == self.spec_channels(),
            mixer.converter() == self.converter(),
            is_target_rate(self.forced_rate(), self.source_rates(), mixer.sample_rate()),
            mixer.rates() == first_occurrences(self.source_rates()),
            mixer.pending() == source.held(),
    {
        let sample_rate = match self.sample_rate {
            Some(rate) => rate,
            None => {
                if self.source_rates.len() == 0 {
                    DEFAULT_SAMPLE_RATE
                } else {
                    let mut highest = self.source_rates[0];
                    let mut i: usize = 1;
                    while i < self.source_rates.len()
                        invariant
                            1 <= i <= self.source_rates.len(),
                            exists|j: int| 0 <= j < i && self.source_rates[j] == highest,
                            forall|j: int| 0 <= j < i ==> self.source_rates[j] <= highest,
                        decreases self.source_rates.len() - i,
                    {
                        if self.source_rates[i] > highest {
                            highest = self.source_rates[i];
                        }
                        i += 1;
                    }
                    highest
                }
            },
        };
        let mut rates: Vec<u32> = Vec::new();
        let mut i: usize = 0;
        while i < self.source_rates.len()
            invariant
                i <= self.source_rates.len(),
                rates@ == first_occurrences(self.source_rates@.take(i as int)),
            decreases self.source_rates.len() - i,
        {
            let rate = self.source_rates[i];
            let mut known = false;
            let mut j: usize = 0;
            while j < rates.len()
                invariant
                    j <= rates.len(),
                    known <==> exists|k: int| 0 <= k < j && rates[k] == rate,
                decreases rates.len() - j,
            {
                if rates[j] == rate {
                    known = true;
                }
                j += 1;
            }
            proof {
                let longer = self.source_rates@.take(i + 1);
                assert(longer.drop_last() =~= self.source_rates@.take(i as int));
            }
            if !known {
                rates.push(rate);
            }
            i += 1;
        }
        proof {
            assert(self.source_rates@.take(self.source_rates.len() as int) =~= self.source_rates@);
            lemma_first_occurrences(self.source_rates@);
        }
        Mixer {
            submission_queue: source,
            layout: Layout { channels: self.channels, sample_rate, conv_type: self.conv_type, rates },
        }
    }
}

/// What `chunk` holds after `stream` was summed into it, sample by sample:
/// a stream that ends early contributes silence, one that is longer than the
/// chunk loses its end.
pub open spec fn accumulated<S: Sample>(chunk: Seq<S>, stream: Seq<S>) -> Seq<S> {
    Seq::new(
        chunk.len(),
        |i: int|
            chunk[i].spec_plus(
                if i < stream.len() {
                    stream[i]
                } else {
                    S::spec_zero()
                },
            ),
    )
}

/// The plain sum of `streams`, taken in their order onto `len` samples of
/// silence.
pub open spec fn mixed<S: Sample>(streams: Seq<Seq<S>>, len: nat) -> Seq<S>
    decreases streams.len(),
{
    if streams.len() == 0 {
        silence(len)
    } else {
        accumulated(mixed(streams.drop_last(), len), streams.last())
    }
}

/// The streams that a mixer sums, of the first `upto` streams of a
/// submission: a stream at the target rate as it is; a stream at another
/// declared rate as the resampler gave it back, and not at all where the
/// resampler gave nothing; no stream at a rate that was never declared.
pub open spec fn usable<S: Sample>(
    declared: Seq<u32>,
    target: u32,
    rates: Seq<u32>,
    buffers: Seq<Seq<S>>,
    resampled: Seq<Option<Vec<S>>>,
    upto: nat,
) -> Seq<Seq<S>>
    decreases upto,
{
    if upto == 0 {
        Seq::empty()
    } else {
        let k = (upto - 1) as int;
        let earlier = usable(declared, target, rates, buffers, resampled, (upto - 1) as nat);
        match conversion_of(declared, target, rates[k]) {
            Conversion::Passthrough => earlier.push(buffers[k]),
            Conversion::Resample => if k < resampled.len() && resampled[k] is Some {
                earlier.push(resampled[k]->0@)
            } else {
                earlier
            },
            Conversion::Unregistered => earlier,
        }
    }
}

/// What a mixer was built with.
struct Layout {
    channels: usize,
    sample_rate: u32,
    conv_type: ConverterType,
    rates: Vec<u32>,
}

impl Layout {
    #[verifier::type_invariant]
    closed spec fn wf(self) -> bool {
        distinct(self.rates@)
    }
}

/// Sums the streams of each submission into one chunk at one rate.
pub struct Mixer<S> {
    submission_queue: SubmissionSlot<S>,
    layout: Layout,
}

impl<S: Sample> Mixer<S> {
    /// The mixer knows each source rate once.
    pub closed spec fn wf(self) -> bool {
        self.layout.wf()
    }

    /// The number of interleaved channels.
    pub closed spec fn spec_channels(&self) -> usize {
        self.layout.channels
    }

    /// The target rate.
    pub closed spec fn spec_sample_rate(&self) -> u32 {
        self.layout.sample_rate
    }

    /// The interpolation that the resamplers are to use.
    pub closed spec fn converter(&self) -> ConverterType {
        self.layout.conv_type
    }

    /// The declared source rates, each once, in the order of declaration.
    pub closed spec fn rates(&self) -> Seq<u32> {
        self.layout.rates@
    }

    /// The submission that waits to be mixed.
    pub closed spec fn pending(&self) -> Option<Submission<S>> {
        self.submission_queue.held()
    }

    /// This mixer is well-formed and was built as `other` was: whatever
    /// waits in the two, they mix alike.
    pub open spec fn same_layout(&self, other: Mixer<S>) -> bool {
        &&& self.wf()
        &&& self.channels() == other.channels()
        &&& self.sample_rate() == other.sample_rate()
        &&& self.converter() == other.converter()
        &&& self.rates() == other.rates()
    }

    /// The number of samples of the chunk that a submission of `length`
    /// is mixed into.
    pub open spec fn spec_chunk_len(&self, length: Duration) -> nat {
        length.frames_at(self.sample_rate()) * self.channels() as nat
    }

    /// What a well-formed mixer is made of.
    pub proof fn lemma_shape(self)
        requires
            self.wf(),
        ensures
            distinct(self.rates()),
    {
    }

    /// The number of interleaved channels of the output.
    #[verifier::when_used_as_spec(spec_channels)]
    pub fn channels(&self) -> (r: usize)
        ensures
            r == self.channels(),
            self.wf(),
    {
        proof {
            use_type_invariant(&self.layout);
        }
        self.layout.channels
    }

    /// The target rate.
    #[verifier::when_used_as_spec(spec_sample_rate)]
    pub fn sample_rate(&self) -> (r: u32)
        ensures
            r == self.sample_rate(),
    {
        self.layout.sample_rate
    }

    /// The interpolation that the resamplers of this mixer are to use.
    pub fn resample_type(&self) -> (r: ConverterType)
        ensures
            r == self.converter(),
    {
        self.layout.conv_type
    }

    /// A builder of submissions for this mixer: it has the mixer's channel
    /// count and its declared source rates.
    pub fn submission_builder(&self) -> (r: SubmissionBuilder)
        ensures
            r.wf(),
            r.channels() == self.channels(),
            r.rates() == self.rates(),
    {
        proof {
            use_type_invariant(&self.layout);
        }
        let mut rates: Vec<u32> = Vec::new();
        let mut i: usize = 0;
        while i < self.layout.rates.len()
            invariant
                i <= self.layout.rates.len(),
                rates@ == self.layout.rates@.take(i as int),
            decreases self.layout.rates.len() - i,
        {
            rates.push(self.layout.rates[i]);
            i += 1;
        }
        SubmissionBuilder { channels: self.layout.channels, rates }
    }

    /// The submission that waits to be mixed, if there is one.
    pub fn waiting(&self) -> (r: &Option<Submission<S>>)
        ensures
            *r == self.pending(),
    {
        self.submission_queue.peek()
    }

    /// The slot from which the mixer takes its submissions.
    pub fn submission_queue(&mut self) -> (r: &mut SubmissionSlot<S>)
        ensures
            r.held() == old(self).pending(),
            final(self).pending() == final(r).held(),
            old(self).wf(),
            final(self).same_layout(*old(self)),
    {
        proof {
            use_type_invariant(&self.layout);
        }
        &mut self.submission_queue
    }

    /// The chunks of the mixer as one stream of samples.
    pub fn into_stream(self) -> (r: MixerStream<S>)
        ensures
            r.mixer() == self,
            r.remaining() == Seq::<S>::empty(),
    {
        MixerStream::new(self)
    }

    /// What the mixer does to a stream at `rate`.
    pub fn conversion(&self, rate: u32) -> (r: Conversion)
        ensures
            r == conversion_of(self.rates(), self.sample_rate(), rate),
    {
        let mut i: usize = 0;
        while i < self.layout.rates.len()
            invariant
                i <= self.layout.rates.len(),
                forall|j: int| 0 <= j < i ==> self.layout.rates[j] != rate,
            decreases self.layout.rates.len() - i,
        {
            if self.layout.rates[i] == rate {
                return if rate == self.layout.sample_rate {
                    Conversion::Passthrough
                } else {
                    Conversion::Resample
                };
            }
            i += 1;
        }
        Conversion::Unregistered
    }

    /// The rates for which the mixer needs a resampler: the declared rates
    /// but the target rate, in the order of their declaration. A mixer of
    /// which every declared rate is the target rate needs none.
    pub fn resampled_rates(&self) -> (r: Vec<u32>)
        ensures
            r@ == without(self.rates(), self.sample_rate()),
    {
        let mut out: Vec<u32> = Vec::new();
        let mut i: usize = 0;
        while i < self.layout.rates.len()
            invariant
                i <= self.layout.rates.len(),
                out@ == without(self.layout.rates@.take(i as int), self.layout.sample_rate),
            decreases self.layout.rates.len() - i,
        {
            proof {
                assert(self.layout.rates@.take(i + 1).drop_last() =~= self.layout.rates@.take(i as int));
            }
            if self.layout.rates[i] != self.layout.sample_rate {
                out.push(self.layout.rates[i]);
            }
            i += 1;
        }
        assert(self.layout.rates@.take(self.layout.rates.len() as int) =~= self.layout.rates@);
        out
    }

    /// The number of samples of the chunk that a submission of `length` is
    /// mixed into, or `None` where such a chunk cannot be held in memory.
    pub fn chunk_len(&self, length: Duration) -> (r: Option<usize>)
        ensures
            r == if self.spec_chunk_len(length) <= usize::MAX {
                Some(self.spec_chunk_len(length) as usize)
            } else {
                None
            },
    {
        proof {
            use_type_invariant(&self.layout);
        }
        if self.layout.channels == 0 {
            assert(length.frames_at(self.layout.sample_rate) * 0 == 0);
            return Some(0);
        }
        match length.frames(self.layout.sample_rate) {
            Some(frames) => frames.checked_mul(self.layout.channels),
            None => {
                assert(length.frames_at(self.layout.sample_rate) * self.layout.channels > usize::MAX) by (nonlinear_arith)
                    requires
                        length.frames_at(self.layout.sample_rate) > usize::MAX,
                        self.layout.channels >= 1,
                ;
                None
            },
        }
    }

    /// The streams of `submission` that the mixer sums, where the
    /// resamplers gave `resampled` for its streams.
    pub open spec fn inputs(&self, submission: Submission<S>, resampled: Seq<Option<Vec<S>>>) -> Seq<Seq<S>> {
        usable(
            self.rates(),
            self.sample_rate(),
            submission.rates(),
            submission.buffers(),
            resampled,
            submission.rates().len(),
        )
    }

    /// What `next` gives for the submission `submission`, where the
    /// resamplers gave `resampled` for its streams: a single stream that
    /// fills the chunk as it is, untouched; else the plain sum of the
    /// streams.
    pub open spec fn mixdown(&self, submission: Submission<S>, resampled: Seq<Option<Vec<S>>>) -> Seq<S> {
        let streams = self.inputs(submission, resampled);
        let len = self.spec_chunk_len(submission.length());
        if streams.len() == 1 && streams[0].len() == len {
            streams[0]
        } else {
            mixed(streams, len)
        }
    }

    /// Takes the pending submission out of the slot and sums its streams
    /// into one chunk at the target rate. Where there is one stream only and
    /// it fills the chunk, it comes out as it is, with nothing added to it.
    ///
    /// `resampled[k]` is what the resampler gave for stream `k` of the
    /// pending submission; it is read only where `conversion` says that the
    /// stream has to be resampled, and a stream for which it holds nothing is
    /// left out of the sum. There is no chunk where no submission is pending,
    /// or where the chunk could not be held in memory.
    pub fn next(&mut self, resampled: &Vec<Option<Vec<S>>>) -> (r: Option<Vec<S>>)
        ensures
            final(self).same_layout(*old(self)),
            final(self).pending() is None,
            match old(self).pending() {
                None => r is None,
                Some(submission) => if old(self).spec_chunk_len(submission.length()) <= usize::MAX {
                    r matches Some(chunk) && chunk@ == old(self).mixdown(submission, resampled@)
                } else {
                    r is None
                },
            },
    {
        proof {
            use_type_invariant(&self.layout);
        }
        let submission = match self.submission_queue.next() {
            Some(submission) => submission,
            None => {
                return None;
            },
        };
        let len = match self.chunk_len(submission.length()) {
            Some(len) => len,
            None => {
                return None;
            },
        };
        match self.only_input(&submission, resampled) {
            Some(stream) => {
                if stream.len() == len {
                    Some(copy_of(stream))
                } else {
                    Some(self.sum(&submission, resampled, len))
                }
            },
            None => Some(self.sum(&submission, resampled, len)),
        }
    }

    /// The one stream of `submission` that the mixer sums, where there is
    /// exactly one.
    fn only_input<'a>(&self, submission: &'a Submission<S>, resampled: &'a Vec<Option<Vec<S>>>) -> (r: Option<
        &'a Vec<S>,
    >)
        ensures
            match r {
                Some(stream) => self.inputs(*submission, resampled@) == seq![stream@],
                None => self.inputs(*submission, resampled@).len() != 1,
            },
    {
        let count = submission.stream_count();
        let mut found: Option<&'a Vec<S>> = None;
        let mut many = false;
        let mut k: usize = 0;
        while k < count
            invariant
                k <= count,
                count == submission.rates().len(),
                count == submission.buffers().len(),
                ({
                    let streams = usable(
                        self.rates(),
                        self.sample_rate(),
                        submission.rates(),
                        submission.buffers(),
                        resampled@,
                        k as nat,
                    );
                    &&& many <==> streams.len() > 1
                    &&& !many ==> match found {
                        Some(stream) => streams == seq![stream@],
                        None => streams.len() == 0,
                    }
                }),
            decreases count - k,
        {
            let input: Option<&'a Vec<S>> = match self.conversion(submission.rate_at(k)) {
                Conversion::Passthrough => Some(submission.samples_at(k)),
                Conversion::Resample => if k < resampled.len() {
                    resampled[k].as_ref()
                } else {
                    None
                },
                Conversion::Unregistered => None,
            };
            if let Some(stream) = input {
                if found.is_some() {
                    many = true;
                }
                found = Some(stream);
            }
            k += 1;
        }
        if many {
            None
        } else {
            found
        }
    }

    /// The plain sum of the streams of `submission` that the mixer sums,
    /// onto `len` samples of silence.
    fn sum(&self, submission: &Submission<S>, resampled: &Vec<Option<Vec<S>>>, len: usize) -> (chunk: Vec<S>)
        ensures
            chunk@ == mixed(self.inputs(*submission, resampled@), len as nat),
    {
        let mut chunk: Vec<S> = Vec::new();
        while chunk.len() < len
            invariant
                chunk.len() <= len,
                chunk@ == silence::<S>(chunk.len() as nat),
            decreases len - chunk.len(),
        {
            chunk.push(S::zero());
        }
        let count = submission.stream_count();
        let mut k: usize = 0;
        while k < count
            invariant
                k <= count,
                count == submission.rates().len(),
                count == submission.buffers().len(),
                chunk.len() == len,
                chunk@ == mixed(
                    usable(
                        self.rates(),
                        self.sample_rate(),
                        submission.rates(),
                        submission.buffers(),
                        resampled@,
                        k as nat,
                    ),
                    len as nat,
                ),
            decreases count - k,
        {
            let ghost earlier = usable(
                self.rates(),
                self.sample_rate(),
                submission.rates(),
                submission.buffers(),
                resampled@,
                k as nat,
            );
            match self.conversion(submission.rate_at(k)) {
                Conversion::Passthrough => {
                    accumulate(&mut chunk, submission.samples_at(k));
                    proof {
                        let stream = submission.buffers()[k as int];
                        assert(earlier.push(stream).drop_last() =~= earlier);
                    }
                },
                Conversion::Resample => {
                    if k < resampled.len() {
                        if let Some(stream) = &resampled[k] {
                            accumulate(&mut chunk, stream);
                            proof {
                                assert(earlier.push(stream@).drop_last() =~= earlier);
                            }
                        }
                    }
                },
                Conversion::Unregistered => {},
            }
            k += 1;
        }
        chunk
    }
}

/// A copy of `stream`.
fn copy_of<S: Sample>(stream: &Vec<S>) -> (r: Vec<S>)
    ensures
        r@ == stream@,
{
    let mut copy: Vec<S> = Vec::new();
    let mut i: usize = 0;
    while i < stream.len()
        invariant
            i <= stream.len(),
            copy@ == stream@.take(i as int),
        decreases stream.len() - i,
    {
        copy.push(stream[i]);
        assert(stream@.take(i as int).push(stream@[i as int]) =~= stream@.take(i + 1));
        i += 1;
    }
    assert(stream@.take(stream.len() as int) =~= stream@);
    copy
}

/// Sums `stream` into `chunk`, sample by sample.
fn accumulate<S: Sample>(chunk: &mut Vec<S>, stream: &Vec<S>)
    ensures
        final(chunk)@ == accumulated(old(chunk)@, stream@),
{
    let ghost before = chunk@;
    let len = chunk.len();
    let mut i: usize = 0;
    while i < len
        invariant
            i <= len,
            chunk.len() == len,
            before.len() == len,
            forall|j: int| 0 <= j < i ==> #[trigger] chunk[j] == accumulated(before, stream@)[j],
            forall|j: int| i <= j < len ==> #[trigger] chunk[j] == before[j],
        decreases len - i,
    {
        let gain = if i < stream.len() { stream[i] } else { S::zero() };
        let sum = chunk[i].plus(gain);
        chunk[i] = sum;
        i += 1;
    }
}

/// A submission of length `d` holds `round(d * r)` frames in each channel
/// of its stream at each declared rate `r`, and `round(d * r)` samples for
/// each of its channels: all its streams span the same length of time.
pub proof fn lemma_length_of_channel<S: Sample>(
    builder: SubmissionBuilder,
    length: Duration,
    submission: Submission<S>,
    rate: u32,
)
    requires
        builder.fits(length),
        builder.is_created(length, submission),
        builder.rates().contains(rate),
    ensures
        submission.length_of_channel(rate) == Some(frame_count(length.nanos as nat, rate as nat) as usize),
        frame_count(length.nanos as nat, rate as nat) <= usize::MAX,
        exists|k: int|
            0 <= k < submission.rates().len() && submission.rates()[k] == rate && (
            #[trigger] submission.buffers()[k]).len() == frame_count(length.nanos as nat, rate as nat)
                * builder.channels(),
{
    submission.lemma_shape();
    let k = choose|k: int| 0 <= k < builder.rates().len() && builder.rates()[k] == rate;
    assert(stream_size_fits(builder.rates()[k], builder.channels() as nat, length));
    assert(submission.buffers()[k].len() == length.frames_at(rate) * submission.channels());
}

/// Where `samples` reach, they are what is added; past their end, silence
/// is.
pub open spec fn padded<S: Sample>(samples: Seq<S>, frame: int) -> S {
    if 0 <= frame < samples.len() {
        samples[frame]
    } else {
        S::spec_zero()
    }
}

/// Two additions to one channel sum up: frame `f` of the channel holds what
/// it held, plus `a[f]`, plus `b[f]`, each with silence past its end. The
/// other channels keep what they held.
pub proof fn lemma_added_twice<S: Sample>(buffer: Seq<S>, channels: nat, channel: nat, a: Seq<S>, b: Seq<S>)
    requires
        channels >= 1,
        channel < channels,
    ensures
        added(added(buffer, channels, channel, a), channels, channel, b).len() == buffer.len(),
        forall|i: int|
            0 <= i < buffer.len() ==> #[trigger] added(added(buffer, channels, channel, a), channels, channel, b)[i]
                == if i % (channels as int) == channel {
                buffer[i].spec_plus(padded(a, i / (channels as int))).spec_plus(padded(b, i / (channels as int)))
            } else {
                buffer[i]
            },
{
    let once = added(buffer, channels, channel, a);
    let twice = added(once, channels, channel, b);
    assert forall|i: int| 0 <= i < buffer.len() implies #[trigger] twice[i] == if i % (channels as int)
        == channel {
        buffer[i].spec_plus(padded(a, i / (channels as int))).spec_plus(padded(b, i / (channels as int)))
    } else {
        buffer[i]
    } by {
        lemma_fundamental_div_mod(i, channels as int);
        if i / (channels as int) < 0 {
            assert((channels as int) * (i / (channels as int)) <= -(channels as int)) by (nonlinear_arith)
                requires
                    i / (channels as int) < 0,
                    channels >= 1,
            ;
        }
        assert(once[i] == if i % (channels as int) == channel {
            buffer[i].spec_plus(padded(a, i / (channels as int)))
        } else {
            buffer[i]
        });
    }
}

/// Additivity: two additions to one channel of one stream of a submission
/// leave, in each frame of that channel, what it held plus the one sample
/// plus the other, and leave every other channel and stream as it was.
pub proof fn lemma_additivity<S: Sample>(
    first: Submission<S>,
    second: Submission<S>,
    third: Submission<S>,
    rate: u32,
    channel: usize,
    a: Seq<S>,
    b: Seq<S>,
)
    requires
        first.wf(),
        is_added(first, second, rate, channel, a),
        is_added(second, third, rate, channel, b),
        channel < first.channels(),
    ensures
        third.rates() == first.rates(),
        third.buffers().len() == first.buffers().len(),
        forall|k: int, i: int|
            0 <= k < first.buffers().len() && 0 <= i < first.buffers()[k].len() ==> #[trigger] third.buffers()[k][i]
                == if first.rates()[k] == rate && i % (first.channels() as int) == channel {
                first.buffers()[k][i].spec_plus(padded(a, i / (first.channels() as int))).spec_plus(
                    padded(b, i / (first.channels() as int)),
                )
            } else {
                first.buffers()[k][i]
            },
{
    first.lemma_shape();
    assert forall|k: int, i: int|
        0 <= k < first.buffers().len() && 0 <= i < first.buffers()[k].len() implies #[trigger] third.buffers()[k][i]
            == if first.rates()[k] == rate && i % (first.channels() as int) == channel {
            first.buffers()[k][i].spec_plus(padded(a, i / (first.channels() as int))).spec_plus(
                padded(b, i / (first.channels() as int)),
            )
        } else {
            first.buffers()[k][i]
        } by {
        assert(second.buffers()[k] == if first.rates()[k] == rate {
            added(first.buffers()[k], first.channels() as nat, channel as nat, a)
        } else {
            first.buffers()[k]
        });
        assert(third.buffers()[k] == if first.rates()[k] == rate {
            added(second.buffers()[k], first.channels() as nat, channel as nat, b)
        } else {
            second.buffers()[k]
        });
        if first.rates()[k] == rate {
            lemma_added_twice(first.buffers()[k], first.channels() as nat, channel as nat, a, b);
        }
    }
}

/// Additivity from silence: after two additions to one channel of a stream
/// of a newly created submission, each frame of the channel holds the sum of
/// the two samples that were added to it, each with silence past its end;
/// everything else is silent still.
pub proof fn lemma_additivity_from_silence<S: Sample>(
    builder: SubmissionBuilder,
    length: Duration,
    first: Submission<S>,
    second: Submission<S>,
    third: Submission<S>,
    rate: u32,
    channel: usize,
    a: Seq<S>,
    b: Seq<S>,
)
    requires
        builder.is_created(length, first),
        is_added(first, second, rate, channel, a),
        is_added(second, third, rate, channel, b),
        channel < first.channels(),
    ensures
        forall|k: int, i: int|
            0 <= k < first.buffers().len() && 0 <= i < first.buffers()[k].len() ==> #[trigger] third.buffers()[k][i]
                == if first.rates()[k] == rate && i % (first.channels() as int) == channel {
                padded(a, i / (first.channels() as int)).spec_plus(padded(b, i / (first.channels() as int)))
            } else {
                S::spec_zero()
            },
{
    lemma_additivity(first, second, third, rate, channel, a, b);
    assert forall|k: int, i: int|
        0 <= k < first.buffers().len() && 0 <= i < first.buffers()[k].len() implies #[trigger] third.buffers()[k][i]
            == if first.rates()[k] == rate && i % (first.channels() as int) == channel {
            padded(a, i / (first.channels() as int)).spec_plus(padded(b, i / (first.channels() as int)))
        } else {
            S::spec_zero()
        } by {
        assert(first.buffers()[k][i] == S::spec_zero());
        S::lemma_zero_is_neutral(padded(a, i / (first.channels() as int)));
    }
}

/// Additivity, for PCM samples and a submission that was silent: after two
/// additions to one channel, each frame of the channel holds the clipped sum
/// of the two samples that were added to it.
pub proof fn lemma_additivity_pcm(
    builder: SubmissionBuilder,
    length: Duration,
    first: Submission<i32>,
    second: Submission<i32>,
    third: Submission<i32>,
    rate: u32,
    channel: usize,
    a: Seq<i32>,
    b: Seq<i32>,
)
    requires
        builder.is_created(length, first),
        is_added(first, second, rate, channel, a),
        is_added(second, third, rate, channel, b),
        channel < first.channels(),
    ensures
        forall|k: int, i: int|
            0 <= k < first.buffers().len() && 0 <= i < first.buffers()[k].len() ==> #[trigger] third.buffers()[k][i]
                == if first.rates()[k] == rate && i % (first.channels() as int) == channel {
                crate::sample::clipped_sum(
                    padded(a, i / (first.channels() as int)),
                    padded(b, i / (first.channels() as int)),
                )
            } else {
                0i32
            },
{
    lemma_additivity(first, second, third, rate, channel, a, b);
}

/// What comes out of a mixer is as long as its chunk.
pub proof fn lemma_mixdown_len<S: Sample>(mixer: Mixer<S>, submission: Submission<S>, resampled: Seq<Option<Vec<S>>>)
    ensures
        mixer.mixdown(submission, resampled).len() == mixer.spec_chunk_len(submission.length()),
{
    lemma_mixed_len(mixer.inputs(submission, resampled), mixer.spec_chunk_len(submission.length()));
}

/// Passthrough of a single stream: where a submission holds one stream
/// only, at the target rate of the mixer, that stream comes out of the mixer
/// as it is, sample for sample, whatever its samples are.
pub proof fn lemma_single_stream<S: Sample>(
    mixer: Mixer<S>,
    submission: Submission<S>,
    resampled: Seq<Option<Vec<S>>>,
)
    requires
        submission.wf(),
        submission.channels() == mixer.channels(),
        submission.rates().len() == 1,
        submission.rates()[0] == mixer.sample_rate(),
        mixer.rates().contains(mixer.sample_rate()),
    ensures
        mixer.mixdown(submission, resampled) == submission.buffers()[0],
{
    submission.lemma_shape();
    reveal_with_fuel(usable, 2);
    let streams = mixer.inputs(submission, resampled);
    assert(streams =~= seq![submission.buffers()[0]]);
}

/// A chunk is as long as it was asked to be.
pub proof fn lemma_mixed_len<S: Sample>(streams: Seq<Seq<S>>, len: nat)
    ensures
        mixed(streams, len).len() == len,
    decreases streams.len(),
{
    if streams.len() > 0 {
        lemma_mixed_len(streams.drop_last(), len);
    }
}

/// Every sample of `stream` is silence.
pub open spec fn is_silent<S: Sample>(stream: Seq<S>) -> bool {
    forall|i: int| 0 <= i < stream.len() ==> #[trigger] stream[i] == S::spec_zero()
}

/// Silence changes nothing of a stream: added to a sample of it, on either
/// side, it gives that sample.
pub open spec fn silence_is_neutral<S: Sample>(stream: Seq<S>) -> bool {
    &&& S::spec_zero().spec_plus(S::spec_zero()) == S::spec_zero()
    &&& forall|i: int| 0 <= i < stream.len() ==> S::spec_zero().spec_plus(#[trigger] stream[i]) == stream[i]
    &&& forall|i: int| 0 <= i < stream.len() ==> (#[trigger] stream[i]).spec_plus(S::spec_zero()) == stream[i]
}

/// Silence changes nothing of any stream.
pub proof fn lemma_silence_is_neutral<S: Sample>(stream: Seq<S>)
    ensures
        silence_is_neutral(stream),
{
    S::lemma_zero_is_neutral(S::spec_zero());
    assert forall|i: int| 0 <= i < stream.len() implies S::spec_zero().spec_plus(#[trigger] stream[i])
        == stream[i] by {
        S::lemma_zero_is_neutral(stream[i]);
    }
    assert forall|i: int| 0 <= i < stream.len() implies (#[trigger] stream[i]).spec_plus(S::spec_zero())
        == stream[i] by {
        S::lemma_zero_is_neutral(stream[i]);
    }
}

/// Passthrough: a stream at the target rate of a mixer comes out of it
/// sample for sample, where the resamplers give silence for the streams at
/// the other rates.
pub proof fn lemma_passthrough<S: Sample>(
    mixer: Mixer<S>,
    submission: Submission<S>,
    resampled: Seq<Option<Vec<S>>>,
    k: int,
)
    requires
        mixer.wf(),
        submission.wf(),
        submission.channels() == mixer.channels(),
        0 <= k < submission.rates().len(),
        submission.rates()[k] == mixer.sample_rate(),
        mixer.rates().contains(mixer.sample_rate()),
        forall|j: int|
            0 <= j < resampled.len() && j != k ==> ((#[trigger] resampled[j]) matches Some(stream) ==> is_silent(
                stream@,
            )),
    ensures
        mixer.mixdown(submission, resampled) == submission.buffers()[k],
{
    submission.lemma_shape();
    lemma_silence_is_neutral(submission.buffers()[k]);
    lemma_passthrough_upto(mixer, submission, resampled, k, submission.rates().len());
    let streams = mixer.inputs(submission, resampled);
    if streams.len() == 1 {
        let i = choose|i: int| 0 <= i < streams.len() && streams[i] == submission.buffers()[k];
        assert(streams[0] == submission.buffers()[k]);
    }
}

/// What `lemma_passthrough` says, of the first `upto` streams.
proof fn lemma_passthrough_upto<S: Sample>(
    mixer: Mixer<S>,
    submission: Submission<S>,
    resampled: Seq<Option<Vec<S>>>,
    k: int,
    upto: nat,
)
    requires
        mixer.wf(),
        submission.wf(),
        submission.channels() == mixer.channels(),
        0 <= k < submission.rates().len(),
        upto <= submission.rates().len(),
        submission.rates()[k] == mixer.sample_rate(),
        mixer.rates().contains(mixer.sample_rate()),
        forall|j: int|
            0 <= j < resampled.len() && j != k ==> ((#[trigger] resampled[j]) matches Some(stream) ==> is_silent(
                stream@,
            )),
        silence_is_neutral(submission.buffers()[k]),
    ensures
        mixed(
            usable(mixer.rates(), mixer.sample_rate(), submission.rates(), submission.buffers(), resampled, upto),
            mixer.spec_chunk_len(submission.length()),
        ) == if upto > k {
            submission.buffers()[k]
        } else {
            silence::<S>(mixer.spec_chunk_len(submission.length()))
        },
        upto > k ==> usable(
            mixer.rates(),
            mixer.sample_rate(),
            submission.rates(),
            submission.buffers(),
            resampled,
            upto,
        ).contains(submission.buffers()[k]),
    decreases upto,
{
    submission.lemma_shape();
    let target = submission.buffers()[k];
    if upto > 0 {
        let j = (upto - 1) as int;
        lemma_passthrough_upto(mixer, submission, resampled, k, (upto - 1) as nat);
        let earlier = usable(
            mixer.rates(),
            mixer.sample_rate(),
            submission.rates(),
            submission.buffers(),
            resampled,
            (upto - 1) as nat,
        );
        let conversion = conversion_of(mixer.rates(), mixer.sample_rate(), submission.rates()[j]);
        if j == k {
            assert(earlier.push(target).drop_last() =~= earlier);
            assert(earlier.push(target)[earlier.len() as int] == target);
        } else if conversion == Conversion::Resample && j < resampled.len() && resampled[j] is Some {
            let stream = resampled[j]->0@;
            assert(earlier.push(stream).drop_last() =~= earlier);
            if j > k {
                let i = choose|i: int| 0 <= i < earlier.len() && earlier[i] == target;
                assert(earlier.push(stream)[i] == target);
            }
        }
    }
}

} // verus!
