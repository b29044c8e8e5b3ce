//! What becomes of the audio on each video frame: which window of each
//! source is read, and where the samples of each of its channels go.

use vstd::prelude::*;
use crate::audio::connection::{Connection, ConnectionTarget};
use crate::audio::mixer::{is_added, Submission};
use crate::audio::source::{AudioSource, Loaded, WavSpec};
use crate::sample::Sample;
use crate::state::PlaybackState;
use crate::time::Duration;

verus! {

/// The playhead has passed the end of a source of `len` frames at `rate`.
pub open spec fn exhausted(len: u32, rate: u32, framerate: u32, frame: u32) -> bool {
    frame > len / (rate / framerate)
}

/// Whether the playhead has passed the end of the source.
pub fn is_exhausted(loaded: &Loaded, framerate: u32, frame: u32) -> (r: bool)
    requires
        framerate > 0,
        loaded.spec.sample_rate >= framerate,
    ensures
        r == exhausted(loaded.len, loaded.spec.sample_rate, framerate, frame),
{
    assert(loaded.spec.sample_rate / framerate >= 1) by (nonlinear_arith)
        requires
            loaded.spec.sample_rate >= framerate,
            framerate > 0,
    ;
    frame > loaded.len / (loaded.spec.sample_rate / framerate)
}

/// Whether the playhead has passed the end of every open source.
pub fn sources_exhausted(sources: &Vec<AudioSource>, framerate: u32, frame: u32) -> (r: bool)
    requires
        framerate > 0,
        forall|i: int| 0 <= i < sources.len() ==> ((#[trigger] sources[i]).loaded matches Some(loaded)
            ==> loaded.spec.sample_rate >= framerate),
    ensures
        r == forall|i: int| 0 <= i < sources.len() ==> ((#[trigger] sources[i]).loaded matches Some(loaded)
            ==> exhausted(loaded.len, loaded.spec.sample_rate, framerate, frame)),
{
    let mut i: usize = 0;
    while i < sources.len()
        invariant
            i <= sources.len(),
            framerate > 0,
            forall|j: int| 0 <= j < sources.len() ==> ((#[trigger] sources[j]).loaded matches Some(loaded)
                ==> loaded.spec.sample_rate >= framerate),
            forall|j: int| 0 <= j < i ==> ((#[trigger] sources[j]).loaded matches Some(loaded)
                ==> exhausted(loaded.len, loaded.spec.sample_rate, framerate, frame)),
        decreases sources.len() - i,
    {
        if let Some(loaded) = &sources[i].loaded {
            if !is_exhausted(loaded, framerate, frame) {
                return false;
            }
        }
        i += 1;
    }
    true
}

/// Whether the audio of this frame is to be routed, mixed and centered: the
/// playback runs and a source still has audio, or a redraw was asked for.
pub fn should_process(sources_exhausted: bool, playing: bool, reprocess: bool) -> (r: bool)
    ensures
        r == ((!sources_exhausted && playing) || reprocess),
{
    (!sources_exhausted && playing) || reprocess
}

/// Moves the playhead on by one video frame: the playback stops where every
/// source is exhausted, and the frame counter goes up while it runs.
pub fn advance(playback: &mut PlaybackState, sources_exhausted: bool)
    ensures
        final(playback).playing == (old(playback).playing && !sources_exhausted),
        final(playback).frame == if final(playback).playing && old(playback).frame < u32::MAX {
            (old(playback).frame + 1) as u32
        } else {
            old(playback).frame
        },
{
    if sources_exhausted && playback.playing {
        playback.playing = false;
    }
    if playback.playing && playback.frame < u32::MAX {
        playback.frame = playback.frame + 1;
    }
}

/// The longest of `lengths`; no time at all where there is none.
pub open spec fn longest(lengths: Seq<Duration>) -> Duration
    decreases lengths.len(),
{
    if lengths.len() == 0 {
        Duration { nanos: 0 }
    } else {
        let earlier = longest(lengths.drop_last());
        if lengths.last().nanos > earlier.nanos {
            lengths.last()
        } else {
            earlier
        }
    }
}

/// `longest` is at least as long as each length, and is one of them.
pub proof fn lemma_longest(lengths: Seq<Duration>)
    ensures
        forall|i: int| 0 <= i < lengths.len() ==> (#[trigger] lengths[i]).nanos <= longest(lengths).nanos,
        lengths.len() > 0 ==> lengths.contains(longest(lengths)),
    decreases lengths.len(),
{
    if lengths.len() > 0 {
        let shorter = lengths.drop_last();
        lemma_longest(shorter);
        assert forall|i: int| 0 <= i < lengths.len() implies (#[trigger] lengths[i]).nanos <= longest(
            lengths,
        ).nanos by {
            if i < shorter.len() {
                assert(shorter[i] == lengths[i]);
            }
        }
        if lengths.last().nanos > longest(shorter).nanos || shorter.len() == 0 {
            assert(lengths[lengths.len() - 1] == longest(lengths));
        } else {
            let j = choose|j: int| 0 <= j < shorter.len() && shorter[j] == longest(shorter);
            assert(lengths[j] == longest(lengths));
        }
    }
}

/// The length of audio that the scope with the longest wanted length asks
/// for.
pub fn scope_window(wanted_lengths: &Vec<Duration>) -> (r: Duration)
    ensures
        r == longest(wanted_lengths@),
{
    let mut window = Duration { nanos: 0 };
    let mut i: usize = 0;
    while i < wanted_lengths.len()
        invariant
            i <= wanted_lengths.len(),
            window == longest(wanted_lengths@.take(i as int)),
        decreases wanted_lengths.len() - i,
    {
        proof {
            assert(wanted_lengths@.take(i + 1).drop_last() =~= wanted_lengths@.take(i as int));
        }
        if wanted_lengths[i].nanos > window.nanos {
            window = wanted_lengths[i];
        }
        i += 1;
    }
    assert(wanted_lengths@.take(wanted_lengths.len() as int) =~= wanted_lengths@);
    window
}

/// The length of audio that is read from each source on a frame: enough for
/// the scopes, and for one frame of playback from the middle of the scope
/// window on.
pub fn full_window(scope_window: Duration, frame_period: Duration) -> (r: Duration)
    ensures
        r == scope_window.max(frame_period.saturating_add(scope_window.half())),
{
    scope_window.max(frame_period.saturating_add(scope_window.half()))
}

/// The number of samples that `length` holds at `rate` in `channels`
/// channels, and no more than a position can hold.
pub open spec fn samples_in(length: Duration, rate: u32, channels: u16) -> u32 {
    if length.frames_at(rate) * channels > u32::MAX {
        u32::MAX
    } else {
        (length.frames_at(rate) * channels) as u32
    }
}

/// The number of samples that `length` holds at `rate` in `channels`
/// channels.
pub fn count_samples(length: Duration, rate: u32, channels: u16) -> (r: u32)
    ensures
        r == samples_in(length, rate, channels),
{
    assert(length.nanos * rate <= 0xffff_ffff_ffff_ffff * 0xffff_ffff) by (nonlinear_arith)
        requires
            length.nanos <= 0xffff_ffff_ffff_ffff,
            rate <= 0xffff_ffff,
    ;
    let product: u128 = length.nanos as u128 * rate as u128;
    let frames: u128 = (product + 500_000_000) / 1_000_000_000;
    assert(frames * channels <= 0x1_0000_0000_0000_0000_0000_0000 * 0xffff) by (nonlinear_arith)
        requires
            frames <= 0x1_0000_0000_0000_0000_0000_0000,
            channels <= 0xffff,
    ;
    let samples: u128 = frames * channels as u128;
    if samples > u32::MAX as u128 {
        u32::MAX
    } else {
        samples as u32
    }
}

/// Where the window of one source lies on a frame.
#[derive(Clone, Copy, Debug, PartialEq, Eq, Structural)]
pub struct SourceWindow {
    /// The frame of the source at which the playback stands.
    pub playhead: u32,
    /// The frame of the source at which the window starts.
    pub window_pos: u32,
    /// The number of samples to read.
    pub window_len: u32,
    /// The number of frames from the start of the window to what is played.
    pub playhead_offset: u32,
}

/// The window of a source with the layout `spec` on video frame `frame`,
/// for scopes that ask for `scope_window` of audio and a read of
/// `full_window`: it starts half a scope window before the playhead, and
/// not before the start of the source.
pub open spec fn window_of(
    spec: WavSpec,
    framerate: u32,
    frame: u32,
    scope_window: Duration,
    full_window: Duration,
) -> SourceWindow {
    let playhead = (spec.sample_rate / framerate) * frame;
    let back = samples_in(scope_window, spec.sample_rate, spec.channels) / 2;
    let window_pos = if playhead >= back {
        playhead - back
    } else {
        0
    };
    SourceWindow {
        playhead: playhead as u32,
        window_pos: window_pos as u32,
        window_len: samples_in(full_window, spec.sample_rate, spec.channels),
        playhead_offset: ((playhead - window_pos) / (spec.channels as int)) as u32,
    }
}

/// The window of a source on video frame `frame`, or `None` where the
/// playhead lies beyond what a position can hold.
pub fn source_window(
    spec: &WavSpec,
    framerate: u32,
    frame: u32,
    scope_window: Duration,
    full_window: Duration,
) -> (r: Option<SourceWindow>)
    requires
        framerate > 0,
        spec.channels > 0,
    ensures
        r == if (spec.sample_rate / framerate) * frame <= u32::MAX {
            Some(window_of(*spec, framerate, frame, scope_window, full_window))
        } else {
            None
        },
{
    let playhead = match (spec.sample_rate / framerate).checked_mul(frame) {
        Some(playhead) => playhead,
        None => {
            return None;
        },
    };
    let back = count_samples(scope_window, spec.sample_rate, spec.channels) / 2;
    let window_pos = if playhead >= back {
        playhead - back
    } else {
        0
    };
    Some(
        SourceWindow {
            playhead,
            window_pos,
            window_len: count_samples(full_window, spec.sample_rate, spec.channels),
            playhead_offset: (playhead - window_pos) / (spec.channels as u32),
        },
    )
}

/// The place in an interleaved window of `channels` channels at which
/// sample `i` of channel `channel` stands, counted from frame `skip` on.
pub open spec fn offset(channel: int, channels: int, skip: int, i: int) -> int {
    channel + (skip + i) * channels
}

/// The samples of a channel stand `channels` places apart.
pub proof fn lemma_offset_step(channel: int, channels: int, skip: int, i: int)
    ensures
        offset(channel, channels, skip, i + 1) == offset(channel, channels, skip, i) + channels,
        offset(channel, channels, skip, 0) == channel + skip * channels,
{
    assert((skip + (i + 1)) * channels == (skip + i) * channels + channels) by (nonlinear_arith);
}

/// `samples` are the samples of channel `channel` of the interleaved
/// `window` of `channels` channels, from frame `skip` on.
pub open spec fn is_channel_of<S>(window: Seq<S>, channel: int, channels: int, skip: int, samples: Seq<S>) -> bool {
    &&& samples.len() > 0 ==> offset(channel, channels, skip, samples.len() - 1) < window.len()
    &&& forall|i: int| 0 <= i < samples.len() ==> #[trigger] samples[i] == window[offset(channel, channels, skip, i)]
    &&& offset(channel, channels, skip, samples.len() as int) >= window.len()
}

/// The samples of channel `channel` of the interleaved `window` of
/// `channels` channels, from frame `skip` on.
pub fn channel_samples<S: Copy>(window: &[S], channel: usize, channels: usize, skip: usize) -> (r: Vec<S>)
    requires
        channels > 0,
    ensures
        is_channel_of(window@, channel as int, channels as int, skip as int, r@),
{
    let mut out: Vec<S> = Vec::new();
    let len = window.len();
    let first = match skip.checked_mul(channels) {
        Some(frames) => frames.checked_add(channel),
        None => None,
    };
    proof {
        lemma_offset_step(channel as int, channels as int, skip as int, 0);
    }
    let mut pos: usize = match first {
        Some(pos) => pos,
        None => {
            return out;
        },
    };
    let mut done = false;
    while !done && pos < len
        invariant
            channels > 0,
            len == window@.len(),
            !done ==> pos == offset(channel as int, channels as int, skip as int, out.len() as int),
            done ==> offset(channel as int, channels as int, skip as int, out.len() as int) >= len,
            out.len() > 0 ==> offset(channel as int, channels as int, skip as int, out.len() - 1) < len,
            forall|i: int| 0 <= i < out.len() ==> #[trigger] out@[i] == window@[offset(
                channel as int,
                channels as int,
                skip as int,
                i,
            )],
        decreases
            (if done {
                0int
            } else {
                len - pos + 1
            }),
    {
        proof {
            lemma_offset_step(channel as int, channels as int, skip as int, out.len() as int);
        }
        out.push(window[pos]);
        if len - pos <= channels {
            done = true;
        } else {
            pos += channels;
        }
    }
    out
}

/// One scope's share of a frame: the submission that its sources write
/// into, and the length of audio that the scope asked for.
pub struct ScopeFeed<S> {
    pub name: String,
    pub wanted_length: Duration,
    pub submission: Submission<S>,
}

/// What became of the samples of a connection.
#[derive(Clone, Copy, Debug, PartialEq, Eq, Structural)]
pub enum Routed {
    /// They were added to the master submission.
    Master,
    /// They were added to the submission of the scope at this place.
    Scope(usize),
    /// They go to the master output, which is fed only while the playback
    /// runs: they were dropped.
    Paused,
    /// They go to a scope that does not exist: they were dropped.
    UnknownScope,
    /// They come from a channel that the source does not have: there are
    /// none.
    NoSuchChannel,
}

/// The number of frames that `length` holds at `rate`, and no more than a
/// position can hold.
pub open spec fn frames_in(length: Duration, rate: u32) -> u32 {
    samples_in(length, rate, 1)
}

/// The number of frames to leave out at the start of the window for a scope
/// that asked for `wanted_length`: the scope gets its audio from half its
/// length before the playhead on.
pub open spec fn scope_skip(window: SourceWindow, wanted_length: Duration, rate: u32) -> u32 {
    let back = frames_in(wanted_length, rate) / 2;
    if window.playhead_offset >= back {
        (window.playhead_offset - back) as u32
    } else {
        0
    }
}

/// `index` is the first place at which `scopes` holds a feed for the scope
/// `name`.
pub open spec fn is_feed_of<S>(scopes: Seq<ScopeFeed<S>>, name: Seq<char>, index: int) -> bool {
    &&& 0 <= index < scopes.len()
    &&& scopes[index].name@ == name
    &&& forall|i: int| 0 <= i < index ==> (#[trigger] scopes[i]).name@ != name
}

/// No two of `scopes` feed one scope.
pub open spec fn distinct_feeds<S>(scopes: Seq<ScopeFeed<S>>) -> bool {
    forall|i: int, j: int| 0 <= i < j < scopes.len() ==> scopes[i].name@ != scopes[j].name@
}

/// Where no two feeds go to one scope, the feed of a scope is its only
/// feed.
pub proof fn lemma_only_feed<S>(scopes: Seq<ScopeFeed<S>>, name: Seq<char>, index: int)
    requires
        distinct_feeds(scopes),
        is_feed_of(scopes, name, index),
    ensures
        forall|i: int| 0 <= i < scopes.len() && i != index ==> (#[trigger] scopes[i]).name@ != name,
{
}

/// The first place at which `scopes` holds a feed for the scope `name`; it
/// is the only one where no two feeds go to one scope.
pub fn find_feed<S>(scopes: &Vec<ScopeFeed<S>>, name: &String) -> (r: Option<usize>)
    ensures
        match r {
            Some(index) => is_feed_of(scopes@, name@, index as int),
            None => forall|i: int| 0 <= i < scopes.len() ==> (#[trigger] scopes[i]).name@ != name@,
        },
{
    let mut i: usize = 0;
    while i < scopes.len()
        invariant
            i <= scopes.len(),
            forall|j: int| 0 <= j < i ==> (#[trigger] scopes[j]).name@ != name@,
        decreases scopes.len() - i,
    {
        if scopes[i].name == *name {
            return Some(i);
        }
        i += 1;
    }
    None
}

/// The samples of channel `channel` of `window` went to the master
/// submission: `after` is `before` with those samples, from the playhead
/// on, added to the channel `to` of its stream at the rate of the source.
pub open spec fn fed_master<S: Sample>(
    before: Submission<S>,
    after: Submission<S>,
    channel: u32,
    spec: WavSpec,
    window: Seq<S>,
    position: SourceWindow,
    to: usize,
) -> bool {
    exists|samples: Seq<S>|
        {
            &&& #[trigger] is_channel_of(
                window,
                channel as int,
                spec.channels as int,
                position.playhead_offset as int,
                samples,
            )
            &&& is_added(before, after, spec.sample_rate, to, samples)
        }
}

/// The samples of channel `channel` of `window` went to the scope of the
/// feed `before`: `after` is `before` with those samples, from half the
/// wanted length of the scope before the playhead on, added to the only
/// channel of its stream at the rate of the source.
pub open spec fn fed_scope<S: Sample>(
    before: ScopeFeed<S>,
    after: ScopeFeed<S>,
    channel: u32,
    spec: WavSpec,
    window: Seq<S>,
    position: SourceWindow,
) -> bool {
    &&& after.name == before.name
    &&& after.wanted_length == before.wanted_length
    &&& exists|samples: Seq<S>|
        {
            &&& #[trigger] is_channel_of(
                window,
                channel as int,
                spec.channels as int,
                scope_skip(position, before.wanted_length, spec.sample_rate) as int,
                samples,
            )
            &&& is_added(before.submission, after.submission, spec.sample_rate, 0, samples)
        }
}

/// Adds the samples of channel `channel` of `window` to the master
/// submission, from the playhead on.
fn feed_master<S: Sample>(
    channel: u32,
    spec: &WavSpec,
    window: &[S],
    position: &SourceWindow,
    to: usize,
    master: &mut Submission<S>,
)
    requires
        spec.channels > 0,
    ensures
        fed_master(*old(master), *final(master), channel, *spec, window@, *position, to),
{
    let samples = channel_samples(
        window,
        channel as usize,
        spec.channels as usize,
        position.playhead_offset as usize,
    );
    master.add(spec.sample_rate, to, samples.as_slice());
    assert(is_channel_of(
        window@,
        channel as int,
        spec.channels as int,
        position.playhead_offset as int,
        samples@,
    ));
}

/// Adds the samples of channel `channel` of `window` to the submission of
/// the scope of `feed`.
fn feed_scope<S: Sample>(
    channel: u32,
    spec: &WavSpec,
    window: &[S],
    position: &SourceWindow,
    feed: &mut ScopeFeed<S>,
)
    requires
        spec.channels > 0,
    ensures
        fed_scope(*old(feed), *final(feed), channel, *spec, window@, *position),
{
    let back = count_samples(feed.wanted_length, spec.sample_rate, 1) / 2;
    let skip = if position.playhead_offset >= back {
        position.playhead_offset - back
    } else {
        0
    };
    let samples = channel_samples(window, channel as usize, spec.channels as usize, skip as usize);
    feed.submission.add(spec.sample_rate, 0, samples.as_slice());
    assert(is_channel_of(
        window@,
        channel as int,
        spec.channels as int,
        scope_skip(*position, old(feed).wanted_length, spec.sample_rate) as int,
        samples@,
    ));
}

/// Routes the samples of one connection of a source: from the interleaved
/// `window` that was read from the source, the channel of the connection
/// goes to the master submission or to the submission of a scope.
///
/// The master output gets the samples from the playhead on, the left
/// channel first and the right channel second, and only while the playback
/// runs. A scope gets them in its only channel, from half its wanted length
/// before the playhead on. A connection from a channel that the source does
/// not have, or to a scope that has no feed, is dropped.
pub fn route<S: Sample>(
    connection: &Connection,
    spec: &WavSpec,
    window: &[S],
    position: &SourceWindow,
    playing: bool,
    master: &mut Submission<S>,
    scopes: &mut Vec<ScopeFeed<S>>,
) -> (r: Routed)
    ensures
        final(scopes).len() == old(scopes).len(),
        forall|i: int| 0 <= i < old(scopes).len() ==> (#[trigger] final(scopes)[i]).name == old(scopes)[i].name,
        distinct_feeds(old(scopes)@) ==> distinct_feeds(final(scopes)@),
        if connection.channel >= spec.channels {
            &&& r == Routed::NoSuchChannel
            &&& *final(master) == *old(master)
            &&& *final(scopes) == *old(scopes)
        } else {
            match connection.target {
                ConnectionTarget::Master { channel } => {
                    &&& *final(scopes) == *old(scopes)
                    &&& if playing {
                        &&& r == Routed::Master
                        &&& fed_master(
                            *old(master),
                            *final(master),
                            connection.channel,
                            *spec,
                            window@,
                            *position,
                            channel.index(),
                        )
                    } else {
                        r == Routed::Paused && *final(master) == *old(master)
                    }
                },
                ConnectionTarget::Scope { name, .. } => {
                    &&& *final(master) == *old(master)
                    &&& match r {
                        Routed::Scope(index) => {
                            &&& is_feed_of(old(scopes)@, name@, index as int)
                            &&& forall|i: int|
                                0 <= i < old(scopes).len() && i != index ==> #[trigger] final(scopes)[i] == old(
                                    scopes,
                                )[i]
                            &&& fed_scope(
                                old(scopes)[index as int],
                                final(scopes)[index as int],
                                connection.channel,
                                *spec,
                                window@,
                                *position,
                            )
                        },
                        Routed::UnknownScope => {
                            &&& *final(scopes) == *old(scopes)
                            &&& forall|i: int|
                                0 <= i < old(scopes).len() ==> (#[trigger] old(scopes)[i]).name@ != name@
                        },
                        _ => false,
                    }
                },
            }
        },
{
    if connection.channel >= spec.channels as u32 {
        return Routed::NoSuchChannel;
    }
    match &connection.target {
        ConnectionTarget::Master { channel } => {
            if playing {
                feed_master(connection.channel, spec, window, position, channel.index(), master);
                Routed::Master
            } else {
                Routed::Paused
            }
        },
        ConnectionTarget::Scope { name, .. } => {
            if let Some(i) = find_feed(scopes, name) {
                feed_scope(connection.channel, spec, window, position, &mut scopes[i]);
                Routed::Scope(i)
            } else {
                Routed::UnknownScope
            }
        },
    }
}

} // verus!
