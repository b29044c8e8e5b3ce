//! Project-wide settings and playback position.

use vstd::prelude::*;
use crate::audio::mixer::{first_occurrences, is_target_rate, ConverterType, MixerBuilder};
use crate::audio::source::AudioSource;
use crate::sample::Sample;
use crate::scope::{Scope, Stage};

verus! {

/// Appearance settings shared by every scope.
#[derive(Clone, Copy, Debug, PartialEq, Eq, Structural)]
pub struct GlobalAppearance {
    pub framerate: u32,
    pub grid_rows: u32,
    pub grid_columns: u32,
}

impl Default for GlobalAppearance {
    fn default() -> (r: Self)
        ensures
            r.framerate == 60,
            r.grid_rows == 1,
            r.grid_columns == 1,
    {
        GlobalAppearance { framerate: 60, grid_rows: 1, grid_columns: 1 }
    }
}

/// The cells of the grid that a scope covers.
#[derive(Clone, Copy, Debug, PartialEq, Eq, Structural)]
pub struct GridRect {
    pub x: u32,
    pub y: u32,
    pub w: u32,
    pub h: u32,
}

/// The playhead: the current video frame, and whether it advances.
#[derive(Clone, Copy, Debug, PartialEq, Eq, Structural)]
pub struct PlaybackState {
    pub frame: u32,
    pub playing: bool,
}

impl Default for PlaybackState {
    fn default() -> (r: Self)
        ensures
            r.frame == 0,
            r.playing,
    {
        PlaybackState { frame: 0, playing: true }
    }
}

/// The sample rates of the open sources among `sources` that `routed`
/// holds of, in the order of the sources.
pub open spec fn routed_rates(sources: Seq<AudioSource>, routed: spec_fn(AudioSource) -> bool) -> Seq<u32>
    decreases sources.len(),
{
    if sources.len() == 0 {
        Seq::empty()
    } else {
        let earlier = routed_rates(sources.drop_last(), routed);
        let source = sources.last();
        if source.loaded is Some && routed(source) {
            earlier.push(source.loaded->0.spec.sample_rate)
        } else {
            earlier
        }
    }
}

/// The sample rates of the open sources that feed the master output.
pub open spec fn master_rates_of(sources: Seq<AudioSource>) -> Seq<u32> {
    routed_rates(sources, |source: AudioSource| source.feeds_master())
}

/// The sample rates of the open sources that feed the scope `name`.
pub open spec fn scope_rates_of(sources: Seq<AudioSource>, name: Seq<char>) -> Seq<u32> {
    routed_rates(sources, |source: AudioSource| source.feeds_scope(name))
}

/// The sample rates of the open sources that feed the master output.
pub fn master_rates(sources: &Vec<AudioSource>) -> (r: Vec<u32>)
    ensures
        r@ == master_rates_of(sources@),
{
    let ghost routed = |source: AudioSource| source.feeds_master();
    let mut rates: Vec<u32> = Vec::new();
    let mut i: usize = 0;
    while i < sources.len()
        invariant
            i <= sources.len(),
            routed == (|source: AudioSource| source.feeds_master()),
            rates@ == routed_rates(sources@.take(i as int), routed),
        decreases sources.len() - i,
    {
        proof {
            assert(sources@.take(i + 1).drop_last() =~= sources@.take(i as int));
        }
        if let Some(loaded) = &sources[i].loaded {
            if sources[i].is_routed_to_master() {
                rates.push(loaded.spec.sample_rate);
            }
        }
        i += 1;
    }
    assert(sources@.take(sources.len() as int) =~= sources@);
    rates
}

/// The sample rates of the open sources that feed the scope `name`.
pub fn scope_rates(sources: &Vec<AudioSource>, name: &String) -> (r: Vec<u32>)
    ensures
        r@ == scope_rates_of(sources@, name@),
{
    let ghost routed = |source: AudioSource| source.feeds_scope(name@);
    let mut rates: Vec<u32> = Vec::new();
    let mut i: usize = 0;
    while i < sources.len()
        invariant
            i <= sources.len(),
            routed == (|source: AudioSource| source.feeds_scope(name@)),
            rates@ == routed_rates(sources@.take(i as int), routed),
        decreases sources.len() - i,
    {
        proof {
            assert(sources@.take(i + 1).drop_last() =~= sources@.take(i as int));
        }
        if let Some(loaded) = &sources[i].loaded {
            if sources[i].is_routed_to_scope(name) {
                rates.push(loaded.spec.sample_rate);
            }
        }
        i += 1;
    }
    assert(sources@.take(sources.len() as int) =~= sources@);
    rates
}

/// What the mixer of the master output is to be made of: the channels and
/// the rate of the output device, and the rates of the open sources that
/// feed the master output.
pub fn master_mixer(channels: u16, sample_rate: u32, sources: &Vec<AudioSource>) -> (r: MixerBuilder)
    ensures
        r.spec_channels() == channels,
        r.forced_rate() == Some(sample_rate),
        r.converter() == ConverterType::SincFastest,
        r.source_rates() == master_rates_of(sources@),
{
    let mut mixer_config = MixerBuilder::new();
    mixer_config.channels(channels as usize);
    mixer_config.target_sample_rate(sample_rate);
    let rates = master_rates(sources);
    let mut i: usize = 0;
    while i < rates.len()
        invariant
            i <= rates.len(),
            mixer_config.spec_channels() == channels,
            mixer_config.forced_rate() == Some(sample_rate),
            mixer_config.converter() == ConverterType::SincFastest,
            mixer_config.source_rates() == rates@.take(i as int),
        decreases rates.len() - i,
    {
        mixer_config.source_rate(rates[i]);
        i += 1;
    }
    mixer_config
}

/// A scope and the name under which connections reach it.
pub struct NamedScope<S> {
    pub name: String,
    pub scope: Scope<S>,
}

/// `after` is `before` with a new mixer for the open sources among `sources`
/// that feed it: one channel, each rate of those sources once, and the
/// highest of them as its target.
pub open spec fn is_configured_for<S: Sample>(
    before: NamedScope<S>,
    after: NamedScope<S>,
    sources: Seq<AudioSource>,
) -> bool {
    &&& after.name == before.name
    &&& after.scope.same_settings(before.scope)
    &&& after.scope.audio() == before.scope.audio()
    &&& after.scope.spec_center_offset() == before.scope.spec_center_offset()
    &&& after.scope.settled() == Stage::Idle
    &&& after.scope.mixer() matches Some(mixer) && {
        &&& mixer.wf()
        &&& mixer.channels() == 1
        &&& mixer.converter() == ConverterType::Linear
        &&& is_target_rate(None, scope_rates_of(sources, before.name@), mixer.sample_rate())
        &&& mixer.rates() == first_occurrences(scope_rates_of(sources, before.name@))
        &&& mixer.pending() is None
    }
}

/// No two of `scopes` go by one name.
pub open spec fn distinct_names<S>(scopes: Seq<NamedScope<S>>) -> bool {
    forall|i: int, j: int| 0 <= i < j < scopes.len() ==> scopes[i].name@ != scopes[j].name@
}

/// A project: its sources, its scopes, and where the playback stands.
///
/// Connections reach a scope by its name, so no two scopes of a project may
/// go by one name: `has_distinct_names` tells whether that holds.
pub struct State<S> {
    pub audio_sources: Vec<AudioSource>,
    pub scopes: Vec<NamedScope<S>>,
    pub appearance: GlobalAppearance,
    pub playback: PlaybackState,
}

impl<S: Sample> State<S> {
    /// No two scopes of the project go by one name.
    pub open spec fn names_distinct(&self) -> bool {
        distinct_names(self.scopes@)
    }

    /// Whether no two scopes of the project go by one name.
    pub fn has_distinct_names(&self) -> (r: bool)
        ensures
            r == self.names_distinct(),
    {
        let mut j: usize = 0;
        while j < self.scopes.len()
            invariant
                j <= self.scopes.len(),
                forall|a: int, b: int| 0 <= a < b < j ==> self.scopes[a].name@ != self.scopes[b].name@,
            decreases self.scopes.len() - j,
        {
            let mut i: usize = 0;
            while i < j
                invariant
                    i <= j < self.scopes.len(),
                    forall|a: int| 0 <= a < i ==> (#[trigger] self.scopes[a]).name@ != self.scopes[j as int].name@,
                decreases j - i,
            {
                if self.scopes[i].name == self.scopes[j].name {
                    return false;
                }
                i += 1;
            }
            j += 1;
        }
        true
    }

    /// Gives every scope a mixer for the open sources that feed it. The
    /// scopes keep their names.
    pub fn configure_scopes(&mut self)
        ensures
            final(self).names_distinct() == old(self).names_distinct(),
            final(self).audio_sources == old(self).audio_sources,
            final(self).appearance == old(self).appearance,
            final(self).playback == old(self).playback,
            final(self).scopes.len() == old(self).scopes.len(),
            forall|i: int| 0 <= i < old(self).scopes.len() ==> is_configured_for(
                old(self).scopes[i],
                #[trigger] final(self).scopes[i],
                old(self).audio_sources@,
            ),
    {
        let mut i: usize = 0;
        while i < self.scopes.len()
            invariant
                i <= self.scopes.len(),
                self.audio_sources == old(self).audio_sources,
                self.appearance == old(self).appearance,
                self.playback == old(self).playback,
                self.scopes.len() == old(self).scopes.len(),
                forall|j: int| 0 <= j < i ==> is_configured_for(
                    old(self).scopes[j],
                    #[trigger] self.scopes[j],
                    old(self).audio_sources@,
                ),
                forall|j: int| i <= j < self.scopes.len() ==> #[trigger] self.scopes[j] == old(self).scopes[j],
            decreases self.scopes.len() - i,
        {
            let sample_rates = scope_rates(&self.audio_sources, &self.scopes[i].name);
            let entry = &mut self.scopes[i];
            entry.scope.configure_mixer(sample_rates);
            i += 1;
        }
        proof {
            let before = old(self).scopes@;
            assert forall|j: int| 0 <= j < self.scopes.len() implies (#[trigger] self.scopes[j]).name
                == before[j].name by {
                assert(is_configured_for(old(self).scopes[j], self.scopes[j], old(self).audio_sources@));
            }
            if old(self).names_distinct() {
                assert forall|a: int, b: int| 0 <= a < b < self.scopes.len() implies self.scopes[a].name@
                    != self.scopes[b].name@ by {
                    assert(old(self).scopes[a].name@ != old(self).scopes[b].name@);
                }
            }
            if self.names_distinct() {
                assert forall|a: int, b: int| 0 <= a < b < self.scopes.len() implies old(self).scopes[a].name@
                    != old(self).scopes[b].name@ by {
                    assert(self.scopes[a].name@ != self.scopes[b].name@);
                }
            }
        }
    }
}

} // verus!
