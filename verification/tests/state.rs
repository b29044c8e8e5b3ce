use rawrscope::state::{master_mixer, master_rates, scope_rates};
use rawrscope::{
    AudioSource, Centering, Connection, ConnectionTarget, Conversion, ConverterType, Duration,
    GlobalAppearance, GridRect, Loaded, MasterChannel, Mixer, NamedScope, NoCentering, PlaybackState,
    SampleFormat, Scope, Stage, State, SubmissionSlot, Video, VideoBackend, WavSpec,
};

fn source(rate: u32, loaded: bool, targets: Vec<ConnectionTarget>) -> AudioSource {
    let connections = targets.into_iter().map(|target| Connection { channel: 0, target }).collect();
    let mut source = AudioSource::new("a.wav".to_string(), None, None, connections);
    if loaded {
        source.load(Loaded {
            spec: WavSpec { channels: 1, sample_rate: rate, bits_per_sample: 16, sample_format: SampleFormat::Int },
            len: 1000,
        });
    }
    source
}

fn master() -> ConnectionTarget {
    ConnectionTarget::Master { channel: MasterChannel::Left }
}

fn scope(name: &str) -> ConnectionTarget {
    ConnectionTarget::Scope { name: name.to_string(), channel: 0 }
}

fn sources() -> Vec<AudioSource> {
    vec![
        source(44100, true, vec![master(), scope("lead")]),
        source(48000, true, vec![scope("bass")]),
        source(22050, false, vec![master(), scope("lead"), scope("bass")]),
        source(96000, true, vec![scope("lead"), master()]),
        source(44100, true, vec![scope("lead")]),
        source(8000, true, vec![]),
    ]
}

#[test]
fn defaults() {
    let appearance = GlobalAppearance::default();
    assert_eq!((appearance.framerate, appearance.grid_rows, appearance.grid_columns), (60, 1, 1));
    let playback = PlaybackState::default();
    assert_eq!((playback.frame, playback.playing), (0, true));
    assert_eq!(Video::default().backend, VideoBackend::Primary);
}

#[test]
fn master_rates_are_those_of_the_open_sources_that_feed_the_master() {
    assert_eq!(master_rates(&sources()), vec![44100, 96000]);
    assert_eq!(master_rates(&Vec::new()), Vec::<u32>::new());
}

#[test]
fn scope_rates_are_those_of_the_open_sources_that_feed_the_scope() {
    assert_eq!(scope_rates(&sources(), &"lead".to_string()), vec![44100, 96000, 44100]);
    assert_eq!(scope_rates(&sources(), &"bass".to_string()), vec![48000]);
    assert_eq!(scope_rates(&sources(), &"drums".to_string()), Vec::<u32>::new());
}

#[test]
fn the_master_mixer_has_the_format_of_the_device() {
    let builder = master_mixer(2, 48000, &sources());
    let mixer: Mixer<i32> = builder.build(SubmissionSlot::new(None));
    assert_eq!(mixer.channels(), 2);
    assert_eq!(mixer.sample_rate(), 48000);
    assert_eq!(mixer.resample_type(), ConverterType::SincFastest);
    assert_eq!(mixer.conversion(44100), Conversion::Resample);
    assert_eq!(mixer.conversion(96000), Conversion::Resample);
    assert_eq!(mixer.conversion(48000), Conversion::Unregistered);
    assert_eq!(mixer.conversion(22050), Conversion::Unregistered);
}

fn named(name: &str) -> NamedScope<i32> {
    NamedScope {
        name: name.to_string(),
        scope: Scope::new(
            Duration::from_millis(20),
            Duration::from_millis(10),
            GridRect { x: 0, y: 0, w: 1, h: 1 },
            Centering::NoCentering(NoCentering),
        ),
    }
}

#[test]
fn every_scope_gets_a_mixer_for_its_sources() {
    let mut state = State {
        audio_sources: sources(),
        scopes: vec![named("lead"), named("bass"), named("drums")],
        appearance: GlobalAppearance::default(),
        playback: PlaybackState::default(),
    };
    state.configure_scopes();
    assert_eq!(state.scopes.len(), 3);
    let lead = &state.scopes[0];
    assert_eq!(lead.name, "lead");
    assert!(lead.scope.is_configured());
    assert_eq!(lead.scope.stage(), Stage::Idle);
    assert_eq!(lead.scope.conversion(96000), Conversion::Passthrough);
    assert_eq!(lead.scope.conversion(44100), Conversion::Resample);
    assert_eq!(lead.scope.conversion(48000), Conversion::Unregistered);
    assert_eq!(lead.scope.build_submission().unwrap().stream_count(), 2);
    let bass = &state.scopes[1];
    assert_eq!(bass.scope.conversion(48000), Conversion::Passthrough);
    assert_eq!(bass.scope.conversion(44100), Conversion::Unregistered);
    // a scope that nothing feeds mixes at the default rate
    let drums = &state.scopes[2];
    assert!(drums.scope.is_configured());
    let silent = drums.scope.build_submission().unwrap();
    assert_eq!(silent.stream_count(), 0);
    assert_eq!(state.audio_sources.len(), 6);
}

#[test]
fn scopes_go_by_distinct_names() {
    let mut state = State {
        audio_sources: sources(),
        scopes: vec![named("lead"), named("bass"), named("drums")],
        appearance: GlobalAppearance::default(),
        playback: PlaybackState::default(),
    };
    assert!(state.has_distinct_names());
    state.configure_scopes();
    assert!(state.has_distinct_names());
    state.scopes.push(named("bass"));
    assert!(!state.has_distinct_names());
    state.configure_scopes();
    assert!(!state.has_distinct_names());
    let empty: State<i32> = State {
        audio_sources: Vec::new(),
        scopes: Vec::new(),
        appearance: GlobalAppearance::default(),
        playback: PlaybackState::default(),
    };
    assert!(empty.has_distinct_names());
}
