use rawrscope::frame::{full_window, route, scope_window, source_window, sources_exhausted};
use rawrscope::state::{master_mixer, master_rates};
use rawrscope::{
    AudioSource, Centering, Connection, ConnectionTarget, Duration, GlobalAppearance, GridRect, Loaded,
    MasterChannel, NamedScope, PlaybackState, Player, Routed, SampleFormat, Scope, ScopeFeed, Stage, State,
    Submission, WavSpec, ZeroCrossing,
};

fn project() -> State<i32> {
    let mut source = AudioSource::new(
        "lead.wav".to_string(),
        None,
        None,
        vec![
            Connection { channel: 0, target: ConnectionTarget::Master { channel: MasterChannel::Left } },
            Connection { channel: 0, target: ConnectionTarget::Scope { name: "lead".to_string(), channel: 0 } },
        ],
    );
    source.load(Loaded {
        spec: WavSpec { channels: 1, sample_rate: 44100, bits_per_sample: 16, sample_format: SampleFormat::Int },
        len: 441_000,
    });
    let mut state = State {
        audio_sources: vec![source],
        scopes: vec![NamedScope {
            name: "lead".to_string(),
            scope: Scope::new(
                Duration::from_millis(20),
                Duration::from_millis(10),
                GridRect { x: 0, y: 0, w: 1, h: 1 },
                Centering::ZeroCrossing(ZeroCrossing),
            ),
        }],
        appearance: GlobalAppearance::default(),
        playback: PlaybackState { frame: 30, playing: true },
    };
    state.configure_scopes();
    state
}

/// The decoded file: a sawtooth that rises through zero every 100 frames.
fn chunk_at(pos: u32, len: usize) -> Vec<i32> {
    (0..len).map(|i| ((pos as usize + i) % 100) as i32 - 50).collect()
}

#[test]
fn one_mono_source_to_master_left_and_to_a_scope() {
    let mut state = project();
    let framerate = state.appearance.framerate;
    let frame = state.playback.frame;
    let tick = Duration::from_frames(1, framerate);

    let mut player: Player<i32> = Player::new(2, 44100);
    player.rebuild_mixer(master_mixer(2, 44100, &state.audio_sources));
    assert_eq!(master_rates(&state.audio_sources), vec![44100]);
    assert!(!sources_exhausted(&state.audio_sources, framerate, frame));

    let mut master: Submission<i32> = player.submission_builder().create(tick);
    assert_eq!(master.length_of_channel(44100), Some(735));
    let mut feeds: Vec<ScopeFeed<i32>> = state
        .scopes
        .iter()
        .map(|named| ScopeFeed {
            name: named.name.clone(),
            wanted_length: named.scope.wanted_length(),
            submission: named.scope.build_submission().unwrap(),
        })
        .collect();

    let scopes = scope_window(&vec![state.scopes[0].scope.wanted_length()]);
    let full = full_window(scopes, tick);
    let layout = state.audio_sources[0].loaded.unwrap().spec;
    let position = source_window(&layout, framerate, frame, scopes, full).unwrap();
    // frame 30 at 735 frames per video frame; 30 ms of scope window
    assert_eq!(position.playhead, 22050);
    assert_eq!(position.window_pos, 22050 - 661);
    assert_eq!(position.window_len, 1397);
    assert_eq!(position.playhead_offset, 661);

    let window = chunk_at(position.window_pos, position.window_len as usize);
    let routed: Vec<Routed> = state.audio_sources[0]
        .connections
        .iter()
        .map(|conn| route(conn, &layout, &window, &position, true, &mut master, &mut feeds))
        .collect();
    assert_eq!(routed, vec![Routed::Master, Routed::Scope(0)]);

    // the master plays from the playhead on, in its left channel
    player.submit(master).unwrap();
    let played = player.render(&vec![], 2 * 735);
    for f in 0..735 {
        assert_eq!(played[2 * f], ((22050 + f) % 100) as i32 - 50);
        assert_eq!(played[2 * f + 1], 0);
    }

    // the scope shows 20 ms around the playhead
    let feed = feeds.pop().unwrap();
    let scope = &mut state.scopes[0].scope;
    scope.submit(feed.submission).unwrap();
    assert_eq!(scope.process(&vec![]), Ok(Stage::Ready));
    let expected = (0.020f64 * 44100.0).round() as usize;
    assert_eq!(scope.output().len(), expected);
    assert_eq!(scope.output().len(), 882);
    // the audio of the scope starts 661 frames before the playhead, at
    // frame 21389 of the file; its midpoint is frame 22050, where the
    // sawtooth rises through zero, and the window starts 441 frames before
    assert_eq!(scope.mixed_audio()[0], (21389 % 100) - 50);
    assert_eq!(scope.output()[0], ((22050 - 441) % 100) - 50);
    assert_eq!(scope.output()[441], 0);
    assert_eq!(scope.output()[440], -1);
}
