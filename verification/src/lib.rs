//! Multi-rate audio mixing and waveform centering for an oscilloscope
//! renderer: submissions, mixers, scopes and the centering algorithms that
//! pick the window of samples a scope displays.

pub mod audio;
pub mod config;
pub mod frame;
pub mod sample;
pub mod scope;
pub mod state;
pub mod time;

pub use audio::connection::{Connection, ConnectionTarget, MasterChannel};
pub use audio::mixer::{
    Conversion, ConverterType, Mixer, MixerBuilder, Submission, SubmissionBuilder,
};
pub use audio::playback::{Choice, MixerStream, Player};
pub use audio::source::{AudioSource, Encoding, Fade, Gain, Loaded, ReadError, SampleFormat, WavSpec};
pub use config::{Audio, Config, Video, VideoBackend};
pub use frame::{Routed, ScopeFeed, SourceWindow};
pub use sample::Sample;
pub use scope::centering::fundamental_phase::{FundamentalPhase, Pitch};
pub use scope::centering::none::NoCentering;
pub use scope::centering::zero_crossing::ZeroCrossing;
pub use scope::centering::{Centering, SearchRange};
pub use scope::{Scope, ScopeError, Stage, SubmissionSlot};
pub use state::{GlobalAppearance, GridRect, NamedScope, PlaybackState, State};
pub use time::Duration;
