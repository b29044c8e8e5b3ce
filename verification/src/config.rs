//! Settings of the host application that the engine reads.

use vstd::prelude::*;
use crate::time::Duration;

verus! {

/// Audio settings: the host and the output device to open, by name, and the
/// length of the output buffer.
#[derive(Clone, Debug)]
pub struct Audio {
    pub host: Option<String>,
    pub device: Option<String>,
    pub buffer: Duration,
}

impl Default for Audio {
    fn default() -> (r: Self)
        ensures
            r.host is None,
            r.device is None,
            r.buffer.nanos == 10_000_000,
    {
        Audio { host: None, device: None, buffer: Duration::from_millis(10) }
    }
}

/// The graphics backend that the renderer asks for.
#[derive(Clone, Copy, Debug, PartialEq, Eq, Structural)]
pub enum VideoBackend {
    Primary,
    Secondary,
    Vulkan,
    Gl,
    Metal,
    Dx12,
    Dx11,
}

/// Video settings.
#[derive(Clone, Copy, Debug)]
pub struct Video {
    pub backend: VideoBackend,
}

impl Default for Video {
    fn default() -> (r: Self)
        ensures
            r.backend == VideoBackend::Primary,
    {
        Video { backend: VideoBackend::Primary }
    }
}

/// The settings of the application.
#[derive(Clone, Debug)]
pub struct Config {
    pub audio: Audio,
    pub video: Video,
}

impl Default for Config {
    fn default() -> (r: Self)
        ensures
            r.audio.host is None,
            r.audio.device is None,
            r.audio.buffer.nanos == 10_000_000,
            r.video.backend == VideoBackend::Primary,
    {
        Config { audio: Audio::default(), video: Video::default() }
    }
}

} // verus!
