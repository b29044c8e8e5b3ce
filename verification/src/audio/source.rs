//! Audio sources: what the engine knows of a decoded file, the encodings it
//! can read, and the fades at the ends of a source.

use vstd::prelude::*;
use crate::audio::connection::Connection;
use crate::time::Duration;

verus! {

/// How the samples of a file are encoded.
#[derive(Clone, Copy, Debug, PartialEq, Eq, Structural)]
pub enum SampleFormat {
    Int,
    Float,
}

/// The layout of the audio of a file.
#[derive(Clone, Copy, Debug, PartialEq, Eq, Structural)]
pub struct WavSpec {
    pub channels: u16,
    pub sample_rate: u32,
    pub bits_per_sample: u16,
    pub sample_format: SampleFormat,
}

/// The sample encodings that can be read.
#[derive(Clone, Copy, Debug, PartialEq, Eq, Structural)]
pub enum Encoding {
    Int8,
    Int16,
    Int24,
    Float32,
}

/// Why the samples of a file cannot be read.
#[derive(Clone, Copy, Debug, PartialEq, Eq, Structural)]
pub enum ReadError {
    /// Samples of `depth` bits cannot be read.
    UnsupportedDepth { depth: u16 },
}

/// The encoding of the samples of a file with the layout `spec`: integers of
/// 8, 16 or 24 bits, or floating point numbers of 32 bits.
pub open spec fn encoding_of(spec: WavSpec) -> Result<Encoding, ReadError> {
    match spec.sample_format {
        SampleFormat::Int => if spec.bits_per_sample == 8 {
            Ok(Encoding::Int8)
        } else if spec.bits_per_sample == 16 {
            Ok(Encoding::Int16)
        } else if spec.bits_per_sample == 24 {
            Ok(Encoding::Int24)
        } else {
            Err(ReadError::UnsupportedDepth { depth: spec.bits_per_sample })
        },
        SampleFormat::Float => if spec.bits_per_sample == 32 {
            Ok(Encoding::Float32)
        } else {
            Err(ReadError::UnsupportedDepth { depth: spec.bits_per_sample })
        },
    }
}

/// The encoding of the samples of a file with the layout `spec`.
pub fn encoding(spec: &WavSpec) -> (r: Result<Encoding, ReadError>)
    ensures
        r == encoding_of(*spec),
{
    match spec.sample_format {
        SampleFormat::Int => {
            if spec.bits_per_sample == 8 {
                Ok(Encoding::Int8)
            } else if spec.bits_per_sample == 16 {
                Ok(Encoding::Int16)
            } else if spec.bits_per_sample == 24 {
                Ok(Encoding::Int24)
            } else {
                Err(ReadError::UnsupportedDepth { depth: spec.bits_per_sample })
            }
        },
        SampleFormat::Float => {
            if spec.bits_per_sample == 32 {
                Ok(Encoding::Float32)
            } else {
                Err(ReadError::UnsupportedDepth { depth: spec.bits_per_sample })
            }
        },
    }
}

/// A gain of `numerator / denominator`.
#[derive(Clone, Copy, Debug, PartialEq, Eq, Structural)]
pub struct Gain {
    pub numerator: u64,
    pub denominator: u64,
}

/// The gains by which a fade scales one sample: each is there only while
/// its fade lasts.
#[derive(Clone, Copy, Debug, PartialEq, Eq, Structural)]
pub struct Fade {
    pub fade_in: Option<Gain>,
    pub fade_out: Option<Gain>,
}

/// The position in the file of sample `idx` of a chunk that was read from
/// frame `reader_pos` on, moved back to the first sample of its frame.
pub open spec fn fade_position(channels: nat, reader_pos: nat, idx: nat) -> nat
    recommends
        channels > 0,
{
    (idx + reader_pos) / channels * channels
}

/// The gains for a sample at `position` of a file of `total` samples at
/// `rate`: over the first `fade_in` of the file the gain rises with the
/// position, over the last `fade_out` it falls with what is left.
pub open spec fn fade_of(
    rate: u32,
    total: nat,
    position: nat,
    fade_in: Option<Duration>,
    fade_out: Option<Duration>,
) -> Fade {
    Fade {
        fade_in: match fade_in {
            Some(length) if position < length.frames_at(rate) => Some(
                Gain { numerator: position as u64, denominator: length.frames_at(rate) as u64 },
            ),
            _ => None,
        },
        fade_out: match fade_out {
            Some(length) if position <= total && total - position < length.frames_at(rate) => Some(
                Gain { numerator: (total - position) as u64, denominator: length.frames_at(rate) as u64 },
            ),
            _ => None,
        },
    }
}

/// The gains for sample `idx` of a chunk that was read from frame
/// `reader_pos` on, in a file of `len` frames with the layout `spec`.
///
/// A fade that holds more samples than can be counted never ends.
pub fn fade(
    spec: &WavSpec,
    reader_pos: u32,
    len: u32,
    fade_in: Option<Duration>,
    fade_out: Option<Duration>,
    idx: usize,
) -> (r: Fade)
    requires
        spec.channels > 0,
        idx + reader_pos <= u64::MAX,
        fade_in matches Some(length) ==> length.frames_at(spec.sample_rate) <= u64::MAX,
        fade_out matches Some(length) ==> length.frames_at(spec.sample_rate) <= u64::MAX,
    ensures
        r == fade_of(
            spec.sample_rate,
            len as nat * spec.channels as nat,
            fade_position(spec.channels as nat, reader_pos as nat, idx as nat),
            fade_in,
            fade_out,
        ),
{
    let channels = spec.channels as u64;
    assert(len * channels <= 0xffff_ffff * 0xffff) by (nonlinear_arith)
        requires
            len <= 0xffff_ffff,
            channels <= 0xffff,
    ;
    let total: u64 = len as u64 * channels;
    let frame: u64 = (idx as u64 + reader_pos as u64) / channels;
    assert(frame * channels <= idx + reader_pos) by (nonlinear_arith)
        requires
            frame == (idx + reader_pos) / (channels as int),
            channels > 0,
    ;
    let position: u64 = frame * channels;
    let gain_in = match fade_in {
        Some(length) => {
            let frames = frames_u64(length, spec.sample_rate);
            if position < frames {
                Some(Gain { numerator: position, denominator: frames })
            } else {
                None
            }
        },
        None => None,
    };
    let gain_out = match fade_out {
        Some(length) => {
            let frames = frames_u64(length, spec.sample_rate);
            if position <= total && total - position < frames {
                Some(Gain { numerator: total - position, denominator: frames })
            } else {
                None
            }
        },
        None => None,
    };
    Fade { fade_in: gain_in, fade_out: gain_out }
}

/// The number of frames that `length` holds at `rate`.
fn frames_u64(length: Duration, rate: u32) -> (r: u64)
    requires
        length.frames_at(rate) <= u64::MAX,
    ensures
        r == length.frames_at(rate),
{
    assert(length.nanos * rate <= 0xffff_ffff_ffff_ffff * 0xffff_ffff) by (nonlinear_arith)
        requires
            length.nanos <= 0xffff_ffff_ffff_ffff,
            rate <= 0xffff_ffff,
    ;
    let product: u128 = length.nanos as u128 * rate as u128;
    ((product + 500_000_000) / 1_000_000_000) as u64
}

/// What is known of a file once it is open.
#[derive(Clone, Copy, Debug, PartialEq, Eq, Structural)]
pub struct Loaded {
    pub spec: WavSpec,
    /// The number of frames of the file.
    pub len: u32,
}

/// An audio file, its fades and the connections that route its channels.
pub struct AudioSource {
    pub path: String,
    pub fade_in: Option<Duration>,
    pub fade_out: Option<Duration>,
    pub connections: Vec<Connection>,
    pub loaded: Option<Loaded>,
    pub reader_position: u32,
}

impl AudioSource {
    /// A source that is not open yet.
    pub fn new(path: String, fade_in: Option<Duration>, fade_out: Option<Duration>, connections: Vec<Connection>) -> (r: Self)
        ensures
            r.path == path,
            r.fade_in == fade_in,
            r.fade_out == fade_out,
            r.connections == connections,
            r.loaded is None,
            r.reader_position == 0,
    {
        AudioSource { path, fade_in, fade_out, connections, loaded: None, reader_position: 0 }
    }

    /// Records that the file was opened and found to hold `loaded`.
    pub fn load(&mut self, loaded: Loaded)
        ensures
            *final(self) == (AudioSource { loaded: Some(loaded), ..*old(self) }),
    {
        self.loaded = Some(loaded);
    }

    /// Records that the file was closed.
    pub fn unload(&mut self)
        ensures
            *final(self) == (AudioSource { loaded: None, ..*old(self) }),
    {
        self.loaded = None;
    }

    /// What is known of the file, where it is open.
    pub fn as_loaded(&self) -> (r: Option<Loaded>)
        ensures
            r == self.loaded,
    {
        self.loaded
    }

    /// Whether the file is open.
    pub fn is_loaded(&self) -> (r: bool)
        ensures
            r == (self.loaded is Some),
    {
        self.loaded.is_some()
    }

    /// Whether a channel of the source is routed to the master output.
    pub open spec fn feeds_master(&self) -> bool {
        exists|i: int| 0 <= i < self.connections.len() && (#[trigger] self.connections[i]).target is Master
    }

    /// Whether a channel of the source is routed to the scope `name`.
    pub open spec fn feeds_scope(&self, name: Seq<char>) -> bool {
        exists|i: int|
            0 <= i < self.connections.len() && (#[trigger] self.connections[i]).target.targets_scope(name)
    }

    /// Whether a channel of the source is routed to the master output.
    pub fn is_routed_to_master(&self) -> (r: bool)
        ensures
            r == self.feeds_master(),
    {
        let mut i: usize = 0;
        while i < self.connections.len()
            invariant
                i <= self.connections.len(),
                forall|j: int| 0 <= j < i ==> !((#[trigger] self.connections[j]).target is Master),
            decreases self.connections.len() - i,
        {
            if self.connections[i].target.is_master() {
                return true;
            }
            i += 1;
        }
        false
    }

    /// Whether a channel of the source is routed to the scope `name`.
    pub fn is_routed_to_scope(&self, name: &String) -> (r: bool)
        ensures
            r == self.feeds_scope(name@),
    {
        let mut i: usize = 0;
        while i < self.connections.len()
            invariant
                i <= self.connections.len(),
                forall|j: int| 0 <= j < i ==> !(#[trigger] self.connections[j]).target.targets_scope(name@),
            decreases self.connections.len() - i,
        {
            if self.connections[i].target.is_scope(name) {
                return true;
            }
            i += 1;
        }
        false
    }

    /// Records that the reader was moved to frame `pos`.
    pub fn seek(&mut self, pos: u32)
        ensures
            *final(self) == (AudioSource { reader_position: pos, ..*old(self) }),
    {
        self.reader_position = pos;
    }

    /// Records that `len` samples were read; the position stops at the
    /// highest that can be held.
    pub fn advance(&mut self, len: usize)
        ensures
            *final(self) == (AudioSource {
                reader_position: if old(self).reader_position + len > u32::MAX {
                    u32::MAX
                } else {
                    (old(self).reader_position + len) as u32
                },
                ..*old(self)
            }),
    {
        if len > (u32::MAX - self.reader_position) as usize {
            self.reader_position = u32::MAX;
        } else {
            self.reader_position = self.reader_position + len as u32;
        }
    }
}

} // verus!
