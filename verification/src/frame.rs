//! Core audio data types: tagged PCM frames and capture configuration.

use vstd::prelude::*;

verus! {

/// Which live stream a frame came from.
#[derive(Debug, Clone, Copy, PartialEq, Eq, Hash, Structural)]
pub enum AudioStreamSource {
    /// System audio (applications, browser, and so on).
    System,
    /// Microphone input.
    Microphone,
}

/// One frame of 16-bit PCM audio, interleaved by channel, tagged with its
/// source and a timestamp in milliseconds since the recording started.
#[derive(Debug, Clone)]
pub struct AudioFrame {
    /// Raw samples (signed 16-bit PCM, interleaved).
    pub samples: Vec<i16>,
    /// Sample rate in Hz.
    pub sample_rate: u32,
    /// Number of channels.
    pub channels: u16,
    /// Milliseconds since the recording started; non-decreasing per source.
    pub timestamp_ms: u64,
    /// Which stream produced this frame.
    pub source: AudioStreamSource,
}

impl AudioFrame {
    /// The samples divide evenly into whole interleaved channel groups.
    pub open spec fn wf(&self) -> bool {
        self.channels > 0 && self.samples@.len() as int % (self.channels as int) == 0
    }
}

/// The mathematical content of an `AudioFrame`: the same fields, with the
/// sample vector abstracted to a sequence.
#[verifier::ext_equal]
pub struct FrameView {
    /// The samples as a sequence.
    pub samples: Seq<i16>,
    /// Sample rate in Hz.
    pub sample_rate: u32,
    /// Number of channels.
    pub channels: u16,
    /// Milliseconds since the recording started.
    pub timestamp_ms: u64,
    /// Which stream produced this frame.
    pub source: AudioStreamSource,
}

impl View for AudioFrame {
    type V = FrameView;

    open spec fn view(&self) -> FrameView {
        FrameView {
            samples: self.samples@,
            sample_rate: self.sample_rate,
            channels: self.channels,
            timestamp_ms: self.timestamp_ms,
            source: self.source,
        }
    }
}

/// The views of a sequence of frames.
pub open spec fn frame_views(fs: Seq<AudioFrame>) -> Seq<FrameView> {
    fs.map_values(|f: AudioFrame| f@)
}

/// Configuration for an audio capture backend.
#[derive(Debug, Clone)]
pub struct AudioBackendConfig {
    /// Target sample rate in Hz (capture resamples if needed).
    pub target_sample_rate: u32,
    /// Target channel count (1 = mono, 2 = stereo).
    pub target_channels: u16,
    /// Capture buffer size in milliseconds (affects latency).
    pub buffer_duration_ms: u64,
}

impl Default for AudioBackendConfig {
    /// 16 kHz mono with 100 ms buffers, the rate the transcription
    /// collaborator expects.
    fn default() -> (r: Self)
        ensures
            r.target_sample_rate == 16000,
            r.target_channels == 1,
            r.buffer_duration_ms == 100,
    {
        AudioBackendConfig { target_sample_rate: 16000, target_channels: 1, buffer_duration_ms: 100 }
    }
}

/// Which capture backend a caller asks for.
#[derive(Debug, Clone)]
pub enum AudioSource {
    /// System audio.
    System,
    /// Microphone input.
    Microphone,
    /// A file on disk, for batch processing.
    File(String),
}

} // verus!
