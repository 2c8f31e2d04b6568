//! Meeting audio capture core: time-aligned mixing of tagged audio streams,
//! duration-bounded chunk persistence, per-frame transforms (decimation,
//! channel collapse), the transport envelope protocol spoken with the
//! speech-to-text collaborator, and the recording-session state machine.

pub mod audio_file;
pub mod capture;
pub mod chunk;
pub mod config;
pub mod envelope;
pub mod errors;
pub mod frame;
pub mod http_api;
pub mod mixer;
pub mod session;
pub mod textfmt;
pub mod transform;

pub use audio_file::AudioFile;
pub use capture::{is_available, MacOSBackend};
pub use chunk::{Chunk, ChunkConfig, ChunkMetadata, ChunkedRecorder};
pub use config::{AudioConfig, Config, HttpConfig, ObsidianConfig, ServiceConfig};
pub use envelope::{AudioFrameMessage, TranscriptMessage};
pub use errors::MeetingError;
pub use frame::{AudioBackendConfig, AudioFrame, AudioSource, AudioStreamSource};
pub use http_api::{ErrorResponse, StartRecordingRequest, StartRecordingResponse, StopRecordingResponse};
pub use mixer::{AudioMixer, MixerConfig, SourceSet};
pub use session::{RecordingSession, SessionConfig, SessionStats, TranscriptSegment};
pub use transform::{clamp_sample, downsample_frame, process_frame, stereo_to_mono};
