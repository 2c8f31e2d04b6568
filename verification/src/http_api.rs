//! Request and response shapes of the HTTP control surface. The HTTP server
//! itself is the embedding program's concern; the library only defines the
//! payloads that map onto session operations.

use vstd::prelude::*;

use crate::session::SessionStats;

verus! {

/// Body of a request to start a recording.
#[derive(Debug, Clone)]
pub struct StartRecordingRequest {
    /// Meeting identifier; a fresh one is generated when absent.
    pub meeting_id: Option<String>,
    /// Optional meeting title.
    pub title: Option<String>,
    /// Chunk duration in seconds; the five-minute default applies when
    /// absent.
    pub chunk_duration_secs: Option<u64>,
}

/// Body of the reply to a successful start.
#[derive(Debug, Clone)]
pub struct StartRecordingResponse {
    /// The meeting that started recording.
    pub meeting_id: String,
    /// The session's new state, as text.
    pub status: String,
    /// A human-readable confirmation.
    pub message: String,
}

/// Body of the reply to a successful stop.
#[derive(Debug, Clone)]
pub struct StopRecordingResponse {
    /// The meeting that stopped recording.
    pub meeting_id: String,
    /// The session's new state, as text.
    pub status: String,
    /// A human-readable confirmation.
    pub message: String,
    /// The final statistics snapshot.
    pub stats: SessionStats,
}

/// Body of every error reply.
#[derive(Debug, Clone)]
pub struct ErrorResponse {
    /// What went wrong.
    pub error: String,
}

} // verus!
