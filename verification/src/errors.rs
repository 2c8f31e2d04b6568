//! Error taxonomy for the recording core.

use vstd::prelude::*;

verus! {

/// What went wrong, and in which part of the system.
///
/// Capture and persistence failures are fatal to the recording call that hit
/// them; transport and protocol failures during steady state are recovered
/// locally by the pipelines.
#[derive(Debug, Clone)]
pub enum MeetingError {
    /// Invalid settings.
    Configuration(String),
    /// Capture backend unavailable, already capturing, or unsupported here.
    Capture(String),
    /// Message-bus connect, publish, or subscribe failure.
    Transport(String),
    /// File create, write, or finalize failure.
    Persistence(String),
    /// Malformed envelope.
    Protocol(String),
}

impl MeetingError {
    /// The human-readable message carried by this error.
    pub fn message(&self) -> (r: &String)
        ensures
            r@ == self.message_spec(),
    {
        match self {
            MeetingError::Configuration(m) => m,
            MeetingError::Capture(m) => m,
            MeetingError::Transport(m) => m,
            MeetingError::Persistence(m) => m,
            MeetingError::Protocol(m) => m,
        }
    }

    /// The message of any variant.
    pub open spec fn message_spec(&self) -> Seq<char> {
        match self {
            MeetingError::Configuration(m) => m@,
            MeetingError::Capture(m) => m@,
            MeetingError::Transport(m) => m@,
            MeetingError::Persistence(m) => m@,
            MeetingError::Protocol(m) => m@,
        }
    }
}

} // verus!
