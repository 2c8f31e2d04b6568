//! The capture boundary. Native system-audio capture is an external
//! collaborator reached through the embedding program; this library build
//! links no capture bridge, so the backend here reports itself unavailable
//! and refuses to start, exactly as the capture backend does on a machine
//! without one.

use vstd::prelude::*;
use vstd::string::StringExecFns;

use crate::errors::MeetingError;
use crate::frame::AudioBackendConfig;

verus! {

/// Whether a native capture bridge is available. This library build links
/// none, so the answer is always no.
pub fn is_available() -> (r: bool)
    ensures
        !r,
{
    false
}

/// The system-audio capture backend. With no capture bridge linked it can
/// never be constructed: `new` always reports a capture error.
pub struct MacOSBackend {
    config: AudioBackendConfig,
    capturing: bool,
}

impl MacOSBackend {
    /// Whether capture is running.
    pub closed spec fn capturing_spec(&self) -> bool {
        self.capturing
    }

    /// Construct the backend; fails with a capture error whenever no capture
    /// bridge is available, which here is always.
    pub fn new(config: AudioBackendConfig) -> (r: Result<MacOSBackend, MeetingError>)
        ensures
            r matches Err(e) && e is Capture,
    {
        if !is_available() {
            return Err(
                MeetingError::Capture(
                    String::from_str(
                        "ScreenCaptureKit is not available on this system. Requires macOS 13.0 (Ventura, October 2022) or later.",
                    ),
                ),
            );
        }
        Ok(MacOSBackend { config, capturing: false })
    }

    /// Whether capture is running.
    pub fn is_capturing(&self) -> (r: bool)
        ensures
            r == self.capturing_spec(),
    {
        self.capturing
    }

    /// The backend's name, for logs.
    pub fn name(&self) -> (r: &'static str)
        ensures
            r@ == "macOS ScreenCaptureKit"@,
    {
        "macOS ScreenCaptureKit"
    }
}

} // verus!
