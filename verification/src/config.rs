//! Service configuration data. Loading it from a configuration file is the
//! embedding program's concern; the library only defines the shape.

use vstd::prelude::*;

verus! {

/// The whole service configuration.
#[derive(Debug, Clone)]
pub struct Config {
    /// Service name and HTTP binding.
    pub service: ServiceConfig,
    /// Audio capture and storage settings.
    pub audio: AudioConfig,
    /// Note-vault export settings.
    pub obsidian: ObsidianConfig,
}

/// Service identity and its HTTP control surface.
#[derive(Debug, Clone)]
pub struct ServiceConfig {
    /// Service name, for logs.
    pub name: String,
    /// Where the HTTP control surface listens.
    pub http: HttpConfig,
}

/// Where the HTTP control surface listens.
#[derive(Debug, Clone)]
pub struct HttpConfig {
    /// Bind address.
    pub bind: String,
    /// TCP port.
    pub port: u16,
}

/// Audio capture and storage settings.
#[derive(Debug, Clone)]
pub struct AudioConfig {
    /// Directory recordings are stored under.
    pub recordings_path: String,
    /// Capture sample rate in Hz.
    pub sample_rate: u32,
    /// Capture channel count.
    pub channels: u16,
}

/// Note-vault export settings.
#[derive(Debug, Clone)]
pub struct ObsidianConfig {
    /// Path of the vault.
    pub vault_path: String,
    /// Folder inside the vault that meeting notes go to.
    pub meetings_folder: String,
}

} // verus!
