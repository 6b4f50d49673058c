//! Typed mirrors of the daemon's wire model, as clients receive it.

use vstd::prelude::*;

pub use crate::devices::{Bus, DeviceKind, DeviceState, Direction};
pub use crate::streams::{StreamKind, StreamState};

verus! {

pub struct DeviceInfo {
    pub id: String,
    pub name: String,
    pub description: String,
    pub kind: DeviceKind,
    pub direction: Direction,
    pub bus: Bus,
    pub state: DeviceState,
    pub profiles: Vec<String>,
    pub active_profile: Option<String>,
    pub channels: u32,
    pub sample_rates: Vec<u32>,
    pub volume: u32,
    pub muted: bool,
    /// ALSA device id (e.g. "hw:0,0") when backed by real hardware.
    pub alsa: Option<String>,
}

pub struct StreamInfo {
    pub id: String,
    pub application: String,
    pub kind: StreamKind,
    pub device: String,
    pub volume: u32,
    pub muted: bool,
    pub sample_rate: u32,
    pub channels: u32,
    pub format: String,
    pub state: StreamState,
    pub follows_default: bool,
}

/// Result of `ListDevices` / `Rescan`.
pub struct DeviceList {
    pub devices: Vec<DeviceInfo>,
    pub default_output: Option<String>,
    pub default_input: Option<String>,
}

/// Master/device volume as reported by `GetVolume`.
pub struct VolumeInfo {
    pub device: Option<String>,
    pub volume: u32,
    pub muted: bool,
}

/// Result of `SetVolume` — `hw_applied` is false when the device has no
/// hardware volume control (state still updated).
pub struct VolumeChangeResult {
    pub device: Option<String>,
    pub volume: u32,
    pub hw_applied: bool,
}

pub struct ProfileList {
    pub profiles: Vec<String>,
    pub active: String,
}

pub struct MicrophoneSummary {
    pub muted: bool,
    pub gain_db: i32,
}

pub struct MicrophoneStatus {
    pub device: Option<DeviceInfo>,
    pub muted: bool,
    pub gain_db: i32,
}

/// Full daemon snapshot (`GetState`).
pub struct SystemState {
    pub service: String,
    pub version: String,
    pub backend: String,
    pub devices: Vec<DeviceInfo>,
    pub streams: Vec<StreamInfo>,
    pub default_output: Option<String>,
    pub default_input: Option<String>,
    pub master_volume: u32,
    pub master_muted: bool,
    pub microphone: MicrophoneSummary,
    pub profile: String,
    pub data_socket: Option<String>,
}

/// Client tuning knobs: the daemon socket and the event monitor's
/// reconnect delays (initial, and the ceiling of the exponential backoff).
pub struct ClientConfig {
    pub socket_path: String,
    pub retry_initial_ms: u64,
    pub retry_max_ms: u64,
}

impl ClientConfig {
    /// The standard delays (250 ms doubling up to 8 s) for `socket_path`.
    pub fn for_socket(socket_path: String) -> (c: Self)
        ensures
            c.socket_path == socket_path,
            c.retry_initial_ms == 250,
            c.retry_max_ms == 8000,
    {
        ClientConfig { socket_path, retry_initial_ms: 250, retry_max_ms: 8000 }
    }
}

} // verus!
