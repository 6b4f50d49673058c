//! Daemon configuration (`/etc/mitos/audio.toml`).

use vstd::prelude::*;

verus! {

pub struct AudioConfig {
    pub socket_path: String,
    pub backend: String,
    pub default_sample_rate: u32,
    pub default_channels: u32,
    pub volume_step: u32,
    pub max_volume: u32,
    pub log_level: String,
}

impl Default for AudioConfig {
    fn default() -> (c: Self)
        ensures
            c.socket_path@ == "/run/mitos/audio.sock"@,
            c.backend@ == "auto"@,
            c.default_sample_rate == 48000,
            c.default_channels == 2,
            c.volume_step == 5,
            c.max_volume == 100,
            c.log_level@ == "info"@,
    {
        AudioConfig {
            socket_path: String::from_str("/run/mitos/audio.sock"),
            backend: String::from_str("auto"),
            default_sample_rate: 48000,
            default_channels: 2,
            volume_step: 5,
            max_volume: 100,
            log_level: String::from_str("info"),
        }
    }
}

} // verus!
