//! All errors surfaced by mitos-audio.

use vstd::prelude::*;

use crate::text::{concat_str, decimal, decimal_chars, string_from_chars};

verus! {

/// All errors surfaced by mitos-audio. Errors that come from I/O, the
/// TOML reader or the JSON reader carry their message text.
pub enum AudioError {
    DeviceNotFound(String),
    StreamNotFound(String),
    InvalidVolume(u32),
    InvalidProfile(String),
    NotAnOutput(String),
    NotAnInput(String),
    UnsupportedFormat(String),
    Ipc(String),
    Config(String),
    ConfigParse(String),
    Io(String),
    NoOutput,
    NoInput,
    Backend(String),
    Serialization(String),
}

/// Stable error code used in IPC responses.
pub open spec fn error_code(e: AudioError) -> Seq<char> {
    match e {
        AudioError::DeviceNotFound(_) => "device-not-found"@,
        AudioError::StreamNotFound(_) => "stream-not-found"@,
        AudioError::InvalidVolume(_) => "invalid-volume"@,
        AudioError::InvalidProfile(_) => "invalid-profile"@,
        AudioError::NotAnOutput(_) => "not-an-output"@,
        AudioError::NotAnInput(_) => "not-an-input"@,
        AudioError::UnsupportedFormat(_) => "unsupported-format"@,
        AudioError::Ipc(_) => "ipc-error"@,
        AudioError::Config(_) => "config-error"@,
        AudioError::ConfigParse(_) => "config-parse-error"@,
        AudioError::NoOutput => "no-output-device"@,
        AudioError::NoInput => "no-input-device"@,
        AudioError::Backend(_) => "backend-error"@,
        AudioError::Io(_) => "io-error"@,
        AudioError::Serialization(_) => "serialization-error"@,
    }
}

/// The human-readable message of an error.
pub open spec fn error_message(e: AudioError) -> Seq<char> {
    match e {
        AudioError::DeviceNotFound(s) => "device not found: "@ + s@,
        AudioError::StreamNotFound(s) => "stream not found: "@ + s@,
        AudioError::InvalidVolume(v) => "invalid volume: "@ + decimal(v as nat),
        AudioError::InvalidProfile(s) => "unknown profile: "@ + s@,
        AudioError::NotAnOutput(s) => "device "@ + s@ + " is not an output"@,
        AudioError::NotAnInput(s) => "device "@ + s@ + " is not an input"@,
        AudioError::UnsupportedFormat(s) => "unsupported format: "@ + s@,
        AudioError::Ipc(s) => "ipc error: "@ + s@,
        AudioError::Config(s) => "configuration error: "@ + s@,
        AudioError::ConfigParse(s) => "configuration parse error: "@ + s@,
        AudioError::Io(s) => "io error: "@ + s@,
        AudioError::NoOutput => "no output device available"@,
        AudioError::NoInput => "no input device available"@,
        AudioError::Backend(s) => "audio backend error: "@ + s@,
        AudioError::Serialization(s) => "serialization error: "@ + s@,
    }
}

impl AudioError {
    /// Stable error code used in IPC responses.
    pub fn code(&self) -> (r: &'static str)
        ensures
            r@ == error_code(*self),
    {
        match self {
            AudioError::DeviceNotFound(_) => "device-not-found",
            AudioError::StreamNotFound(_) => "stream-not-found",
            AudioError::InvalidVolume(_) => "invalid-volume",
            AudioError::InvalidProfile(_) => "invalid-profile",
            AudioError::NotAnOutput(_) => "not-an-output",
            AudioError::NotAnInput(_) => "not-an-input",
            AudioError::UnsupportedFormat(_) => "unsupported-format",
            AudioError::Ipc(_) => "ipc-error",
            AudioError::Config(_) => "config-error",
            AudioError::ConfigParse(_) => "config-parse-error",
            AudioError::NoOutput => "no-output-device",
            AudioError::NoInput => "no-input-device",
            AudioError::Backend(_) => "backend-error",
            AudioError::Io(_) => "io-error",
            AudioError::Serialization(_) => "serialization-error",
        }
    }
    /// The human-readable message of the error.
    pub fn message(&self) -> (r: String)
        ensures
            r@ == error_message(*self),
    {
        match self {
            AudioError::DeviceNotFound(s) => concat_str("device not found: ", s.as_str()),
            AudioError::StreamNotFound(s) => concat_str("stream not found: ", s.as_str()),
            AudioError::InvalidVolume(v) => {
                let digits = decimal_chars(*v as u64);
                let d = string_from_chars(&digits);
                concat_str("invalid volume: ", d.as_str())
            },
            AudioError::InvalidProfile(s) => concat_str("unknown profile: ", s.as_str()),
            AudioError::NotAnOutput(s) => {
                let head = concat_str("device ", s.as_str());
                concat_str(head.as_str(), " is not an output")
            },
            AudioError::NotAnInput(s) => {
                let head = concat_str("device ", s.as_str());
                concat_str(head.as_str(), " is not an input")
            },
            AudioError::UnsupportedFormat(s) => concat_str("unsupported format: ", s.as_str()),
            AudioError::Ipc(s) => concat_str("ipc error: ", s.as_str()),
            AudioError::Config(s) => concat_str("configuration error: ", s.as_str()),
            AudioError::ConfigParse(s) => concat_str("configuration parse error: ", s.as_str()),
            AudioError::Io(s) => concat_str("io error: ", s.as_str()),
            AudioError::NoOutput => String::from_str("no output device available"),
            AudioError::NoInput => String::from_str("no input device available"),
            AudioError::Backend(s) => concat_str("audio backend error: ", s.as_str()),
            AudioError::Serialization(s) => concat_str("serialization error: ", s.as_str()),
        }
    }
}

} // verus!
