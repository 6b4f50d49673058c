//! Application audio streams (the per-app mixer rows).

use vstd::prelude::*;

verus! {

#[derive(Debug, Clone, Copy, PartialEq, Eq, Structural)]
pub enum StreamKind {
    Playback,
    Recording,
    Monitoring,
    Capture,
}

#[derive(Debug, Clone, Copy, PartialEq, Eq, Structural)]
pub enum StreamState {
    Idle,
    Running,
    Suspended,
    Stopped,
}

pub struct AudioStream {
    pub id: String,
    pub application: String,
    pub kind: StreamKind,
    pub device: String,
    pub volume: u32,
    pub muted: bool,
    pub sample_rate: u32,
    pub channels: u32,
    pub format: String,
    pub state: StreamState,
    pub follows_default: bool,
}

/// The mathematical value of an [`AudioStream`].
pub struct StreamView {
    pub id: Seq<char>,
    pub application: Seq<char>,
    pub kind: StreamKind,
    pub device: Seq<char>,
    pub volume: u32,
    pub muted: bool,
    pub sample_rate: u32,
    pub channels: u32,
    pub format: Seq<char>,
    pub state: StreamState,
    pub follows_default: bool,
}

impl View for AudioStream {
    type V = StreamView;

    open spec fn view(&self) -> StreamView {
        StreamView {
            id: self.id@,
            application: self.application@,
            kind: self.kind,
            device: self.device@,
            volume: self.volume,
            muted: self.muted,
            sample_rate: self.sample_rate,
            channels: self.channels,
            format: self.format@,
            state: self.state,
            follows_default: self.follows_default,
        }
    }
}

impl Clone for AudioStream {
    fn clone(&self) -> (s: Self)
        ensures
            s == *self,
    {
        AudioStream {
            id: self.id.clone(),
            application: self.application.clone(),
            kind: self.kind,
            device: self.device.clone(),
            volume: self.volume,
            muted: self.muted,
            sample_rate: self.sample_rate,
            channels: self.channels,
            format: self.format.clone(),
            state: self.state,
            follows_default: self.follows_default,
        }
    }
}

/// Which way a stream's audio flows, by kind.
pub open spec fn direction_of(kind: StreamKind) -> Seq<char> {
    match kind {
        StreamKind::Playback => "output"@,
        StreamKind::Recording | StreamKind::Capture => "input"@,
        StreamKind::Monitoring => "loopback"@,
    }
}

impl AudioStream {
    pub fn new(id: &str, application: &str, kind: StreamKind, device: &str) -> (s: Self)
        ensures
            s.id@ == id@,
            s.application@ == application@,
            s.kind == kind,
            s.device@ == device@,
            s.volume == 100,
            !s.muted,
            s.sample_rate == 48000,
            s.channels == 2,
            s.format@ == "s16le"@,
            s.state == StreamState::Running,
            !s.follows_default,
    {
        AudioStream {
            id: String::from_str(id),
            application: String::from_str(application),
            kind,
            device: String::from_str(device),
            volume: 100,
            muted: false,
            sample_rate: 48000,
            channels: 2,
            format: String::from_str("s16le"),
            state: StreamState::Running,
            follows_default: false,
        }
    }

    pub fn direction(&self) -> (r: &'static str)
        ensures
            r@ == direction_of(self.kind),
    {
        match self.kind {
            StreamKind::Playback => "output",
            StreamKind::Recording | StreamKind::Capture => "input",
            StreamKind::Monitoring => "loopback",
        }
    }
}

} // verus!
