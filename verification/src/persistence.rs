//! Persisted settings: defaults, per-device volumes, profile, microphone
//! and routing memory.

use vstd::prelude::*;

use crate::routing::RoutingMemory;

verus! {

/// What is remembered per device (each part only once it was set).
pub struct DeviceSettings {
    pub volume: Option<u32>,
    pub muted: Option<bool>,
}

impl Default for DeviceSettings {
    fn default() -> (s: Self)
        ensures
            s.volume is None,
            s.muted is None,
    {
        DeviceSettings { volume: None, muted: None }
    }
}

pub struct Settings {
    pub default_output: Option<String>,
    pub default_input: Option<String>,
    pub profile: Option<String>,
    pub mic_muted: bool,
    pub mic_gain: i32,
    /// Per-device settings, by device id (each id once).
    pub devices: Vec<(String, DeviceSettings)>,
    pub routing: RoutingMemory,
}

impl Default for Settings {
    fn default() -> (s: Self)
        ensures
            s.default_output is None,
            s.default_input is None,
            s.profile is None,
            !s.mic_muted,
            s.mic_gain == 0,
            s.devices@.len() == 0,
            s.routing.previous_output is None,
            s.routing.previous_input is None,
    {
        Settings {
            default_output: None,
            default_input: None,
            profile: None,
            mic_muted: false,
            mic_gain: 0,
            devices: Vec::new(),
            routing: RoutingMemory::default(),
        }
    }
}

/// Writes are debounced: a save waits this long after the latest request.
pub const DEBOUNCE_MS: u64 = 400;

/// The pending save of the settings writer: the latest settings win, and
/// every request extends the quiet window (slider drags do not hammer the
/// disk).
pub struct SaveQueue {
    latest: Option<Settings>,
    deadline_ms: u64,
}

impl SaveQueue {
    /// Whether settings wait to be written, and until when.
    pub closed spec fn pending(&self) -> bool {
        self.latest is Some
    }


    /// The settings waiting to be written.
    pub closed spec fn latest(&self) -> Option<Settings> {
        self.latest
    }

    pub closed spec fn due_at(&self) -> u64 {
        self.deadline_ms
    }

    pub fn new() -> (q: Self)
        ensures
            !q.pending(),
    {
        SaveQueue { latest: None, deadline_ms: 0 }
    }

    /// Settings to save, requested at `now_ms`: they replace any pending
    /// ones and the write waits `DEBOUNCE_MS` from now.
    pub fn request(&mut self, settings: Settings, now_ms: u64)
        ensures
            final(self).pending(),
            final(self).latest() == Some(settings),
            final(self).due_at() == if now_ms <= u64::MAX - DEBOUNCE_MS {
                (now_ms + DEBOUNCE_MS) as u64
            } else {
                u64::MAX
            },
    {
        self.latest = Some(settings);
        self.deadline_ms = now_ms.saturating_add(DEBOUNCE_MS);
    }

    /// When the pending write is due, if one is pending.
    pub fn deadline(&self) -> (d: Option<u64>)
        ensures
            d == if self.pending() { Some(self.due_at()) } else { None::<u64> },
    {
        if self.latest.is_some() {
            Some(self.deadline_ms)
        } else {
            None
        }
    }

    /// The settings to write now: the pending ones once due (or at once
    /// when `closing`, the last flush), leaving nothing pending.
    pub fn take_due(&mut self, now_ms: u64, closing: bool) -> (r: Option<Settings>)
        ensures
            (old(self).pending() && (closing || now_ms >= old(self).due_at())) ==> (r == old(self).latest()
                && !final(self).pending()),
            !(old(self).pending() && (closing || now_ms >= old(self).due_at())) ==> (r is None
                && final(self).latest() == old(self).latest() && final(self).due_at() == old(self).due_at()),
    {
        if self.latest.is_some() && (closing || now_ms >= self.deadline_ms) {
            self.latest.take()
        } else {
            None
        }
    }
}

} // verus!
