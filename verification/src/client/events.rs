//! Typed events, plus the `Resync` pattern that keeps GUIs correct.

use vstd::prelude::*;

use crate::devices::opt_view;
use crate::ipc::json::{json_bool, json_get, json_i64, json_str, json_u64, JsonValue};
use crate::text::str_eq;

verus! {

/// Events delivered by the client's event monitor.
pub enum ClientEvent {
    DeviceAdded { id: String, name: String },
    DeviceRemoved { id: String },
    DeviceChanged { id: String },
    DefaultOutputChanged { id: String },
    DefaultInputChanged { id: String },
    VolumeChanged { device: Option<String>, volume: u32 },
    MuteChanged { muted: bool },
    StreamAdded { id: String, application: String },
    StreamRemoved { id: String },
    StreamChanged { id: String },
    ProfileChanged { profile: String },
    MicrophoneChanged { muted: bool, gain: i32 },
    /// **Synthetic** (not from the daemon): the monitor connected or
    /// reconnected. Fetch fresh state when you see this — events may have
    /// been missed while disconnected.
    Resync,
    /// Unknown event from a newer daemon. Ignore it (compatibility rule:
    /// clients must tolerate unknown events).
    Unknown { name: String },
}

/// The event name of a wire line, when it has one.
pub open spec fn event_name(v: JsonValue) -> Option<Seq<char>> {
    match json_get(v, "event"@) {
        Some(e) => json_str(e),
        None => None,
    }
}

/// The member `key` of the line's `data`.
pub open spec fn data_field(v: JsonValue, key: Seq<char>) -> Option<JsonValue> {
    match json_get(v, "data"@) {
        Some(d) => json_get(d, key),
        None => None,
    }
}

pub open spec fn field_str(v: JsonValue, key: Seq<char>) -> Option<Seq<char>> {
    match data_field(v, key) {
        Some(f) => json_str(f),
        None => None,
    }
}

pub open spec fn field_u64(v: JsonValue, key: Seq<char>) -> Option<u64> {
    match data_field(v, key) {
        Some(f) => json_u64(f),
        None => None,
    }
}

pub open spec fn field_i64(v: JsonValue, key: Seq<char>) -> Option<i64> {
    match data_field(v, key) {
        Some(f) => json_i64(f),
        None => None,
    }
}

pub open spec fn field_bool(v: JsonValue, key: Seq<char>) -> Option<bool> {
    match data_field(v, key) {
        Some(f) => json_bool(f),
        None => None,
    }
}

/// The event names this client knows.
pub open spec fn known_event(name: Seq<char>) -> bool {
    ||| name == "DeviceAdded"@
    ||| name == "DeviceRemoved"@
    ||| name == "DeviceChanged"@
    ||| name == "DefaultOutputChanged"@
    ||| name == "DefaultInputChanged"@
    ||| name == "VolumeChanged"@
    ||| name == "MuteChanged"@
    ||| name == "StreamAdded"@
    ||| name == "StreamRemoved"@
    ||| name == "StreamChanged"@
    ||| name == "ProfileChanged"@
    ||| name == "MicrophoneChanged"@
}

/// A line is an event the client can read: it names an event, and a known
/// event carries its required fields with the right types.
pub open spec fn wire_readable(v: JsonValue) -> bool {
    match event_name(v) {
        None => false,
        Some(name) => if name == "DeviceAdded"@ || name == "StreamAdded"@ {
            field_str(v, "id"@) is Some && (if name == "DeviceAdded"@ {
                field_str(v, "name"@) is Some
            } else {
                field_str(v, "application"@) is Some
            })
        } else if name == "DeviceRemoved"@ || name == "DeviceChanged"@ || name == "DefaultOutputChanged"@
            || name == "DefaultInputChanged"@ || name == "StreamRemoved"@ || name == "StreamChanged"@ {
            field_str(v, "id"@) is Some
        } else if name == "VolumeChanged"@ {
            field_u64(v, "volume"@) is Some
        } else if name == "MuteChanged"@ {
            field_bool(v, "muted"@) is Some
        } else if name == "ProfileChanged"@ {
            field_str(v, "profile"@) is Some
        } else if name == "MicrophoneChanged"@ {
            field_bool(v, "muted"@) is Some && field_i64(v, "gain"@) is Some
        } else {
            true
        },
    }
}

/// `e` is what the wire line `v` says (numbers narrowed as `as` does).
pub open spec fn reads_as(v: JsonValue, e: ClientEvent) -> bool {
    match e {
        ClientEvent::DeviceAdded { id, name } => event_name(v) == Some("DeviceAdded"@) && field_str(v, "id"@)
            == Some(id@) && field_str(v, "name"@) == Some(name@),
        ClientEvent::DeviceRemoved { id } => event_name(v) == Some("DeviceRemoved"@) && field_str(v, "id"@) == Some(
            id@,
        ),
        ClientEvent::DeviceChanged { id } => event_name(v) == Some("DeviceChanged"@) && field_str(v, "id"@) == Some(
            id@,
        ),
        ClientEvent::DefaultOutputChanged { id } => event_name(v) == Some("DefaultOutputChanged"@) && field_str(
            v,
            "id"@,
        ) == Some(id@),
        ClientEvent::DefaultInputChanged { id } => event_name(v) == Some("DefaultInputChanged"@) && field_str(
            v,
            "id"@,
        ) == Some(id@),
        ClientEvent::VolumeChanged { device, volume } => event_name(v) == Some("VolumeChanged"@) && field_str(
            v,
            "device"@,
        ) == opt_view(device) && (field_u64(v, "volume"@) matches Some(n) && volume == n as u32),
        ClientEvent::MuteChanged { muted } => event_name(v) == Some("MuteChanged"@) && field_bool(v, "muted"@)
            == Some(muted),
        ClientEvent::StreamAdded { id, application } => event_name(v) == Some("StreamAdded"@) && field_str(v, "id"@)
            == Some(id@) && field_str(v, "application"@) == Some(application@),
        ClientEvent::StreamRemoved { id } => event_name(v) == Some("StreamRemoved"@) && field_str(v, "id"@) == Some(
            id@,
        ),
        ClientEvent::StreamChanged { id } => event_name(v) == Some("StreamChanged"@) && field_str(v, "id"@) == Some(
            id@,
        ),
        ClientEvent::ProfileChanged { profile } => event_name(v) == Some("ProfileChanged"@) && field_str(
            v,
            "profile"@,
        ) == Some(profile@),
        ClientEvent::MicrophoneChanged { muted, gain } => event_name(v) == Some("MicrophoneChanged"@) && field_bool(
            v,
            "muted"@,
        ) == Some(muted) && (field_i64(v, "gain"@) matches Some(g) && gain == g as i32),
        ClientEvent::Resync => false,
        ClientEvent::Unknown { name } => event_name(v) == Some(name@) && !known_event(name@),
    }
}

fn data_member<'a>(value: &'a JsonValue, key: &str) -> (r: Option<&'a JsonValue>)
    ensures
        r matches Some(f) ==> data_field(*value, key@) == Some(*f),
        r is None ==> data_field(*value, key@) is None,
{
    match value.get("data") {
        Some(d) => d.get(key),
        None => None,
    }
}

fn member_str(value: &JsonValue, key: &str) -> (r: Option<String>)
    ensures
        r matches Some(s) ==> field_str(*value, key@) == Some(s@),
        r is None ==> field_str(*value, key@) is None,
{
    match data_member(value, key) {
        Some(f) => match f.as_str() {
            Some(s) => Some(String::from_str(s)),
            None => None,
        },
        None => None,
    }
}

fn member_u64(value: &JsonValue, key: &str) -> (r: Option<u64>)
    ensures
        r == field_u64(*value, key@),
{
    match data_member(value, key) {
        Some(f) => f.as_u64(),
        None => None,
    }
}

fn member_i64(value: &JsonValue, key: &str) -> (r: Option<i64>)
    ensures
        r == field_i64(*value, key@),
{
    match data_member(value, key) {
        Some(f) => f.as_i64(),
        None => None,
    }
}

fn member_bool(value: &JsonValue, key: &str) -> (r: Option<bool>)
    ensures
        r == field_bool(*value, key@),
{
    match data_member(value, key) {
        Some(f) => f.as_bool(),
        None => None,
    }
}

impl ClientEvent {
    /// Parse one wire line: `{"event":"VolumeChanged","data":{...}}`.
    /// Returns `None` for lines that are not events (responses, garbage) and
    /// for known events that lack a field.
    pub fn from_wire(value: &JsonValue) -> (r: Option<Self>)
        ensures
            r is Some <==> wire_readable(*value),
            r matches Some(e) ==> reads_as(*value, e),
    {
        proof {
            reveal_strlit("DeviceAdded");
            reveal_strlit("DeviceRemoved");
            reveal_strlit("DeviceChanged");
            reveal_strlit("DefaultOutputChanged");
            reveal_strlit("DefaultInputChanged");
            reveal_strlit("VolumeChanged");
            reveal_strlit("MuteChanged");
            reveal_strlit("StreamAdded");
            reveal_strlit("StreamRemoved");
            reveal_strlit("StreamChanged");
            reveal_strlit("ProfileChanged");
            reveal_strlit("MicrophoneChanged");
            assert("DeviceAdded"@[0] != "MuteChanged"@[0]);
            assert("DeviceAdded"@[0] != "StreamAdded"@[0]);
            assert("DeviceRemoved"@[6] != "DeviceChanged"@[6]);
            assert("DeviceRemoved"@[0] != "VolumeChanged"@[0]);
            assert("DeviceRemoved"@[0] != "StreamRemoved"@[0]);
            assert("DeviceRemoved"@[0] != "StreamChanged"@[0]);
            assert("DeviceChanged"@[0] != "VolumeChanged"@[0]);
            assert("DeviceChanged"@[0] != "StreamRemoved"@[0]);
            assert("DeviceChanged"@[0] != "StreamChanged"@[0]);
            assert("VolumeChanged"@[0] != "StreamRemoved"@[0]);
            assert("VolumeChanged"@[0] != "StreamChanged"@[0]);
            assert("MuteChanged"@[0] != "StreamAdded"@[0]);
            assert("StreamRemoved"@[6] != "StreamChanged"@[6]);
        }
        let name = match value.get("event") {
            Some(e) => match e.as_str() {
                Some(n) => n,
                None => return None,
            },
            None => return None,
        };
        if str_eq(name, "DeviceAdded") {
            let id = match member_str(value, "id") {
                Some(s) => s,
                None => return None,
            };
            match member_str(value, "name") {
                Some(n) => Some(ClientEvent::DeviceAdded { id, name: n }),
                None => None,
            }
        } else if str_eq(name, "DeviceRemoved") {
            match member_str(value, "id") {
                Some(id) => Some(ClientEvent::DeviceRemoved { id }),
                None => None,
            }
        } else if str_eq(name, "DeviceChanged") {
            match member_str(value, "id") {
                Some(id) => Some(ClientEvent::DeviceChanged { id }),
                None => None,
            }
        } else if str_eq(name, "DefaultOutputChanged") {
            match member_str(value, "id") {
                Some(id) => Some(ClientEvent::DefaultOutputChanged { id }),
                None => None,
            }
        } else if str_eq(name, "DefaultInputChanged") {
            match member_str(value, "id") {
                Some(id) => Some(ClientEvent::DefaultInputChanged { id }),
                None => None,
            }
        } else if str_eq(name, "VolumeChanged") {
            let device = member_str(value, "device");
            match member_u64(value, "volume") {
                Some(v) => Some(ClientEvent::VolumeChanged { device, volume: #[verifier::truncate] (v as u32) }),
                None => None,
            }
        } else if str_eq(name, "MuteChanged") {
            match member_bool(value, "muted") {
                Some(muted) => Some(ClientEvent::MuteChanged { muted }),
                None => None,
            }
        } else if str_eq(name, "StreamAdded") {
            let id = match member_str(value, "id") {
                Some(s) => s,
                None => return None,
            };
            match member_str(value, "application") {
                Some(application) => Some(ClientEvent::StreamAdded { id, application }),
                None => None,
            }
        } else if str_eq(name, "StreamRemoved") {
            match member_str(value, "id") {
                Some(id) => Some(ClientEvent::StreamRemoved { id }),
                None => None,
            }
        } else if str_eq(name, "StreamChanged") {
            match member_str(value, "id") {
                Some(id) => Some(ClientEvent::StreamChanged { id }),
                None => None,
            }
        } else if str_eq(name, "ProfileChanged") {
            match member_str(value, "profile") {
                Some(profile) => Some(ClientEvent::ProfileChanged { profile }),
                None => None,
            }
        } else if str_eq(name, "MicrophoneChanged") {
            let muted = match member_bool(value, "muted") {
                Some(m) => m,
                None => return None,
            };
            match member_i64(value, "gain") {
                Some(g) => Some(ClientEvent::MicrophoneChanged { muted, gain: #[verifier::truncate] (g as i32) }),
                None => None,
            }
        } else {
            Some(ClientEvent::Unknown { name: String::from_str(name) })
        }
    }
}

} // verus!
