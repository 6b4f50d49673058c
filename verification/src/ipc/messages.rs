//! Typed commands, replies and events of the control plane.

use vstd::prelude::*;

use crate::devices::Device;
use crate::devices::opt_view;
use crate::errors::{error_code, error_message, AudioError};
use crate::ipc::json::{describe, json_bool, json_get, json_str, json_unexpected, JsonNumber, JsonValue};
use crate::text::{concat_str, str_eq};
use crate::streams::AudioStream;

verus! {

/// Typed commands (the IPC surface).
pub enum Command {
    Ping,
    GetState,
    GetDefaults,
    ListDevices,
    GetDevice { id: String },
    SetDefaultOutput { id: String },
    SetDefaultInput { id: String },
    GetVolume { device: Option<String> },
    SetVolume { device: Option<String>, volume: u32 },
    Mute,
    Unmute,
    ListStreams,
    SetStreamVolume { stream_id: String, volume: u32 },
    SetStreamMute { stream_id: String, mute: bool },
    MoveStream { stream_id: String, device_id: String },
    ListProfiles,
    SetProfile { profile: String },
    GetMicrophone,
    SetMicrophoneGain { gain: i32 },
    MuteMicrophone { mute: bool },
    GetLevels,
    Rescan,
    SubscribeEvents,
}

/// Error part of a failed response.
pub struct ErrorBody {
    pub code: String,
    pub message: String,
}

/// Events broadcast to subscribed clients.
/// Wire form: {"event":"VolumeChanged","data":{...}}
pub enum Event {
    DeviceAdded { id: String, name: String },
    DeviceRemoved { id: String },
    DeviceChanged { id: String },
    DefaultOutputChanged { id: String },
    DefaultInputChanged { id: String },
    VolumeChanged { device: Option<String>, volume: u32 },
    MuteChanged { muted: bool },
    StreamAdded { id: String, application: String },
    StreamRemoved { id: String },
    StreamChanged { id: String },
    ProfileChanged { profile: String },
    MicrophoneChanged { muted: bool, gain: i32 },
}

/// Full daemon snapshot (`GetState`); the service name and version are
/// added where the reply is written out.
pub struct Snapshot {
    pub backend: String,
    pub devices: Vec<Device>,
    pub streams: Vec<AudioStream>,
    pub default_output: Option<String>,
    pub default_input: Option<String>,
    pub master_volume: u32,
    pub master_muted: bool,
    pub mic_muted: bool,
    pub mic_gain: i32,
    pub profile: String,
}

/// The result of a successful command.
#[allow(inconsistent_fields)]
pub enum Reply {
    /// `{ pong: true }`
    Pong,
    State(Snapshot),
    Defaults { default_output: Option<String>, default_input: Option<String> },
    /// `ListDevices` and `Rescan`.
    Devices { devices: Vec<Device>, default_output: Option<String>, default_input: Option<String> },
    Device(Device),
    DefaultOutput { id: String },
    DefaultInput { id: String },
    Volume { device: String, volume: u32, muted: bool },
    VolumeSet { device: String, volume: u32, hw_applied: bool },
    MuteSet { device: String, muted: bool, hw_applied: bool },
    Streams { streams: Vec<AudioStream> },
    StreamVolume { stream_id: String, volume: u32 },
    StreamMute { stream_id: String, muted: bool },
    StreamMoved { stream_id: String, device: String },
    Profiles { profiles: Vec<String>, active: String },
    Profile { profile: String },
    Microphone { device: Option<Device>, muted: bool, gain_db: i32 },
    MicrophoneGain { gain_db: i32 },
    MicrophoneMuted { muted: bool },
    /// `GetLevels`; the meter readings are added where the reply is written out.
    Levels { master_volume: u32, muted: bool },
    Subscribed,
}

/// Response sent for every request: the reply on success, the error's code
/// and message on failure.
pub struct Response {
    pub id: u64,
    pub ok: bool,
    pub result: Option<Reply>,
    pub error: Option<ErrorBody>,
}

impl Response {
    pub fn ok(id: u64, result: Reply) -> (r: Self)
        ensures
            r.id == id,
            r.ok,
            r.result == Some(result),
            r.error is None,
    {
        Response { id, ok: true, result: Some(result), error: None }
    }

    pub fn from_error(id: u64, err: &AudioError) -> (r: Self)
        ensures
            r.id == id,
            !r.ok,
            r.result is None,
            r.error matches Some(b) && b.code@ == error_code(*err) && b.message@ == error_message(*err),
    {
        let code = String::from_str(err.code());
        let message = err.message();
        Response { id, ok: false, result: None, error: Some(ErrorBody { code, message }) }
    }
}

// ───────────────────────── requests ─────────────────────────

/// A request received from a client (`params` is `null` when absent).
pub struct Request {
    pub id: u64,
    pub command: String,
    pub params: JsonValue,
}

/// A parameter as `params` holds it; a missing one reads as `null`.
pub open spec fn param(params: JsonValue, key: Seq<char>) -> JsonValue {
    match json_get(params, key) {
        Some(v) => v,
        None => JsonValue::Null,
    }
}

pub open spec fn u32_param(v: JsonValue) -> Option<u32> {
    match v {
        JsonValue::Number(JsonNumber::PosInt(n)) => if n <= u32::MAX {
            Some(n as u32)
        } else {
            None
        },
        JsonValue::Number(JsonNumber::NegInt(n)) => if 0 <= n <= u32::MAX {
            Some(n as u32)
        } else {
            None
        },
        _ => None,
    }
}

pub open spec fn i32_param(v: JsonValue) -> Option<i32> {
    match v {
        JsonValue::Number(JsonNumber::PosInt(n)) => if n <= i32::MAX {
            Some(n as i32)
        } else {
            None
        },
        JsonValue::Number(JsonNumber::NegInt(n)) => if i32::MIN <= n <= i32::MAX {
            Some(n as i32)
        } else {
            None
        },
        _ => None,
    }
}

/// An optional string parameter: missing or `null` is `None`.
pub open spec fn opt_string_param(params: JsonValue, key: Seq<char>) -> Option<Option<Seq<char>>> {
    match json_get(params, key) {
        None => Some(None),
        Some(JsonValue::Null) => Some(None),
        Some(v) => match json_str(v) {
            Some(s) => Some(Some(s)),
            None => None,
        },
    }
}

/// The reader's refusal of a value of the wrong kind.
pub open spec fn type_refusal(v: JsonValue, wanted: Seq<char>) -> Seq<char> {
    "invalid type: "@ + json_unexpected(v) + ", expected "@ + wanted
}

/// The reader's refusal of an integer that the wanted type cannot hold.
pub open spec fn value_refusal(v: JsonValue, wanted: Seq<char>) -> Seq<char> {
    "invalid value: "@ + json_unexpected(v) + ", expected "@ + wanted
}

/// The refusal of `v` where an integer type is wanted: an integer is out of
/// range, anything else is of the wrong kind.
pub open spec fn int_refusal(v: JsonValue, wanted: Seq<char>) -> Seq<char> {
    match v {
        JsonValue::Number(JsonNumber::PosInt(_)) => value_refusal(v, wanted),
        JsonValue::Number(JsonNumber::NegInt(_)) => value_refusal(v, wanted),
        _ => type_refusal(v, wanted),
    }
}

/// The message for a parameter that the reader refuses.
pub open spec fn param_refusal(key: Seq<char>, reason: Seq<char>) -> Seq<char> {
    "invalid parameter '"@ + key + "': "@ + reason
}

pub open spec fn need_string(params: JsonValue, key: Seq<char>) -> Option<Seq<char>> {
    if json_str(param(params, key)) is Some {
        None
    } else {
        Some(param_refusal(key, type_refusal(param(params, key), "a string"@)))
    }
}

pub open spec fn need_u32(params: JsonValue, key: Seq<char>) -> Option<Seq<char>> {
    if u32_param(param(params, key)) is Some {
        None
    } else {
        Some(param_refusal(key, int_refusal(param(params, key), "u32"@)))
    }
}

pub open spec fn need_i32(params: JsonValue, key: Seq<char>) -> Option<Seq<char>> {
    if i32_param(param(params, key)) is Some {
        None
    } else {
        Some(param_refusal(key, int_refusal(param(params, key), "i32"@)))
    }
}

pub open spec fn need_bool(params: JsonValue, key: Seq<char>) -> Option<Seq<char>> {
    if json_bool(param(params, key)) is Some {
        None
    } else {
        Some(param_refusal(key, type_refusal(param(params, key), "a boolean"@)))
    }
}

pub open spec fn need_opt_string(params: JsonValue, key: Seq<char>) -> Option<Seq<char>> {
    if opt_string_param(params, key) is Some {
        None
    } else {
        Some(param_refusal(key, type_refusal(param(params, key), "a string"@)))
    }
}

/// The first refusal of two checks made in order.
pub open spec fn first_refusal(a: Option<Seq<char>>, b: Option<Seq<char>>) -> Option<Seq<char>> {
    if a is Some {
        a
    } else {
        b
    }
}

/// Commands that take no parameters.
pub open spec fn plain_command(name: Seq<char>) -> bool {
    ||| name == "Ping"@
    ||| name == "GetState"@
    ||| name == "GetDefaults"@
    ||| name == "ListDevices"@
    ||| name == "Mute"@
    ||| name == "Unmute"@
    ||| name == "ListStreams"@
    ||| name == "ListProfiles"@
    ||| name == "GetMicrophone"@
    ||| name == "GetLevels"@
    ||| name == "Rescan"@
    ||| name == "SubscribeEvents"@
}

/// Why a request cannot be decoded, if it cannot: an unknown command, or
/// the first parameter (in the order listed) that is missing or mistyped.
pub open spec fn command_refusal(name: Seq<char>, params: JsonValue) -> Option<Seq<char>> {
    if name == "GetDevice"@ || name == "SetDefaultOutput"@ || name == "SetDefaultInput"@ {
        need_string(params, "id"@)
    } else if name == "GetVolume"@ {
        need_opt_string(params, "device"@)
    } else if name == "SetVolume"@ {
        first_refusal(need_opt_string(params, "device"@), need_u32(params, "volume"@))
    } else if name == "SetStreamVolume"@ {
        first_refusal(need_string(params, "stream_id"@), need_u32(params, "volume"@))
    } else if name == "SetStreamMute"@ {
        first_refusal(need_string(params, "stream_id"@), need_bool(params, "mute"@))
    } else if name == "MoveStream"@ {
        first_refusal(need_string(params, "stream_id"@), need_string(params, "device_id"@))
    } else if name == "SetProfile"@ {
        need_string(params, "profile"@)
    } else if name == "SetMicrophoneGain"@ {
        need_i32(params, "gain"@)
    } else if name == "MuteMicrophone"@ {
        need_bool(params, "mute"@)
    } else if plain_command(name) {
        None
    } else {
        Some("unknown command: "@ + name)
    }
}

/// `c` is what the command `name` with `params` denotes.
pub open spec fn decodes_to(name: Seq<char>, params: JsonValue, c: Command) -> bool {
    match c {
        Command::Ping => name == "Ping"@,
        Command::GetState => name == "GetState"@,
        Command::GetDefaults => name == "GetDefaults"@,
        Command::ListDevices => name == "ListDevices"@,
        Command::GetDevice { id } => name == "GetDevice"@ && json_str(param(params, "id"@)) == Some(id@),
        Command::SetDefaultOutput { id } => name == "SetDefaultOutput"@ && json_str(param(params, "id"@)) == Some(id@),
        Command::SetDefaultInput { id } => name == "SetDefaultInput"@ && json_str(param(params, "id"@)) == Some(id@),
        Command::GetVolume { device } => name == "GetVolume"@ && opt_string_param(params, "device"@) == Some(
            opt_view(device),
        ),
        Command::SetVolume { device, volume } => name == "SetVolume"@ && opt_string_param(params, "device"@)
            == Some(opt_view(device)) && u32_param(param(params, "volume"@)) == Some(volume),
        Command::Mute => name == "Mute"@,
        Command::Unmute => name == "Unmute"@,
        Command::ListStreams => name == "ListStreams"@,
        Command::SetStreamVolume { stream_id, volume } => name == "SetStreamVolume"@ && json_str(
            param(params, "stream_id"@),
        ) == Some(stream_id@) && u32_param(param(params, "volume"@)) == Some(volume),
        Command::SetStreamMute { stream_id, mute } => name == "SetStreamMute"@ && json_str(
            param(params, "stream_id"@),
        ) == Some(stream_id@) && json_bool(param(params, "mute"@)) == Some(mute),
        Command::MoveStream { stream_id, device_id } => name == "MoveStream"@ && json_str(
            param(params, "stream_id"@),
        ) == Some(stream_id@) && json_str(param(params, "device_id"@)) == Some(device_id@),
        Command::ListProfiles => name == "ListProfiles"@,
        Command::SetProfile { profile } => name == "SetProfile"@ && json_str(param(params, "profile"@)) == Some(
            profile@,
        ),
        Command::GetMicrophone => name == "GetMicrophone"@,
        Command::SetMicrophoneGain { gain } => name == "SetMicrophoneGain"@ && i32_param(param(params, "gain"@))
            == Some(gain),
        Command::MuteMicrophone { mute } => name == "MuteMicrophone"@ && json_bool(param(params, "mute"@)) == Some(
            mute,
        ),
        Command::GetLevels => name == "GetLevels"@,
        Command::Rescan => name == "Rescan"@,
        Command::SubscribeEvents => name == "SubscribeEvents"@,
    }
}

fn refusal(key: &str, reason: &str) -> (e: AudioError)
    ensures
        e matches AudioError::Ipc(m) && m@ == param_refusal(key@, reason@),
{
    let a = concat_str("invalid parameter '", key);
    let b = concat_str(a.as_str(), "': ");
    let m = concat_str(b.as_str(), reason);
    AudioError::Ipc(m)
}

fn type_refusal_text(v: &JsonValue, wanted: &str) -> (s: String)
    ensures
        s@ == type_refusal(*v, wanted@),
{
    let d = describe(v);
    let a = concat_str("invalid type: ", d.as_str());
    let b = concat_str(a.as_str(), ", expected ");
    concat_str(b.as_str(), wanted)
}

fn value_refusal_text(v: &JsonValue, wanted: &str) -> (s: String)
    ensures
        s@ == value_refusal(*v, wanted@),
{
    let d = describe(v);
    let a = concat_str("invalid value: ", d.as_str());
    let b = concat_str(a.as_str(), ", expected ");
    concat_str(b.as_str(), wanted)
}

fn req_string(params: &JsonValue, key: &str) -> (r: Result<String, AudioError>)
    ensures
        match json_str(param(*params, key@)) {
            Some(s) => r matches Ok(x) && x@ == s,
            None => r matches Err(AudioError::Ipc(m)) && Some(m@) == need_string(*params, key@),
        },
{
    let null = JsonValue::Null;
    let v: &JsonValue = match params.get(key) {
        Some(v) => v,
        None => &null,
    };
    match v.as_str() {
        Some(s) => Ok(String::from_str(s)),
        None => Err(refusal(key, type_refusal_text(v, "a string").as_str())),
    }
}

fn req_u32(params: &JsonValue, key: &str) -> (r: Result<u32, AudioError>)
    ensures
        match u32_param(param(*params, key@)) {
            Some(n) => r == Ok::<u32, AudioError>(n),
            None => r matches Err(AudioError::Ipc(m)) && Some(m@) == need_u32(*params, key@),
        },
{
    let null = JsonValue::Null;
    let v: &JsonValue = match params.get(key) {
        Some(v) => v,
        None => &null,
    };
    match v {
        JsonValue::Number(JsonNumber::PosInt(n)) => if *n <= 4294967295u64 {
            Ok(*n as u32)
        } else {
            Err(refusal(key, value_refusal_text(v, "u32").as_str()))
        },
        JsonValue::Number(JsonNumber::NegInt(n)) => if 0 <= *n && *n <= 4294967295i64 {
            Ok(*n as u32)
        } else {
            Err(refusal(key, value_refusal_text(v, "u32").as_str()))
        },
        _ => Err(refusal(key, type_refusal_text(v, "u32").as_str())),
    }
}

fn req_i32(params: &JsonValue, key: &str) -> (r: Result<i32, AudioError>)
    ensures
        match i32_param(param(*params, key@)) {
            Some(n) => r == Ok::<i32, AudioError>(n),
            None => r matches Err(AudioError::Ipc(m)) && Some(m@) == need_i32(*params, key@),
        },
{
    let null = JsonValue::Null;
    let v: &JsonValue = match params.get(key) {
        Some(v) => v,
        None => &null,
    };
    match v {
        JsonValue::Number(JsonNumber::PosInt(n)) => if *n <= 2147483647u64 {
            Ok(*n as i32)
        } else {
            Err(refusal(key, value_refusal_text(v, "i32").as_str()))
        },
        JsonValue::Number(JsonNumber::NegInt(n)) => if -2147483648i64 <= *n && *n <= 2147483647i64 {
            Ok(*n as i32)
        } else {
            Err(refusal(key, value_refusal_text(v, "i32").as_str()))
        },
        _ => Err(refusal(key, type_refusal_text(v, "i32").as_str())),
    }
}

fn req_bool(params: &JsonValue, key: &str) -> (r: Result<bool, AudioError>)
    ensures
        match json_bool(param(*params, key@)) {
            Some(b) => r == Ok::<bool, AudioError>(b),
            None => r matches Err(AudioError::Ipc(m)) && Some(m@) == need_bool(*params, key@),
        },
{
    let null = JsonValue::Null;
    let v: &JsonValue = match params.get(key) {
        Some(v) => v,
        None => &null,
    };
    match v.as_bool() {
        Some(b) => Ok(b),
        None => Err(refusal(key, type_refusal_text(v, "a boolean").as_str())),
    }
}

fn opt_string(params: &JsonValue, key: &str) -> (r: Result<Option<String>, AudioError>)
    ensures
        match opt_string_param(*params, key@) {
            Some(o) => r matches Ok(x) && opt_view(x) == o,
            None => r matches Err(AudioError::Ipc(m)) && Some(m@) == need_opt_string(*params, key@),
        },
{
    match params.get(key) {
        None => Ok(None),
        Some(v) => if v.is_null() {
            Ok(None)
        } else {
            match v.as_str() {
                Some(s) => Ok(Some(String::from_str(s))),
                None => Err(refusal(key, type_refusal_text(v, "a string").as_str())),
            }
        },
    }
}

impl Request {
    /// Decode `command` + `params` into a typed [`Command`].
    pub fn command(&self) -> (r: Result<Command, AudioError>)
        ensures
            command_refusal(self.command@, self.params) is None <==> r is Ok,
            r matches Ok(c) ==> decodes_to(self.command@, self.params, c),
            r matches Ok(c) ==> (c is SubscribeEvents <==> self.command@ == "SubscribeEvents"@),
            command_refusal(self.command@, self.params) matches Some(m) ==> (r matches Err(AudioError::Ipc(x))
                && x@ == m),
    {
        proof {
            reveal_strlit("Ping");
            reveal_strlit("GetState");
            reveal_strlit("GetDefaults");
            reveal_strlit("ListDevices");
            reveal_strlit("GetDevice");
            reveal_strlit("SetDefaultOutput");
            reveal_strlit("SetDefaultInput");
            reveal_strlit("GetVolume");
            reveal_strlit("SetVolume");
            reveal_strlit("Mute");
            reveal_strlit("Unmute");
            reveal_strlit("ListStreams");
            reveal_strlit("SetStreamVolume");
            reveal_strlit("SetStreamMute");
            reveal_strlit("MoveStream");
            reveal_strlit("ListProfiles");
            reveal_strlit("SetProfile");
            reveal_strlit("GetMicrophone");
            reveal_strlit("SetMicrophoneGain");
            reveal_strlit("MuteMicrophone");
            reveal_strlit("GetLevels");
            reveal_strlit("Rescan");
            reveal_strlit("SubscribeEvents");
            assert("SubscribeEvents"@.len() == 15);
            assert("Ping"@.len() == 4);
            assert("GetState"@.len() == 8);
            assert("GetDefaults"@.len() == 11);
            assert("ListDevices"@.len() == 11);
            assert("GetDevice"@.len() == 9);
            assert("SetDefaultOutput"@.len() == 16);
            assert("SetDefaultInput"@[1] != "SubscribeEvents"@[1]);
            assert("GetVolume"@.len() == 9);
            assert("SetVolume"@.len() == 9);
            assert("Mute"@.len() == 4);
            assert("Unmute"@.len() == 6);
            assert("ListStreams"@.len() == 11);
            assert("SetStreamVolume"@[1] != "SubscribeEvents"@[1]);
            assert("SetStreamMute"@.len() == 13);
            assert("MoveStream"@.len() == 10);
            assert("ListProfiles"@.len() == 12);
            assert("SetProfile"@.len() == 10);
            assert("GetMicrophone"@.len() == 13);
            assert("SetMicrophoneGain"@.len() == 17);
            assert("MuteMicrophone"@.len() == 14);
            assert("GetLevels"@.len() == 9);
            assert("Rescan"@.len() == 6);
        }
        let name = self.command.as_str();
        let p = &self.params;
        if str_eq(name, "GetDevice") {
            match req_string(p, "id") {
                Ok(id) => Ok(Command::GetDevice { id }),
                Err(e) => Err(e),
            }
        } else if str_eq(name, "SetDefaultOutput") {
            match req_string(p, "id") {
                Ok(id) => Ok(Command::SetDefaultOutput { id }),
                Err(e) => Err(e),
            }
        } else if str_eq(name, "SetDefaultInput") {
            match req_string(p, "id") {
                Ok(id) => Ok(Command::SetDefaultInput { id }),
                Err(e) => Err(e),
            }
        } else if str_eq(name, "GetVolume") {
            match opt_string(p, "device") {
                Ok(device) => Ok(Command::GetVolume { device }),
                Err(e) => Err(e),
            }
        } else if str_eq(name, "SetVolume") {
            let device = match opt_string(p, "device") {
                Ok(d) => d,
                Err(e) => return Err(e),
            };
            match req_u32(p, "volume") {
                Ok(volume) => Ok(Command::SetVolume { device, volume }),
                Err(e) => Err(e),
            }
        } else if str_eq(name, "SetStreamVolume") {
            let stream_id = match req_string(p, "stream_id") {
                Ok(s) => s,
                Err(e) => return Err(e),
            };
            match req_u32(p, "volume") {
                Ok(volume) => Ok(Command::SetStreamVolume { stream_id, volume }),
                Err(e) => Err(e),
            }
        } else if str_eq(name, "SetStreamMute") {
            let stream_id = match req_string(p, "stream_id") {
                Ok(s) => s,
                Err(e) => return Err(e),
            };
            match req_bool(p, "mute") {
                Ok(mute) => Ok(Command::SetStreamMute { stream_id, mute }),
                Err(e) => Err(e),
            }
        } else if str_eq(name, "MoveStream") {
            let stream_id = match req_string(p, "stream_id") {
                Ok(s) => s,
                Err(e) => return Err(e),
            };
            match req_string(p, "device_id") {
                Ok(device_id) => Ok(Command::MoveStream { stream_id, device_id }),
                Err(e) => Err(e),
            }
        } else if str_eq(name, "SetProfile") {
            match req_string(p, "profile") {
                Ok(profile) => Ok(Command::SetProfile { profile }),
                Err(e) => Err(e),
            }
        } else if str_eq(name, "SetMicrophoneGain") {
            match req_i32(p, "gain") {
                Ok(gain) => Ok(Command::SetMicrophoneGain { gain }),
                Err(e) => Err(e),
            }
        } else if str_eq(name, "MuteMicrophone") {
            match req_bool(p, "mute") {
                Ok(mute) => Ok(Command::MuteMicrophone { mute }),
                Err(e) => Err(e),
            }
        } else if str_eq(name, "Ping") {
            Ok(Command::Ping)
        } else if str_eq(name, "GetState") {
            Ok(Command::GetState)
        } else if str_eq(name, "GetDefaults") {
            Ok(Command::GetDefaults)
        } else if str_eq(name, "ListDevices") {
            Ok(Command::ListDevices)
        } else if str_eq(name, "Mute") {
            Ok(Command::Mute)
        } else if str_eq(name, "Unmute") {
            Ok(Command::Unmute)
        } else if str_eq(name, "ListStreams") {
            Ok(Command::ListStreams)
        } else if str_eq(name, "ListProfiles") {
            Ok(Command::ListProfiles)
        } else if str_eq(name, "GetMicrophone") {
            Ok(Command::GetMicrophone)
        } else if str_eq(name, "GetLevels") {
            Ok(Command::GetLevels)
        } else if str_eq(name, "Rescan") {
            Ok(Command::Rescan)
        } else if str_eq(name, "SubscribeEvents") {
            Ok(Command::SubscribeEvents)
        } else {
            Err(AudioError::Ipc(concat_str("unknown command: ", name)))
        }
    }
}

/// What the control connection does with one request line.
pub enum LineAction {
    /// Subscribe the connection to events, answering `{ subscribed: true }`.
    Subscribe { id: u64 },
    /// Run the command and answer with its outcome.
    Handle { id: u64, command: Command },
    /// Answer right away.
    Answer(Response),
}

/// Route one request line, given the request as read or the reader's
/// complaint about it: a malformed line is answered with id 0, an
/// undecodable command with its error, `SubscribeEvents` subscribes, and
/// any other command is handled.
pub fn route_request(parsed: Result<Request, String>) -> (a: LineAction)
    ensures
        match parsed {
            Err(detail) => a matches LineAction::Answer(r) && r.id == 0 && !r.ok && (r.error matches Some(b)
                && b.code@ == "ipc-error"@ && b.message@ == "ipc error: malformed request: "@ + detail@),
            Ok(req) => match command_refusal(req.command@, req.params) {
                Some(m) => a matches LineAction::Answer(r) && r.id == req.id && !r.ok && (r.error matches Some(b)
                    && b.code@ == "ipc-error"@ && b.message@ == "ipc error: "@ + m),
                None => if req.command@ == "SubscribeEvents"@ {
                    a == LineAction::Subscribe { id: req.id }
                } else {
                    a matches LineAction::Handle { id, command } && id == req.id && decodes_to(
                        req.command@,
                        req.params,
                        command,
                    )
                },
            },
        },
{
    proof {
        reveal_strlit("ipc-error");
        reveal_strlit("ipc error: ");
        reveal_strlit("malformed request: ");
        reveal_strlit("ipc error: malformed request: ");
        reveal_strlit("SubscribeEvents");
    }
    match parsed {
        Err(detail) => {
            let e = AudioError::Ipc(concat_str("malformed request: ", detail.as_str()));
            let r = Response::from_error(0, &e);
            proof {
                assert(error_message(e) =~= "ipc error: "@ + ("malformed request: "@ + detail@));
            }
            LineAction::Answer(r)
        },
        Ok(req) => match req.command() {
            Ok(Command::SubscribeEvents) => LineAction::Subscribe { id: req.id },
            Ok(command) => LineAction::Handle { id: req.id, command },
            Err(e) => {
                let r = Response::from_error(req.id, &e);
                LineAction::Answer(r)
            },
        },
    }
}

} // verus!
