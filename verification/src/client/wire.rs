//! Response handling, reconnect pacing and playback framing.

use vstd::prelude::*;

use crate::client::error::ClientError;
use crate::client::events::event_name;
use crate::engine::protocol::{MSG_ERROR, MSG_OPEN_ACK};
use crate::ipc::json::{json_get, json_str, JsonValue};
use crate::text::{char_from_ascii, concat_str, str_eq, string_from_chars};

verus! {

/// The next reconnect delay: doubled, up to the ceiling.
pub open spec fn backoff_after(current: u64, ceiling: u64) -> int {
    if 2 * current <= ceiling {
        2 * current
    } else {
        ceiling as int
    }
}

pub fn next_backoff(current_ms: u64, max_ms: u64) -> (r: u64)
    ensures
        r == backoff_after(current_ms, max_ms),
{
    if current_ms <= max_ms / 2 {
        current_ms * 2
    } else {
        max_ms
    }
}

/// The error part of a response line.
pub struct WireError {
    pub code: String,
    pub message: String,
}

/// A response line as the client reads it.
pub struct WireResponse {
    pub id: u64,
    pub ok: bool,
    pub result: Option<JsonValue>,
    pub error: Option<WireError>,
}

impl WireResponse {
    /// The result of a successful response (`null` when it has none), or
    /// the daemon's error.
    pub fn outcome(self) -> (r: Result<JsonValue, ClientError>)
        ensures
            self.ok ==> (r matches Ok(v) && match self.result {
                Some(x) => v == x,
                None => v is Null,
            }),
            !self.ok ==> match self.error {
                Some(e) => r matches Err(ClientError::Daemon { code, message }) && code == e.code && message
                    == e.message,
                None => r matches Err(ClientError::Protocol(m)) && m@ == "error response without body"@,
            },
    {
        if self.ok {
            match self.result {
                Some(v) => Ok(v),
                None => Ok(JsonValue::Null),
            }
        } else {
            match self.error {
                Some(e) => Err(ClientError::Daemon { code: e.code, message: e.message }),
                None => Err(ClientError::Protocol(String::from_str("error response without body"))),
            }
        }
    }
}

/// A lowercase hexadecimal digit.
pub open spec fn hex_digit(d: int) -> char {
    if d < 10 {
        (('0' as u32) + d) as char
    } else {
        (('a' as u32) + d - 10) as char
    }
}

/// Two lowercase hexadecimal digits (`{:02x}`).
pub open spec fn hex2(b: u8) -> Seq<char> {
    seq![hex_digit((b / 16) as int), hex_digit((b % 16) as int)]
}

fn hex_char(d: u8) -> (c: char)
    requires
        d < 16,
    ensures
        c == hex_digit(d as int),
{
    if d < 10 {
        char_from_ascii((48 + d) as u32)
    } else {
        char_from_ascii((87 + d) as u32)
    }
}

/// The `{s}` member of a JSON object as text, or `"unknown"`.
pub open spec fn text_or_unknown(v: JsonValue, key: Seq<char>) -> Seq<char> {
    match json_get(v, key) {
        Some(x) => match json_str(x) {
            Some(s) => s,
            None => "unknown"@,
        },
        None => "unknown"@,
    }
}

fn member_text(body: &JsonValue, key: &str) -> (r: String)
    ensures
        r@ == text_or_unknown(*body, key@),
{
    proof {
        reveal_strlit("unknown");
    }
    match body.get(key) {
        Some(x) => match x.as_str() {
            Some(s) => String::from_str(s),
            None => String::from_str("unknown"),
        },
        None => String::from_str("unknown"),
    }
}

/// The daemon's answer to a playback OPEN: the new stream's id from
/// OPEN_ACK, the daemon's error from ERROR, a protocol error otherwise.
/// `body` is the frame's JSON payload (not read for other frame types).
pub fn open_reply(kind: u8, body: &JsonValue) -> (r: Result<String, ClientError>)
    ensures
        kind == MSG_OPEN_ACK ==> match json_get(*body, "stream_id"@) {
            Some(x) => match json_str(x) {
                Some(id) => r matches Ok(s) && s@ == id,
                None => r matches Err(ClientError::Protocol(m)) && m@ == "OPEN_ACK without stream_id"@,
            },
            None => r matches Err(ClientError::Protocol(m)) && m@ == "OPEN_ACK without stream_id"@,
        },
        kind == MSG_ERROR ==> (r matches Err(ClientError::Daemon { code, message }) && code@ == text_or_unknown(
            *body,
            "code"@,
        ) && message@ == text_or_unknown(*body, "message"@)),
        kind != MSG_OPEN_ACK && kind != MSG_ERROR ==> (r matches Err(ClientError::Protocol(m)) && m@
            == "unexpected frame 0x"@ + hex2(kind)),
{
    if kind == MSG_OPEN_ACK {
        let id = match body.get("stream_id") {
            Some(x) => x.as_str(),
            None => None,
        };
        match id {
            Some(s) => Ok(String::from_str(s)),
            None => Err(ClientError::Protocol(String::from_str("OPEN_ACK without stream_id"))),
        }
    } else if kind == MSG_ERROR {
        let code = member_text(body, "code");
        let message = member_text(body, "message");
        Err(ClientError::Daemon { code, message })
    } else {
        let mut digits: Vec<char> = Vec::new();
        digits.push(hex_char(kind / 16));
        digits.push(hex_char(kind % 16));
        let d = string_from_chars(&digits);
        assert(d@ =~= hex2(kind));
        Err(ClientError::Protocol(concat_str("unexpected frame 0x", d.as_str())))
    }
}

/// A sample as two little-endian bytes.
pub open spec fn i16_le(s: i16) -> Seq<u8> {
    seq![((s as u16) % 256) as u8, ((s as u16) / 256) as u8]
}

/// Interleaved samples as the bytes of an s16le payload.
pub open spec fn pcm_of(samples: Seq<i16>) -> Seq<u8> {
    Seq::new(2 * samples.len(), |k: int| i16_le(samples[k / 2])[k % 2])
}

/// Interleaved i16 samples as s16le bytes (the payload of `write_i16`).
pub fn pcm_from_i16(samples: &[i16]) -> (bytes: Vec<u8>)
    requires
        2 * samples@.len() <= usize::MAX,
    ensures
        bytes@ == pcm_of(samples@),
{
    let mut bytes: Vec<u8> = Vec::new();
    let mut i: usize = 0;
    while i < samples.len()
        invariant
            i <= samples@.len(),
            bytes@.len() == 2 * i,
            forall|k: int| 0 <= k < 2 * i ==> #[trigger] bytes@[k] == i16_le(samples@[k / 2])[k % 2],
        decreases samples@.len() - i,
    {
        let u = samples[i] as u16;
        bytes.push((u % 256) as u8);
        bytes.push((u / 256) as u8);
        i += 1;
    }
    assert(bytes@ =~= pcm_of(samples@));
    bytes
}

/// A line of the level subscription carries a level frame.
pub fn is_level_event(value: &JsonValue) -> (r: bool)
    ensures
        r == (event_name(*value) == Some("LevelChanged"@)),
{
    match value.get("event") {
        Some(e) => match e.as_str() {
            Some(n) => str_eq(n, "LevelChanged"),
            None => false,
        },
        None => false,
    }
}

} // verus!
