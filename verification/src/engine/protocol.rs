//! Data-plane wire protocol: `[u32 payload_len][u8 type][payload]`,
//! little-endian, max payload 1 MiB.

use vstd::prelude::*;

use crate::text::{concat_str, strip_suffix, stripped_suffix};

verus! {

pub const MAX_PAYLOAD: usize = 1048576;

// client → daemon
pub const MSG_OPEN: u8 = 0x01;
pub const MSG_DATA: u8 = 0x02;
pub const MSG_CLOSE: u8 = 0x03;
// daemon → client
pub const MSG_OPEN_ACK: u8 = 0x81;
pub const MSG_ERROR: u8 = 0x82;
pub const MSG_CLOSED: u8 = 0x83;

/// The data-plane socket beside a control socket:
/// `…/audio.sock` → `…/audio-data.sock`, anything else gets `-data`.
pub open spec fn data_socket_for(control: Seq<char>) -> Seq<char> {
    match stripped_suffix(control, ".sock"@) {
        Some(stem) => stem + "-data.sock"@,
        None => control + "-data"@,
    }
}

/// Derive the data-plane socket from the control socket
/// (`…/audio.sock` → `…/audio-data.sock`).
pub fn derive_data_socket(control: &str) -> (r: String)
    ensures
        r@ == data_socket_for(control@),
{
    match strip_suffix(control, ".sock") {
        Some(stem) => concat_str(stem.as_str(), "-data.sock"),
        None => concat_str(control, "-data"),
    }
}

/// The low 32 bits of `n`, little-endian.
pub open spec fn le32(n: nat) -> Seq<u8> {
    seq![
        (n % 256) as u8,
        ((n / 256) % 256) as u8,
        ((n / 65536) % 256) as u8,
        ((n / 16777216) % 256) as u8,
    ]
}

/// The number that four little-endian bytes spell.
pub open spec fn le32_value(b: Seq<u8>) -> nat {
    (b[0] + 256 * b[1] + 65536 * b[2] + 16777216 * b[3]) as nat
}

/// A whole frame on the wire: length (truncated to 32 bits), type, payload.
pub open spec fn frame_bytes(kind: u8, payload: Seq<u8>) -> Seq<u8> {
    le32(payload.len()) + seq![kind] + payload
}

/// What a 5-byte header announces: the payload length and the frame type,
/// or nothing when the length is over the limit.
pub open spec fn header_reading(header: Seq<u8>) -> Option<(nat, u8)> {
    if le32_value(header) > MAX_PAYLOAD {
        None
    } else {
        Some((le32_value(header), header[4]))
    }
}

pub struct Frame {
    pub kind: u8,
    pub payload: Vec<u8>,
}

impl Frame {
    pub fn encode(kind: u8, payload: &[u8]) -> (buf: Vec<u8>)
        ensures
            buf@ == frame_bytes(kind, payload@),
    {
        let n = payload.len();
        let mut buf: Vec<u8> = Vec::new();
        buf.push((n % 256) as u8);
        buf.push(((n / 256) % 256) as u8);
        buf.push(((n / 65536) % 256) as u8);
        buf.push(((n / 16777216) % 256) as u8);
        buf.push(kind);
        let ghost head = le32(n as nat) + seq![kind];
        assert(buf@ =~= head);
        let mut i: usize = 0;
        while i < n
            invariant
                n == payload@.len(),
                i <= n,
                buf@ == head + payload@.take(i as int),
            decreases n - i,
        {
            buf.push(payload[i]);
            i += 1;
            assert(buf@ =~= head + payload@.take(i as int));
        }
        assert(payload@.take(n as int) =~= payload@);
        buf
    }
}

/// Read a frame header: `Some((payload length, type))`, or `None` when the
/// announced payload is over `MAX_PAYLOAD` (the frame is refused).
pub fn parse_header(header: &[u8; 5]) -> (r: Option<(usize, u8)>)
    ensures
        r matches Some((n, k)) ==> header_reading(header@) == Some((n as nat, k)),
        r is None ==> header_reading(header@) is None,
{
    let len: u64 = header[0] as u64 + (header[1] as u64) * 256 + (header[2] as u64) * 65536
        + (header[3] as u64) * 16777216;
    if len > MAX_PAYLOAD as u64 {
        None
    } else {
        Some((len as usize, header[4]))
    }
}

/// The four length bytes spell back any 32-bit length.
proof fn lemma_le32_round_trip(n: u32)
    ensures
        le32_value(le32(n as nat)) == n,
{
    let b0 = n % 256;
    let b1 = (n / 256) % 256;
    let b2 = (n / 65536) % 256;
    let b3 = (n / 16777216) % 256;
    assert(b0 + 256 * b1 + 65536 * b2 + 16777216 * b3 == n) by (bit_vector)
        requires
            b0 == n % 256,
            b1 == (n / 256) % 256,
            b2 == (n / 65536) % 256,
            b3 == (n / 16777216) % 256,
    ;
}

/// Reading back what `encode` wrote: for any payload within the limit, the
/// header announces exactly the payload's length and the frame's type, and
/// the payload follows it unchanged.
pub proof fn law_frame_round_trip(kind: u8, payload: Seq<u8>)
    requires
        payload.len() <= MAX_PAYLOAD,
    ensures
        header_reading(frame_bytes(kind, payload).take(5)) == Some((payload.len(), kind)),
        frame_bytes(kind, payload).skip(5) == payload,
{
    let f = frame_bytes(kind, payload);
    lemma_le32_round_trip(payload.len() as u32);
    assert(f.take(5) =~= le32(payload.len()) + seq![kind]);
    assert(f.skip(5) =~= payload);
}

/// The OPEN request of a data-plane client.
pub struct OpenRequest {
    pub application: String,
    pub sample_rate: u32,
    pub channels: u16,
    pub format: String,
    pub device: Option<String>,
}

} // verus!
