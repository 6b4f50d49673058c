//! Decisions of a data-plane connection: ONE stream per connection, opened
//! by OPEN, fed by DATA, ended by CLOSE or by a protocol violation. The
//! socket work itself is done by the caller, which reports each frame and
//! performs the action it gets back.

use vstd::prelude::*;

use crate::errors::AudioError;

use super::convert::{format_named, format_refusal, SampleFormat, StreamFormat, validate};
use super::protocol::{OpenRequest, MSG_CLOSE, MSG_DATA, MSG_OPEN};

verus! {

/// Why a frame is refused (always answered with code `ipc-error`).
#[derive(Debug, Clone, Copy, PartialEq, Eq, Structural)]
pub enum Refusal {
    AlreadyOpen,
    DataBeforeOpen,
    UnknownType,
}

pub open spec fn refusal_text(r: Refusal) -> Seq<char> {
    match r {
        Refusal::AlreadyOpen => "a stream is already open on this connection"@,
        Refusal::DataBeforeOpen => "DATA before OPEN"@,
        Refusal::UnknownType => "unknown frame type"@,
    }
}

impl Refusal {
    pub fn message(&self) -> (m: &'static str)
        ensures
            m@ == refusal_text(*self),
    {
        match self {
            Refusal::AlreadyOpen => "a stream is already open on this connection",
            Refusal::DataBeforeOpen => "DATA before OPEN",
            Refusal::UnknownType => "unknown frame type",
        }
    }

    pub fn code(&self) -> (c: &'static str)
        ensures
            c@ == "ipc-error"@,
    {
        "ipc-error"
    }
}

/// What the connection does with a frame.
#[derive(Debug, Clone, Copy, PartialEq, Eq, Structural)]
pub enum FrameAction {
    /// Open the stream the payload describes, answer OPEN_ACK or ERROR.
    Open,
    /// Feed the payload to the open stream.
    Ingest,
    /// Nothing to do (an empty DATA frame).
    Skip,
    /// Answer ERROR and keep the connection.
    Refuse(Refusal),
    /// Answer ERROR and end the connection.
    RefuseAndEnd(Refusal),
    /// Answer CLOSED and end the connection.
    Close,
}

/// The protocol's rule for a frame of type `kind`, given whether the
/// connection already has its stream and whether the payload is empty.
pub open spec fn frame_action(kind: u8, stream_open: bool, payload_empty: bool) -> FrameAction {
    if kind == MSG_OPEN {
        if stream_open {
            FrameAction::Refuse(Refusal::AlreadyOpen)
        } else {
            FrameAction::Open
        }
    } else if kind == MSG_DATA {
        if !stream_open {
            FrameAction::RefuseAndEnd(Refusal::DataBeforeOpen)
        } else if payload_empty {
            FrameAction::Skip
        } else {
            FrameAction::Ingest
        }
    } else if kind == MSG_CLOSE {
        FrameAction::Close
    } else {
        FrameAction::RefuseAndEnd(Refusal::UnknownType)
    }
}

pub fn on_frame(kind: u8, stream_open: bool, payload_empty: bool) -> (a: FrameAction)
    ensures
        a == frame_action(kind, stream_open, payload_empty),
{
    if kind == MSG_OPEN {
        if stream_open {
            FrameAction::Refuse(Refusal::AlreadyOpen)
        } else {
            FrameAction::Open
        }
    } else if kind == MSG_DATA {
        if !stream_open {
            FrameAction::RefuseAndEnd(Refusal::DataBeforeOpen)
        } else if payload_empty {
            FrameAction::Skip
        } else {
            FrameAction::Ingest
        }
    } else if kind == MSG_CLOSE {
        FrameAction::Close
    } else {
        FrameAction::RefuseAndEnd(Refusal::UnknownType)
    }
}

/// The stream format an OPEN asks for: the format name is checked first,
/// then the rate and channel count.
pub fn open_format(request: &OpenRequest) -> (r: Result<StreamFormat, AudioError>)
    ensures
        format_named(request.format@) is None ==> (r matches Err(AudioError::UnsupportedFormat(m))
            && m@ == request.format@),
        format_named(request.format@) is Some ==> match format_refusal(request.sample_rate, request.channels) {
            Some(m) => r matches Err(AudioError::UnsupportedFormat(x)) && x@ == m,
            None => r matches Ok(f) && f.sample_rate == request.sample_rate && f.channels == request.channels
                && Some(f.format) == format_named(request.format@),
        },
{
    let format = match SampleFormat::parse(request.format.as_str()) {
        Ok(f) => f,
        Err(e) => return Err(e),
    };
    match validate(request.sample_rate, request.channels) {
        Ok(()) => Ok(StreamFormat { sample_rate: request.sample_rate, channels: request.channels, format }),
        Err(e) => Err(e),
    }
}

/// One stream per connection: once a stream is open, no frame opens
/// another; before one is open, no frame feeds audio and DATA ends the
/// connection; CLOSE ends it in either state.
pub proof fn law_one_stream_per_connection(kind: u8, stream_open: bool, payload_empty: bool)
    ensures
        stream_open ==> frame_action(kind, stream_open, payload_empty) != FrameAction::Open,
        !stream_open ==> frame_action(kind, stream_open, payload_empty) != FrameAction::Ingest,
        !stream_open && kind == MSG_DATA ==> frame_action(kind, stream_open, payload_empty)
            == FrameAction::RefuseAndEnd(Refusal::DataBeforeOpen),
        kind == MSG_CLOSE ==> frame_action(kind, stream_open, payload_empty) == FrameAction::Close,
{
}

} // verus!
