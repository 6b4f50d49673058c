//! Errors of the client. Errors that come from I/O or the JSON reader
//! carry their message text.

use vstd::prelude::*;

use crate::text::concat_str;

verus! {

pub enum ClientError {
    Io(String),
    Protocol(String),
    Serialization(String),
    /// The daemon answered with an error response.
    Daemon { code: String, message: String },
    Disconnected,
}

pub open spec fn client_error_message(e: ClientError) -> Seq<char> {
    match e {
        ClientError::Io(s) => "io error: "@ + s@,
        ClientError::Protocol(s) => "malformed response: "@ + s@,
        ClientError::Serialization(s) => "serialization error: "@ + s@,
        ClientError::Daemon { code, message } => "mitos-audio error ["@ + code@ + "]: "@ + message@,
        ClientError::Disconnected => "connection closed by daemon"@,
    }
}

impl ClientError {
    pub fn message(&self) -> (r: String)
        ensures
            r@ == client_error_message(*self),
    {
        match self {
            ClientError::Io(s) => concat_str("io error: ", s.as_str()),
            ClientError::Protocol(s) => concat_str("malformed response: ", s.as_str()),
            ClientError::Serialization(s) => concat_str("serialization error: ", s.as_str()),
            ClientError::Daemon { code, message } => {
                let a = concat_str("mitos-audio error [", code.as_str());
                let b = concat_str(a.as_str(), "]: ");
                concat_str(b.as_str(), message.as_str())
            },
            ClientError::Disconnected => String::from_str("connection closed by daemon"),
        }
    }
}

} // verus!
