//! What can go wrong on a connection.

use vstd::prelude::*;

verus! {

/// The ways an operation of this library, or of the connection around it,
/// can fail. Violations of the framing rules are not among them: the decoder
/// answers those in band, with a close frame.
#[derive(Debug, Clone, Copy, PartialEq, Eq, Structural)]
pub enum WebsocketError {
    /// The transport failed.
    IoError,
    /// A message was handed to a send path that has ended.
    SendError,
    /// The payload of a text message is not UTF-8.
    FromUtf8Error,
}

pub type WebsocketResult<T> = Result<T, WebsocketError>;

impl WebsocketError {
    /// The text that describes each error.
    pub open spec fn spec_message(self) -> Seq<char> {
        match self {
            WebsocketError::IoError => "transport error"@,
            WebsocketError::SendError => "channel closed"@,
            WebsocketError::FromUtf8Error => "invalid utf-8 sequence in text message"@,
        }
    }

    /// A description of the error for people to read.
    pub fn message(&self) -> (text: String)
        ensures
            text@ == self.spec_message(),
    {
        match self {
            WebsocketError::IoError => "transport error".to_string(),
            WebsocketError::SendError => "channel closed".to_string(),
            WebsocketError::FromUtf8Error => "invalid utf-8 sequence in text message".to_string(),
        }
    }
}

} // verus!
