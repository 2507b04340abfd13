//! What can go wrong.

use crate::tor::TCErrorKind;
use vstd::prelude::*;
use vstd::std_specs::convert::FromSpecImpl;

verus! {

#[derive(Clone, Copy, Debug, PartialEq, Eq, Structural)]
pub enum Error {
    /// A connection could not be opened.
    ConnectFailed,
    /// The bytes that came in are no message.
    DecodeError,
    /// The stream ended in the middle of a message.
    UnexpectedEof,
    /// The queue of messages to send is gone.
    ReceiveChannelError,
    /// The one that a message was meant for is gone.
    MailboxClosed,
    /// There is no seed node to start from.
    NoSeedsAvailable,
    /// The connection was closed before the response came.
    ConnectionClosed,
    /// A request carries nothing to match its response by.
    MissingCorrelationId,
    /// The control port of the anonymizing network has refused a command.
    ControlPortError(TCErrorKind),
}

impl From<TCErrorKind> for Error {
    fn from(kind: TCErrorKind) -> (error: Error) {
        Error::ControlPortError(kind)
    }
}

impl FromSpecImpl<TCErrorKind> for Error {
    open spec fn obeys_from_spec() -> bool {
        true
    }

    open spec fn from_spec(kind: TCErrorKind) -> Error {
        Error::ControlPortError(kind)
    }
}

} // verus!
