pub mod channel;
pub mod connection;
pub mod dataframe;
pub mod handshake;
pub mod message;

pub use crate::channel::{ChannelQueue, RecvDecision};
pub use crate::connection::{classify_peek, message_from_frame, PeekDecision};
pub use crate::dataframe::{get_buffer, Dataframe, DataframeBuilder, Opcode};
pub use crate::handshake::{
    get_accept_from_key, handshake_response, Body, Endpoint, HTTPMethod, Headers, Request, Uri,
};
pub use crate::message::Message;

use vstd::prelude::*;

verus! {

/// The result type shared by the frame codec, the handshake and the
/// connection logic.
pub type WsGonzaleResult<T> = Result<T, WsGonzaleError>;

/// The unified error taxonomy: a malformed frame or request, an orderly or
/// abrupt end of the transport (a close frame included), and a catch-all for
/// everything the transport may report besides.
#[derive(Clone, Copy, Debug, PartialEq, Eq, Structural)]
pub enum WsGonzaleError {
    InvalidPayload,
    ConnectionClosed,
    Unknown,
}

/// The transport error categories the connection logic distinguishes. A
/// caller that reads errors from a socket translates each into this enum and
/// hands it to [`error_from_io_kind`].
#[derive(Clone, Copy, Debug, PartialEq, Eq, Structural)]
pub enum IoErrorKind {
    ConnectionAborted,
    Interrupted,
    AddrInUse,
    AddrNotAvailable,
    ConnectionRefused,
    ConnectionReset,
    NotConnected,
    InvalidData,
    Other,
}

/// Maps a transport error category onto the library's error: the categories
/// that mean the peer is gone become `ConnectionClosed`, everything else is
/// `Unknown`.
pub fn error_from_io_kind(kind: IoErrorKind) -> (r: WsGonzaleError)
    ensures
        r == WsGonzaleError::ConnectionClosed <==> (kind == IoErrorKind::ConnectionAborted
            || kind == IoErrorKind::Interrupted || kind == IoErrorKind::AddrInUse
            || kind == IoErrorKind::AddrNotAvailable || kind == IoErrorKind::ConnectionRefused
            || kind == IoErrorKind::ConnectionReset || kind == IoErrorKind::NotConnected),
        r != WsGonzaleError::ConnectionClosed ==> r == WsGonzaleError::Unknown,
{
    match kind {
        IoErrorKind::ConnectionAborted => WsGonzaleError::ConnectionClosed,
        IoErrorKind::Interrupted => WsGonzaleError::ConnectionClosed,
        IoErrorKind::AddrInUse => WsGonzaleError::ConnectionClosed,
        IoErrorKind::AddrNotAvailable => WsGonzaleError::ConnectionClosed,
        IoErrorKind::ConnectionRefused => WsGonzaleError::ConnectionClosed,
        IoErrorKind::ConnectionReset => WsGonzaleError::ConnectionClosed,
        IoErrorKind::NotConnected => WsGonzaleError::ConnectionClosed,
        _ => WsGonzaleError::Unknown,
    }
}

/// Maps a library error back onto a transport error category, for callers
/// that must surface the error through a socket interface.
pub fn io_kind_from_error(error: WsGonzaleError) -> (r: IoErrorKind)
    ensures
        error == WsGonzaleError::ConnectionClosed ==> r == IoErrorKind::ConnectionAborted,
        error == WsGonzaleError::InvalidPayload ==> r == IoErrorKind::InvalidData,
        error == WsGonzaleError::Unknown ==> r == IoErrorKind::Other,
{
    match error {
        WsGonzaleError::ConnectionClosed => IoErrorKind::ConnectionAborted,
        WsGonzaleError::InvalidPayload => IoErrorKind::InvalidData,
        WsGonzaleError::Unknown => IoErrorKind::Other,
    }
}

} // verus!
