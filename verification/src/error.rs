//! The error taxonomy of the library.
use vstd::prelude::*;
use crate::http::HttpResponse;

verus! {

/// Cause of a subprotocol negotiation failure.
#[derive(Debug, PartialEq, Eq, Clone, Copy, Structural)]
pub enum SubProtocolError {
    /// The server sent a subprotocol although none was requested.
    ServerSentSubProtocolNoneRequested,
    /// The server sent a subprotocol outside the requested set.
    InvalidSubProtocol,
    /// The server sent no subprotocol although one was requested.
    NoSubProtocol,
}

/// Kind of data fragment.
#[derive(Debug, PartialEq, Eq, Clone, Copy, Structural)]
pub enum FragmentType {
    /// Text fragment.
    Text,
    /// Binary fragment.
    Binary,
}

/// Cause of a capacity failure.
#[derive(Debug, PartialEq, Eq, Clone, Copy, Structural)]
pub enum CapacityError {
    /// Too many header lines in a handshake message.
    TooManyHeaders,
    /// A message or frame is bigger than the configured maximum.
    MessageTooLarge {
        /// The size of the offending message or frame.
        size: usize,
        /// The maximum allowed size.
        max: usize,
    },
}

/// Cause of a URL failure.
#[derive(Debug, PartialEq, Eq, Clone, Copy, Structural)]
pub enum UrlError {
    /// The URL lacks a host name.
    MissingHost,
    /// The URL host name is empty.
    EmptyHost,
    /// The URL scheme is neither `ws` nor `wss`.
    UnsupportedScheme,
    /// A TLS URL was used without TLS support.
    TlsFeatureNotEnabled,
    /// The URL lacks a path or query segment.
    NoPathOrQuery,
    /// Connecting to the host failed.
    UnableToConnect,
}

/// Cause of a protocol violation.
#[derive(Debug, PartialEq, Eq, Clone, Copy, Structural)]
pub enum ProtocolError {
    /// The HTTP method is not GET.
    InvalidHttpMethod,
    /// The HTTP version is below 1.1.
    InvalidHttpVersion,
    /// A required handshake header is missing, duplicated or malformed.
    InvalidHeader,
    /// The Connection header does not contain the Upgrade token.
    MissingConnectionUpgradeHeader,
    /// The Upgrade header is not `websocket`.
    MissingUpgradeHeader,
    /// The Sec-WebSocket-Version header is not 13.
    MissingVersionHeader,
    /// The Sec-WebSocket-Key header is missing.
    MissingKeyHeader,
    /// The Sec-WebSocket-Accept header does not match the derived key.
    AcceptKeyMismatch,
    /// Subprotocol negotiation failed.
    SecWebSocketSubProtocolError(SubProtocolError),
    /// The stream ended while the handshake was still in progress.
    IncompleteHandshake,
    /// A handshake message is not valid HTTP.
    MalformedHttpMessage,
    /// A frame header carries non-zero reserved bits.
    NonZeroReservedBits,
    /// A control frame is fragmented.
    FragmentedControlFrame,
    /// A control frame carries more than 125 payload bytes.
    ControlFrameTooBig,
    /// A server received an unmasked frame.
    UnmaskedFrameFromClient,
    /// A client received a masked frame.
    MaskedFrameFromServer,
    /// A frame uses a reserved control opcode.
    UnknownControlOpCode(u8),
    /// A frame uses a reserved data opcode.
    UnknownDataOpCode(u8),
    /// A continuation frame arrived with no message to continue.
    UnexpectedContinue,
    /// A new data frame arrived while a fragmented message was incomplete.
    ExpectedFragment(FragmentType),
    /// A message was written after the close handshake started.
    SendAfterClose,
    /// Data arrived after the close handshake completed.
    ReceiveAfterClose,
    /// A close frame payload is one byte long.
    InvalidCloseFrame,
    /// The stream ended without a close handshake.
    ResetWithoutClosing,
    /// Bytes followed the end of a client handshake request.
    JunkAfterRequest,
    /// A custom handshake rejection carries a success status.
    CustomResponseSuccessful,
}

/// The kind of a transport failure, as the driver of the session reports it.
#[derive(Debug, PartialEq, Eq, Clone, Copy, Structural)]
pub enum IoErrorKind {
    /// The operation would have to block to make progress.
    WouldBlock,
    /// The peer reset the connection.
    ConnectionReset,
    /// The stream ended unexpectedly.
    UnexpectedEof,
    /// Any other transport failure.
    Other,
}

/// A WebSocket failure.
#[derive(Debug, Clone)]
pub enum Error {
    /// The close handshake finished; the session is spent but nothing went wrong.
    ConnectionClosed,
    /// An operation was attempted on a terminated session.
    AlreadyClosed,
    /// The underlying transport failed.
    Io(IoErrorKind),
    /// The peer violated the protocol.
    Protocol(ProtocolError),
    /// A text payload is not valid UTF-8.
    Utf8,
    /// The write buffer reached its hard cap; the frame was not enqueued.
    WriteBufferFull,
    /// A capacity limit was exceeded.
    Capacity(CapacityError),
    /// The handshake completed with a status other than 101.
    Http(HttpResponse),
    /// A handshake message could not be formatted.
    HttpFormat,
    /// The URL is unusable.
    Url(UrlError),
    /// The TLS layer failed.
    Tls,
    /// The handshake abuse detector fired.
    AttackAttempt,
}

impl Error {
    /// Convert `WouldBlock` to `None` and keep every other error.
    pub fn into_non_blocking(self) -> (r: Option<Error>)
        ensures
            match self {
                Error::Io(IoErrorKind::WouldBlock) => r is None,
                _ => r == Some(self),
            },
    {
        match self {
            Error::Io(IoErrorKind::WouldBlock) => None,
            other => Some(other),
        }
    }
}

} // verus!
