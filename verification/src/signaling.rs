//! Error taxonomy of the WebSocket signaling channel.
//!
//! The channel itself is connection plumbing and lives outside; the
//! library owns the classification of its failures, which discards the
//! failure details and keeps the kind.

use vstd::prelude::*;

verus! {

/// Errors that the WebSocket signaler can emit.
#[derive(Debug, Clone, Copy, PartialEq, Eq, Structural)]
pub enum WebSocketSignalerError {
    /// The underlying WebSocket failed.
    Tungstenite,
    /// A signaling message could not be deserialized.
    Serde,
    /// The TCP socket could not be initialized.
    StdIo,
    /// The connection has been closed.
    Eof,
}

/// The description of each failure kind.
pub open spec fn signaler_error_text(e: WebSocketSignalerError) -> Seq<char> {
    match e {
        WebSocketSignalerError::Tungstenite => "Encountered an error in the underlying WebSocket"@,
        WebSocketSignalerError::Serde => "Failed to deserialize the message"@,
        WebSocketSignalerError::StdIo => "Failed to initialize TCP socket"@,
        WebSocketSignalerError::Eof => "WebSocket connection has been closed"@,
    }
}

impl WebSocketSignalerError {
    /// A human-readable description, for diagnostics.
    pub fn err_str(self) -> (r: &'static str)
        ensures
            r@ == signaler_error_text(self),
    {
        match self {
            WebSocketSignalerError::Tungstenite => "Encountered an error in the underlying WebSocket",
            WebSocketSignalerError::Serde => "Failed to deserialize the message",
            WebSocketSignalerError::StdIo => "Failed to initialize TCP socket",
            WebSocketSignalerError::Eof => "WebSocket connection has been closed",
        }
    }
}

} // verus!
