//! Error conditions of the syntropctl operations.
use vstd::prelude::*;

use crate::json::Json;

verus! {

/// The kind of an operating-system I/O failure.
#[derive(Debug, Clone, Copy, PartialEq, Eq, Structural)]
pub enum IoKind {
    NotFound,
    PermissionDenied,
    ConnectionRefused,
    ConnectionReset,
    BrokenPipe,
    TimedOut,
    UnexpectedEof,
    Other,
}

/// An I/O failure reported by the socket layer: its kind and its message.
#[derive(Debug)]
pub struct IoFailure {
    pub kind: IoKind,
    pub message: String,
}

/// Error conditions encountered during syntropctl operations.
#[derive(Debug)]
pub enum SyntropctlError {
    /// I/O error while talking to a socket.
    Io(IoFailure),
    /// A reply that is not well-formed JSON, with the decoder's message.
    Json(String),
    /// The daemon's socket could not be connected to.
    DaemonUnavailable { daemon: String, socket: String, source: IoFailure },
    /// Error reply of a remote Varlink daemon.
    ProtocolError { error: String, parameters: Option<Json> },
    /// A reply that is missing a field the operation needs.
    MalformedReply(String),
    /// General operational failure.
    OperationFailed(String),
    /// A daemon or resource that is not known.
    NotFound(String),
}

/// The error for a daemon whose socket file does not exist.
pub open spec fn is_missing_socket_error(e: SyntropctlError, daemon: Seq<char>, socket: Seq<char>) -> bool {
    e matches SyntropctlError::DaemonUnavailable { daemon: d, socket: s, source } && d@ == daemon
        && s@ == socket && source.kind == IoKind::NotFound && source.message@
        == "Socket file does not exist"@
}

/// The error for a daemon whose socket file does not exist.
pub fn missing_socket_error(daemon: &str, socket: &str) -> (e: SyntropctlError)
    ensures
        is_missing_socket_error(e, daemon@, socket@),
{
    SyntropctlError::DaemonUnavailable {
        daemon: String::from_str(daemon),
        socket: String::from_str(socket),
        source: IoFailure {
            kind: IoKind::NotFound,
            message: String::from_str("Socket file does not exist"),
        },
    }
}
} // verus!
