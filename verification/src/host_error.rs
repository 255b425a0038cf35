use vstd::prelude::*;

verus! {

/// The kind of an input/output failure, as far as this program tells kinds
/// apart.
#[derive(Debug, Clone, Copy, PartialEq, Eq)]
pub enum IoErrorKind {
    NotFound,
    ConnectionRefused,
    UnexpectedEof,
    TimedOut,
    InvalidData,
    InvalidInput,
    Other,
}

/// Errors of the native messaging host.
#[derive(Debug, Clone, PartialEq, Eq)]
pub enum NativeHostError {
    Io(IoErrorKind),
    Json(String),
    MessageTooLarge { length: usize, limit: usize },
    ResponseTooLarge,
    DaemonResponseTooLarge { limit: usize },
    EmptyDaemonResponse { socket: String },
    InvalidDaemonResponse(String),
}

} // verus!
