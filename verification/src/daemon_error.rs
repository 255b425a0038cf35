use vstd::prelude::*;

use crate::host_error::IoErrorKind;

verus! {

/// Errors of the privileged daemon.
#[derive(Debug, Clone, PartialEq, Eq)]
pub enum DaemonError {
    Io { kind: IoErrorKind, message: String },
    Json(String),
    Core(String),
    Config(String),
    LockPoisoned,
    InvalidRequest(String),
    UnsupportedMethod(String),
    InvalidSocketActivation { fds: usize },
    SocketActivationUnavailable(String),
    KillFailed { pid: u32, errno: i32 },
    MissingPolicyRecovery { recovery_path: String },
}

/// Whether `r` is an invalid-request error whose message is `message`.
pub open spec fn is_invalid_request<T>(r: Result<T, DaemonError>, message: Seq<char>) -> bool {
    r matches Err(DaemonError::InvalidRequest(m)) && m@ == message
}

/// An invalid-request error with the given message.
pub fn invalid_request(message: &str) -> (e: DaemonError)
    ensures
        e matches DaemonError::InvalidRequest(m) && m@ == message@,
{
    DaemonError::InvalidRequest(message.to_string())
}

/// An input/output error of the given kind and message.
pub fn io_error(kind: IoErrorKind, message: &str) -> (e: DaemonError)
    ensures
        e matches DaemonError::Io { kind: k, message: m } && k == kind && m@ == message@,
{
    DaemonError::Io { kind, message: message.to_string() }
}

} // verus!
