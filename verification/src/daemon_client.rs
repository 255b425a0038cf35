use vstd::prelude::*;

use crate::host_error::{IoErrorKind, NativeHostError};
use crate::json::{json_parse_error, parse_error_text};
use crate::native_messaging::MAX_MESSAGE_BYTES;

verus! {

/// How the native host starts the daemon again when it cannot reach it
/// (development only): the command to run, how long to wait for the daemon
/// afterwards, how long between retries, and the least time between two
/// launches; times in milliseconds.
#[derive(Debug, Clone)]
pub struct DaemonRevivalConfig {
    command: String,
    wait_timeout_ms: u64,
    retry_interval_ms: u64,
    min_interval_ms: u64,
}

impl DaemonRevivalConfig {
    /// The command that starts the daemon.
    pub closed spec fn command_spec(&self) -> Seq<char> {
        self.command@
    }

    /// How long to wait for the daemon after a launch.
    pub closed spec fn wait_spec(&self) -> u64 {
        self.wait_timeout_ms
    }

    /// How long between two retries.
    pub closed spec fn retry_spec(&self) -> u64 {
        self.retry_interval_ms
    }

    /// The least time between two launches.
    pub closed spec fn min_interval_spec(&self) -> u64 {
        self.min_interval_ms
    }

    /// A revival configuration.
    pub fn new(command: String, wait_timeout_ms: u64, retry_interval_ms: u64, min_interval_ms: u64) -> (r:
        Self)
        ensures
            r.command_spec() == command@,
            r.wait_spec() == wait_timeout_ms,
            r.retry_spec() == retry_interval_ms,
            r.min_interval_spec() == min_interval_ms,
    {
        DaemonRevivalConfig { command, wait_timeout_ms, retry_interval_ms, min_interval_ms }
    }

    /// The command that starts the daemon.
    pub fn command(&self) -> (r: &str)
        ensures
            r@ == self.command_spec(),
    {
        self.command.as_str()
    }

    /// How long between two retries.
    pub fn retry_interval_ms(&self) -> (r: u64)
        ensures
            r == self.retry_spec(),
    {
        self.retry_interval_ms
    }
}

/// How the native host reaches the daemon: its socket, the time limit of
/// one exchange in milliseconds, and how to revive it, if at all.
#[derive(Debug, Clone)]
pub struct DaemonClient {
    socket_path: String,
    timeout_ms: u64,
    revival: Option<DaemonRevivalConfig>,
}

/// Whether a failure to reach the daemon may be mended by starting it: the
/// socket is missing, or nothing listens on it.
pub open spec fn spec_should_attempt_revival(error: NativeHostError) -> bool {
    error matches NativeHostError::Io(k) && (k == IoErrorKind::NotFound || k
        == IoErrorKind::ConnectionRefused)
}

/// Whether a failure to reach the daemon may be mended by starting it.
pub fn should_attempt_revival(error: &NativeHostError) -> (r: bool)
    ensures
        r == spec_should_attempt_revival(*error),
{
    match error {
        NativeHostError::Io(IoErrorKind::NotFound) => true,
        NativeHostError::Io(IoErrorKind::ConnectionRefused) => true,
        _ => false,
    }
}

/// Whether a revival command may be launched now: when none was launched
/// yet, or the least time between launches has passed since the last one
/// (no time passes backwards).
pub fn revival_due(last_attempt_ms: Option<u64>, now_ms: u64, min_interval_ms: u64) -> (r: bool)
    ensures
        r == match last_attempt_ms {
            Some(last) => (if now_ms >= last {
                now_ms - last
            } else {
                0
            }) >= min_interval_ms,
            None => true,
        },
{
    match last_attempt_ms {
        Some(last) => {
            let passed = if now_ms >= last {
                now_ms - last
            } else {
                0
            };
            passed >= min_interval_ms
        },
        None => true,
    }
}

/// Where an exchange with the daemon stands.
#[derive(Debug, Clone)]
pub enum SendState {
    /// The first attempt is under way.
    First,
    /// The daemon is being revived; the first error is kept for the caller,
    /// and retries stop at the deadline.
    Retrying { first_error: NativeHostError, deadline_ms: u64 },
}

/// What to do next in an exchange with the daemon.
#[derive(Debug)]
pub enum SendAction {
    /// The exchange is over with this result.
    Finish(Result<Vec<u8>, NativeHostError>),
    /// Launch the revival command (when `launch` is set), then wait the
    /// retry interval and try again.
    Revive { launch: bool },
    /// Wait the retry interval and try again.
    Retry,
}

impl DaemonClient {
    /// The socket of the daemon.
    pub closed spec fn socket_spec(&self) -> Seq<char> {
        self.socket_path@
    }

    /// The time limit of one exchange.
    pub closed spec fn timeout_spec(&self) -> u64 {
        self.timeout_ms
    }

    /// How the daemon is revived, if at all.
    pub closed spec fn revival_spec(&self) -> Option<DaemonRevivalConfig> {
        self.revival
    }

    /// A client of the daemon at `socket_path` that does not revive it.
    pub fn new(socket_path: String, timeout_ms: u64) -> (r: Self)
        ensures
            r.socket_spec() == socket_path@,
            r.timeout_spec() == timeout_ms,
            r.revival_spec() is None,
    {
        DaemonClient { socket_path, timeout_ms, revival: None }
    }

    /// The client, reviving the daemon as `revival` says.
    pub fn with_revival(self, revival: DaemonRevivalConfig) -> (r: Self)
        ensures
            r.socket_spec() == self.socket_spec(),
            r.timeout_spec() == self.timeout_spec(),
            r.revival_spec() == Some(revival),
    {
        DaemonClient { socket_path: self.socket_path, timeout_ms: self.timeout_ms, revival: Some(revival) }
    }

    /// The socket of the daemon.
    pub fn socket_path(&self) -> (r: &str)
        ensures
            r@ == self.socket_spec(),
    {
        self.socket_path.as_str()
    }

    /// The time limit of one exchange.
    pub fn timeout_ms(&self) -> (r: u64)
        ensures
            r == self.timeout_spec(),
    {
        self.timeout_ms
    }

    /// How the daemon is revived, if at all.
    pub fn revival(&self) -> (r: &Option<DaemonRevivalConfig>)
        ensures
            *r == self.revival_spec(),
    {
        &self.revival
    }

    /// The next step of an exchange, given where it stands, the result of
    /// the attempt just made, the time now and when a revival command was
    /// last launched. A success ends the exchange. A first failure ends it
    /// unless the client revives the daemon and the failure calls for it;
    /// then the command is launched when due, and retries run until the
    /// deadline `wait_timeout_ms` later. A retry that fails for another
    /// reason, or after the deadline, ends the exchange with the first error.
    pub fn next_send_step(
        &self,
        state: SendState,
        attempt: Result<Vec<u8>, NativeHostError>,
        now_ms: u64,
        last_revival_ms: Option<u64>,
    ) -> (r: (SendState, SendAction))
        requires
            self.revival_spec() matches Some(rv) ==> now_ms + rv.wait_spec() <= u64::MAX,
        ensures
            match (state, attempt) {
                (_, Ok(response)) => r.1 matches SendAction::Finish(Ok(v)) && v == response,
                (SendState::First, Err(e)) => match self.revival_spec() {
                    Some(rv) => if spec_should_attempt_revival(e) {
                        &&& r.0 matches SendState::Retrying { first_error, deadline_ms }
                            && first_error == e && deadline_ms == now_ms + rv.wait_spec()
                        &&& r.1 matches SendAction::Revive { launch } && launch == match last_revival_ms {
                            Some(last) => (if now_ms >= last {
                                now_ms - last
                            } else {
                                0
                            }) >= rv.min_interval_spec(),
                            None => true,
                        }
                    } else {
                        r.1 matches SendAction::Finish(Err(x)) && x == e
                    },
                    None => r.1 matches SendAction::Finish(Err(x)) && x == e,
                },
                (SendState::Retrying { first_error, deadline_ms }, Err(e)) => if spec_should_attempt_revival(e)
                    && now_ms < deadline_ms {
                    r.1 is Retry && r.0 == (SendState::Retrying { first_error, deadline_ms })
                } else {
                    r.1 matches SendAction::Finish(Err(x)) && x == first_error
                },
            },
    {
        match attempt {
            Ok(response) => (state, SendAction::Finish(Ok(response))),
            Err(e) => match state {
                SendState::First => match &self.revival {
                    Some(rv) => {
                        if should_attempt_revival(&e) {
                            let launch = revival_due(last_revival_ms, now_ms, rv.min_interval_ms);
                            let deadline_ms = now_ms + rv.wait_timeout_ms;
                            (SendState::Retrying { first_error: e, deadline_ms }, SendAction::Revive { launch })
                        } else {
                            (SendState::First, SendAction::Finish(Err(e)))
                        }
                    },
                    None => (SendState::First, SendAction::Finish(Err(e))),
                },
                SendState::Retrying { first_error, deadline_ms } => {
                    if should_attempt_revival(&e) && now_ms < deadline_ms {
                        (SendState::Retrying { first_error, deadline_ms }, SendAction::Retry)
                    } else {
                        (SendState::First, SendAction::Finish(Err(first_error)))
                    }
                },
            },
        }
    }
}

/// Whether `read` more bytes keep a daemon reply of `received` bytes within
/// the message limit; a reply over it is refused.
pub fn check_daemon_response_size(received: usize, read: usize) -> (r: Result<(), NativeHostError>)
    ensures
        received + read > MAX_MESSAGE_BYTES ==> r == Err::<(), NativeHostError>(
            NativeHostError::DaemonResponseTooLarge { limit: MAX_MESSAGE_BYTES },
        ),
        received + read <= MAX_MESSAGE_BYTES ==> r is Ok,
{
    if received > MAX_MESSAGE_BYTES || read > MAX_MESSAGE_BYTES - received {
        return Err(NativeHostError::DaemonResponseTooLarge { limit: MAX_MESSAGE_BYTES });
    }
    Ok(())
}

/// The daemon's whole reply, once checked: an empty reply is an error that
/// names the socket, a reply that is not JSON is an error with serde_json's
/// message, and any other reply is handed on as it is.
pub fn accept_daemon_response(socket_path: &str, response: Vec<u8>) -> (r: Result<Vec<u8>, NativeHostError>)
    ensures
        response@.len() == 0 ==> (r matches Err(NativeHostError::EmptyDaemonResponse { socket })
            && socket@ == socket_path@),
        response@.len() > 0 ==> match json_parse_error(response@) {
            Some(message) => r matches Err(NativeHostError::InvalidDaemonResponse(m)) && m@ == message,
            None => r matches Ok(v) && v@ == response@,
        },
{
    if response.len() == 0 {
        return Err(NativeHostError::EmptyDaemonResponse { socket: crate::strings::owned(socket_path) });
    }
    match parse_error_text(response.as_slice()) {
        Some(message) => Err(NativeHostError::InvalidDaemonResponse(message)),
        None => Ok(response),
    }
}

} // verus!
