use vstd::prelude::*;

use crate::daemon_error::DaemonError;
use crate::strings::concat3;
use crate::text::{
    chars_of, decimal, parse_u32, parse_u32_chars, parse_usize, parse_usize_chars, trim,
    trim_chars, u64_to_decimal,
};

verus! {

/// What systemd's socket activation offers the daemon.
#[derive(Debug, Clone, Copy, PartialEq, Eq, Structural)]
pub enum SocketActivation {
    /// No socket was passed, or it was passed to another process.
    NotOffered,
    /// One socket was passed, as file descriptor 3.
    Inherited,
}

/// Where the daemon's listening socket comes from.
#[derive(Debug, Clone, Copy, PartialEq, Eq, Structural)]
pub enum ListenerSource {
    /// The socket that systemd passed.
    Inherited,
    /// A socket that the daemon binds itself (development only).
    BindPath,
}

/// What socket activation offers, given `LISTEN_FDS` and `LISTEN_PID` (when
/// set) and this process's id: nothing when no descriptor count (or no
/// valid one) is given or it is 0, or when the descriptors are meant for
/// another process; an error when more than one socket is passed.
pub open spec fn spec_socket_activation(
    listen_fds: Option<Seq<char>>,
    listen_pid: Option<Seq<char>>,
    own_pid: u32,
) -> Result<SocketActivation, usize> {
    let fds: usize = match listen_fds {
        Some(v) => match parse_usize(v) {
            Some(n) => n,
            None => 0,
        },
        None => 0,
    };
    if fds == 0 {
        Ok(SocketActivation::NotOffered)
    } else if fds != 1 {
        Err(fds)
    } else if listen_pid matches Some(p) && parse_u32(p) != Some(own_pid) {
        Ok(SocketActivation::NotOffered)
    } else {
        Ok(SocketActivation::Inherited)
    }
}

/// What socket activation offers the daemon.
pub fn socket_activation(listen_fds: Option<&str>, listen_pid: Option<&str>, own_pid: u32) -> (r: Result<
    SocketActivation,
    DaemonError,
>)
    ensures
        match spec_socket_activation(
            match listen_fds {
                Some(v) => Some(v@),
                None => None,
            },
            match listen_pid {
                Some(v) => Some(v@),
                None => None,
            },
            own_pid,
        ) {
            Ok(a) => r == Ok::<SocketActivation, DaemonError>(a),
            Err(fds) => r == Err::<SocketActivation, DaemonError>(
                DaemonError::InvalidSocketActivation { fds },
            ),
        },
{
    let fds: usize = match listen_fds {
        Some(v) => match parse_usize_chars(chars_of(v).as_slice()) {
            Some(n) => n,
            None => 0,
        },
        None => 0,
    };
    if fds == 0 {
        return Ok(SocketActivation::NotOffered);
    }
    if fds != 1 {
        return Err(DaemonError::InvalidSocketActivation { fds });
    }
    if let Some(p) = listen_pid {
        let ours = match parse_u32_chars(chars_of(p).as_slice()) {
            Some(n) => n == own_pid,
            None => false,
        };
        if !ours {
            return Ok(SocketActivation::NotOffered);
        }
    }
    Ok(SocketActivation::Inherited)
}

/// Where the listening socket comes from: the inherited one, else a socket
/// bound at `socket_path` when development binding is allowed; otherwise the
/// daemon cannot listen.
pub fn listener_source(activation: SocketActivation, dev_bind_socket: bool, socket_path: &str) -> (r: Result<
    ListenerSource,
    DaemonError,
>)
    ensures
        activation == SocketActivation::Inherited ==> r == Ok::<ListenerSource, DaemonError>(
            ListenerSource::Inherited,
        ),
        activation == SocketActivation::NotOffered && dev_bind_socket ==> r == Ok::<
            ListenerSource,
            DaemonError,
        >(ListenerSource::BindPath),
        activation == SocketActivation::NotOffered && !dev_bind_socket ==> (r matches Err(
            DaemonError::SocketActivationUnavailable(p),
        ) && p@ == socket_path@),
{
    match activation {
        SocketActivation::Inherited => Ok(ListenerSource::Inherited),
        SocketActivation::NotOffered => {
            if !dev_bind_socket {
                Err(DaemonError::SocketActivationUnavailable(socket_path.to_string()))
            } else {
                Ok(ListenerSource::BindPath)
            }
        },
    }
}

/// The policy path that the desktop application passes on: the one given,
/// unless it is empty or blank.
pub fn config_path(value: Option<String>) -> (r: Option<String>)
    ensures
        match value {
            Some(v) => if trim(v@).len() > 0 {
                r == Some(v)
            } else {
                r is None
            },
            None => r is None,
        },
{
    match value {
        Some(v) => {
            let blank = trim_chars(chars_of(v.as_str()).as_slice()).len() == 0;
            if blank {
                None
            } else {
                Some(v)
            }
        },
        None => None,
    }
}

/// How many Detox sessions a listing returns unless told otherwise.
pub fn default_detox_sessions_limit() -> (r: u32)
    ensures
        r == 50,
{
    50
}

/// How many pending notifications a listing returns unless told otherwise.
pub fn default_pending_notifications_limit() -> (r: u32)
    ensures
        r == 20,
{
    20
}

/// The notification text for an allowance that is running out: under a
/// minute left, or the minutes left, rounded up.
pub fn allowance_notification_body(rule_name: &str, remaining_seconds: i64) -> (r: String)
    requires
        remaining_seconds <= i64::MAX - 59,
    ensures
        remaining_seconds < 60 ==> r@ == "Less than 1 minute remains for \""@ + rule_name@ + "\"."@,
        remaining_seconds >= 60 ==> r@ == decimal(((remaining_seconds + 59) / 60) as nat)
            + " minutes remain for \""@ + rule_name@ + "\"."@,
{
    if remaining_seconds < 60 {
        concat3("Less than 1 minute remains for \"", rule_name, "\".")
    } else {
        let remaining_minutes = (remaining_seconds + 59) / 60;
        let count = u64_to_decimal(remaining_minutes as u64);
        let head = concat3(count.as_str(), " minutes remain for \"", rule_name);
        proof {
            reveal_strlit("");
        }
        concat3(head.as_str(), "\".", "")
    }
}

/// The smallest of the positive numbers in `s`, if any.
pub open spec fn least_positive(s: Seq<i64>) -> Option<int>
    decreases s.len(),
{
    if s.len() == 0 {
        None
    } else {
        let rest = least_positive(s.drop_last());
        if s.last() > 0 {
            match rest {
                Some(m) => Some(if s.last() < m {
                    s.last() as int
                } else {
                    m
                }),
                None => Some(s.last() as int),
            }
        } else {
            rest
        }
    }
}

/// How long the policy repair loop waits before its next pass, in
/// nanoseconds: the repair interval, cut short by the next schedule boundary
/// and by the end of the nearest Detox session still running
/// (`detox_remaining` holds, for each active session, the time from now to
/// its end; only positive ones count). While the clock is tampered with,
/// the interval alone.
pub fn next_policy_repair_delay(
    interval: u64,
    clock_tampered: bool,
    schedule_boundary: Option<u64>,
    detox_remaining: &[i64],
) -> (r: u64)
    ensures
        r == if clock_tampered {
            interval as int
        } else {
            let schedule = match schedule_boundary {
                Some(b) => if b < interval {
                    b as int
                } else {
                    interval as int
                },
                None => interval as int,
            };
            match least_positive(detox_remaining@) {
                Some(d) => if d < schedule {
                    d
                } else {
                    schedule
                },
                None => schedule,
            }
        },
{
    if clock_tampered {
        return interval;
    }
    let schedule = match schedule_boundary {
        Some(b) => if b < interval {
            b
        } else {
            interval
        },
        None => interval,
    };
    let mut least: Option<i64> = None;
    let mut i: usize = 0;
    while i < detox_remaining.len()
        invariant
            i <= detox_remaining@.len(),
            match least {
                Some(m) => least_positive(detox_remaining@.take(i as int)) == Some(m as int) && m > 0,
                None => least_positive(detox_remaining@.take(i as int)) is None,
            },
        decreases detox_remaining@.len() - i,
    {
        assert(detox_remaining@.take(i + 1).drop_last() =~= detox_remaining@.take(i as int));
        let d = detox_remaining[i];
        if d > 0 {
            least = match least {
                Some(m) => Some(if d < m {
                    d
                } else {
                    m
                }),
                None => Some(d),
            };
        }
        i = i + 1;
    }
    assert(detox_remaining@.take(detox_remaining@.len() as int) =~= detox_remaining@);
    match least {
        Some(d) => if (d as u64) < schedule {
            d as u64
        } else {
            schedule
        },
        None => schedule,
    }
}

} // verus!
