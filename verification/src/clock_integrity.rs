use vstd::prelude::*;

use crate::strings::{concat3, owned, str_equal};
use crate::text::{decimal, u64_to_decimal};

verus! {

/// The clock-guard state of a clock that behaves.
pub const CLOCK_STATUS_OK: &'static str = "ok";

/// The clock-guard state once tampering was seen; it stays so.
pub const CLOCK_STATUS_TAMPERED: &'static str = "tampered";

/// How far, in whole seconds, the wall clock may move back across a reboot.
pub const MAX_BACKWARD_REBOOT_SECONDS: i64 = 300;

/// What a clock check decides: whether the clock now counts as tampered
/// with, the detail to store, and whether a newly seen tampering is to be
/// recorded in the event log.
#[derive(Debug, PartialEq, Eq)]
pub struct ClockDecision {
    pub tampered: bool,
    pub detail: String,
    pub report: bool,
}

/// The detail stored for a clock that behaves.
pub open spec fn clock_ok_detail() -> Seq<char> {
    "Clock movement matches monotonic system uptime."@
}

/// The detail kept for a tampered clock whose stored detail is empty.
pub open spec fn earlier_tamper_detail() -> Seq<char> {
    "System clock tampering was detected previously."@
}

/// What a clock check decides from the stored state (tampered or not), the
/// stored detail and the violation found now, if any: a violation makes or
/// keeps the clock tampered, with its text as the detail, and is reported
/// when the clock was not tampered before; without one a tampered clock
/// stays tampered, with its detail, and any other becomes fine.
pub open spec fn spec_clock_decision(
    was_tampered: bool,
    previous_detail: Seq<char>,
    violation: Option<Seq<char>>,
) -> (bool, Seq<char>, bool) {
    match violation {
        Some(v) => (true, v, !was_tampered),
        None => if was_tampered {
            (
                true,
                if previous_detail.len() == 0 {
                    earlier_tamper_detail()
                } else {
                    previous_detail
                },
                false,
            )
        } else {
            (false, clock_ok_detail(), false)
        },
    }
}

/// The stored clock-guard state as a flag: tampered exactly when it reads
/// `tampered` (no stored state counts as `ok`).
pub open spec fn stored_tampered(state: Option<&str>) -> bool {
    match state {
        Some(s) => s@ == CLOCK_STATUS_TAMPERED@,
        None => false,
    }
}

/// Decides a clock check from the stored state and detail and the
/// violation found now.
pub fn next_clock_integrity(
    previous_state: Option<&str>,
    previous_detail: Option<&str>,
    violation: Option<String>,
) -> (r: ClockDecision)
    ensures
        ({
            let d = spec_clock_decision(
                stored_tampered(previous_state),
                match previous_detail {
                    Some(t) => t@,
                    None => Seq::empty(),
                },
                match violation {
                    Some(v) => Some(v@),
                    None => None,
                },
            );
            r.tampered == d.0 && r.detail@ == d.1 && r.report == d.2
        }),
{
    let was_tampered = match previous_state {
        Some(s) => str_equal(s, CLOCK_STATUS_TAMPERED),
        None => false,
    };
    match violation {
        Some(v) => ClockDecision { tampered: true, detail: v, report: !was_tampered },
        None => {
            if was_tampered {
                let detail = match previous_detail {
                    Some(t) => {
                        if t.unicode_len() == 0 {
                            owned("System clock tampering was detected previously.")
                        } else {
                            owned(t)
                        }
                    },
                    None => owned("System clock tampering was detected previously."),
                };
                ClockDecision { tampered: true, detail, report: false }
            } else {
                ClockDecision {
                    tampered: false,
                    detail: owned("Clock movement matches monotonic system uptime."),
                    report: false,
                }
            }
        },
    }
}

/// The name of the clock-guard state.
pub fn clock_state_name(tampered: bool) -> (r: &'static str)
    ensures
        r@ == if tampered {
            CLOCK_STATUS_TAMPERED@
        } else {
            CLOCK_STATUS_OK@
        },
{
    if tampered {
        CLOCK_STATUS_TAMPERED
    } else {
        CLOCK_STATUS_OK
    }
}

/// Once tampered, a clock stays tampered whatever a later check finds, and
/// a later check reports nothing new: only the first tampering is recorded.
pub proof fn law_tampering_is_sticky(previous_detail: Seq<char>, violation: Option<Seq<char>>)
    ensures
        spec_clock_decision(true, previous_detail, violation).0,
        !spec_clock_decision(true, previous_detail, violation).2,
{
}

/// How many whole seconds the wall clock moved back from `previous` to
/// `now` (seconds and nanoseconds since the Unix epoch), rounded toward
/// zero as chrono's `num_seconds` does.
pub open spec fn whole_seconds_back(previous: (i64, u32), now: (i64, u32)) -> int {
    let nanos = (previous.0 - now.0) * 1_000_000_000 + previous.1 - now.1;
    if nanos >= 0 {
        nanos / 1_000_000_000
    } else {
        -((-nanos) / 1_000_000_000)
    }
}

/// The violation that a check after a reboot finds: the wall clock moved
/// back by more than `MAX_BACKWARD_REBOOT_SECONDS` whole seconds.
pub open spec fn spec_reboot_violation(previous: (i64, u32), now: (i64, u32)) -> Option<Seq<char>> {
    let back = whole_seconds_back(previous, now);
    if back > MAX_BACKWARD_REBOOT_SECONDS {
        Some("System clock moved backwards by "@ + decimal(back as nat) + "s across reboot."@)
    } else {
        None
    }
}

/// Checks the wall clock across a reboot (the boot id changed): the time
/// last seen was `previous`, the time now is `now`.
pub fn reboot_clock_violation(previous: (i64, u32), now: (i64, u32)) -> (r: Option<String>)
    requires
        previous.1 < 1_000_000_000,
        now.1 < 1_000_000_000,
    ensures
        match r {
            Some(s) => spec_reboot_violation(previous, now) == Some(s@),
            None => spec_reboot_violation(previous, now) is None,
        },
{
    let nanos: i128 = (previous.0 as i128 - now.0 as i128) * 1_000_000_000 + previous.1 as i128 - now.1 as i128;
    if nanos < 301_000_000_000 {
        assert(whole_seconds_back(previous, now) <= MAX_BACKWARD_REBOOT_SECONDS);
        return None;
    }
    let back: i128 = nanos / 1_000_000_000;
    assert(back == whole_seconds_back(previous, now));
    assert(nanos < 0x1_0000_0000_0000_0000 * 1_000_000_000);
    assert(back < 0x1_0000_0000_0000_0000) by (nonlinear_arith)
        requires
            back == nanos / 1_000_000_000,
            nanos < 0x1_0000_0000_0000_0000 * 1_000_000_000,
            nanos >= 0,
    ;
    let text = u64_to_decimal(back as u64);
    let r = concat3("System clock moved backwards by ", text.as_str(), "s across reboot.");
    Some(r)
}

} // verus!
