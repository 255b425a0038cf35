use vstd::prelude::*;

use crate::daemon_error::DaemonError;
use crate::strings::{concat3, str_equal};

verus! {

/// When protected settings may be changed.
#[derive(Debug, Clone, Copy, PartialEq, Eq, Structural)]
pub enum ProtectedAccessMode {
    /// Only in the operator window, Sunday 20:00-23:59.
    Sunday,
    /// Only while no schedule or Detox is active.
    NoActiveScheduleOrDetox,
    /// At any time.
    AllTime,
}

/// First minute of the day of the Sunday operator window (20:00).
pub const OPERATOR_WINDOW_START_MINUTE: u16 = 1200;

/// Last minute of the day of the Sunday operator window (23:59).
pub const OPERATOR_WINDOW_END_MINUTE: u16 = 1439;

/// The stored name of a protected access mode.
pub open spec fn spec_protected_access_mode_name(mode: ProtectedAccessMode) -> Seq<char> {
    match mode {
        ProtectedAccessMode::Sunday => "sunday"@,
        ProtectedAccessMode::NoActiveScheduleOrDetox => "no_active_schedule_or_detox"@,
        ProtectedAccessMode::AllTime => "all_time"@,
    }
}

/// The stored name of a protected access mode.
pub fn protected_access_mode_name(mode: ProtectedAccessMode) -> (r: &'static str)
    ensures
        r@ == spec_protected_access_mode_name(mode),
{
    match mode {
        ProtectedAccessMode::Sunday => "sunday",
        ProtectedAccessMode::NoActiveScheduleOrDetox => "no_active_schedule_or_detox",
        ProtectedAccessMode::AllTime => "all_time",
    }
}

/// The label of a protected access mode in the settings.
pub fn protected_access_mode_label(mode: ProtectedAccessMode) -> (r: &'static str)
    ensures
        r@ == match mode {
            ProtectedAccessMode::Sunday => "Sunday 20:00-23:59"@,
            ProtectedAccessMode::NoActiveScheduleOrDetox => "No active schedule or Detox"@,
            ProtectedAccessMode::AllTime => "Any time"@,
        },
{
    match mode {
        ProtectedAccessMode::Sunday => "Sunday 20:00-23:59",
        ProtectedAccessMode::NoActiveScheduleOrDetox => "No active schedule or Detox",
        ProtectedAccessMode::AllTime => "Any time",
    }
}

/// When a protected access mode lets changes through, as a phrase.
pub open spec fn spec_protected_access_mode_description(mode: ProtectedAccessMode) -> Seq<char> {
    match mode {
        ProtectedAccessMode::Sunday => "during Sunday 20:00-23:59"@,
        ProtectedAccessMode::NoActiveScheduleOrDetox => "while no schedule or Detox is active"@,
        ProtectedAccessMode::AllTime => "at any time"@,
    }
}

/// When a protected access mode lets changes through, as a phrase.
pub fn protected_access_mode_description(mode: ProtectedAccessMode) -> (r: &'static str)
    ensures
        r@ == spec_protected_access_mode_description(mode),
{
    match mode {
        ProtectedAccessMode::Sunday => "during Sunday 20:00-23:59",
        ProtectedAccessMode::NoActiveScheduleOrDetox => "while no schedule or Detox is active",
        ProtectedAccessMode::AllTime => "at any time",
    }
}

/// The error for a change of `action` outside the times that `mode` allows.
pub fn protected_access_closed_error(action: &str, mode: ProtectedAccessMode) -> (e: DaemonError)
    ensures
        e matches DaemonError::InvalidRequest(m) && m@ == action@ + " are only available "@
            + spec_protected_access_mode_description(mode),
{
    DaemonError::InvalidRequest(
        concat3(action, " are only available ", protected_access_mode_description(mode)),
    )
}

/// The protected access mode that the service state records: the stored
/// mode when there is one, else the Sunday window when the older operator
/// window restriction is "true", else any time; an unknown stored name is
/// an invalid request.
pub open spec fn spec_protected_access_mode(
    stored: Option<Seq<char>>,
    operator_restriction: Option<Seq<char>>,
) -> Result<ProtectedAccessMode, Seq<char>> {
    match stored {
        Some(s) => if s == "sunday"@ {
            Ok(ProtectedAccessMode::Sunday)
        } else if s == "no_active_schedule_or_detox"@ {
            Ok(ProtectedAccessMode::NoActiveScheduleOrDetox)
        } else if s == "all_time"@ {
            Ok(ProtectedAccessMode::AllTime)
        } else {
            Err("invalid protected access mode '"@ + s + "'"@)
        },
        None => Ok(
            if operator_restriction == Some("true"@) {
                ProtectedAccessMode::Sunday
            } else {
                ProtectedAccessMode::AllTime
            },
        ),
    }
}

/// The protected access mode that the service state records.
pub fn protected_access_mode(stored: Option<&str>, operator_restriction: Option<&str>) -> (r: Result<
    ProtectedAccessMode,
    DaemonError,
>)
    ensures
        match spec_protected_access_mode(
            match stored {
                Some(s) => Some(s@),
                None => None,
            },
            match operator_restriction {
                Some(s) => Some(s@),
                None => None,
            },
        ) {
            Ok(mode) => r == Ok::<ProtectedAccessMode, DaemonError>(mode),
            Err(message) => r matches Err(DaemonError::InvalidRequest(m)) && m@ == message,
        },
{
    match stored {
        Some(s) => {
            if str_equal(s, "sunday") {
                Ok(ProtectedAccessMode::Sunday)
            } else if str_equal(s, "no_active_schedule_or_detox") {
                Ok(ProtectedAccessMode::NoActiveScheduleOrDetox)
            } else if str_equal(s, "all_time") {
                Ok(ProtectedAccessMode::AllTime)
            } else {
                Err(DaemonError::InvalidRequest(concat3("invalid protected access mode '", s, "'")))
            }
        },
        None => {
            let restricted = match operator_restriction {
                Some(v) => str_equal(v, "true"),
                None => false,
            };
            Ok(
                if restricted {
                    ProtectedAccessMode::Sunday
                } else {
                    ProtectedAccessMode::AllTime
                },
            )
        },
    }
}

/// Law: a protected access mode read back from its stored name is itself.
pub proof fn law_protected_access_mode_name_roundtrip(
    mode: ProtectedAccessMode,
    operator_restriction: Option<Seq<char>>,
)
    ensures
        spec_protected_access_mode(Some(spec_protected_access_mode_name(mode)), operator_restriction)
            == Ok::<ProtectedAccessMode, Seq<char>>(mode),
{
    reveal_strlit("sunday");
    reveal_strlit("no_active_schedule_or_detox");
    reveal_strlit("all_time");
    assert("sunday"@.len() == 6);
    assert("no_active_schedule_or_detox"@.len() == 27);
    assert("all_time"@.len() == 8);
}

/// Whether the operator window is open: Sunday, from 20:00 to 23:59.
pub fn operator_window_open(is_sunday: bool, hour: u32, minute: u32) -> (r: bool)
    requires
        hour < 24,
        minute < 60,
    ensures
        r == (is_sunday && OPERATOR_WINDOW_START_MINUTE <= hour * 60 + minute
            <= OPERATOR_WINDOW_END_MINUTE),
{
    let current_minute: u16 = (hour as u16) * 60 + minute as u16;
    is_sunday && OPERATOR_WINDOW_START_MINUTE <= current_minute
        && current_minute <= OPERATOR_WINDOW_END_MINUTE
}

/// Whether protected settings may be changed now under `mode`: never while
/// the clock is tampered with; else in the operator window, while nothing
/// is active, or always.
pub fn protected_access_is_open(
    mode: ProtectedAccessMode,
    clock_tampered: bool,
    operator_window_is_open: bool,
    no_active_schedule_or_detox: bool,
) -> (r: bool)
    ensures
        r == (!clock_tampered && match mode {
            ProtectedAccessMode::Sunday => operator_window_is_open,
            ProtectedAccessMode::NoActiveScheduleOrDetox => no_active_schedule_or_detox,
            ProtectedAccessMode::AllTime => true,
        }),
{
    if clock_tampered {
        return false;
    }
    match mode {
        ProtectedAccessMode::Sunday => operator_window_is_open,
        ProtectedAccessMode::NoActiveScheduleOrDetox => no_active_schedule_or_detox,
        ProtectedAccessMode::AllTime => true,
    }
}

/// Whether unsupported browsers are blocked now: only when the policy asks
/// for it; then always while the clock is tampered with, and otherwise when
/// the block mode's time applies.
pub fn unsupported_browser_block_is_active(
    block_unsupported_browsers: bool,
    clock_tampered: bool,
    mode: ProtectedAccessMode,
    operator_window_is_open: bool,
    no_active_schedule_or_detox: bool,
) -> (r: bool)
    ensures
        r == (block_unsupported_browsers && (clock_tampered || match mode {
            ProtectedAccessMode::Sunday => operator_window_is_open,
            ProtectedAccessMode::NoActiveScheduleOrDetox => no_active_schedule_or_detox,
            ProtectedAccessMode::AllTime => true,
        })),
{
    if !block_unsupported_browsers || clock_tampered {
        return block_unsupported_browsers;
    }
    match mode {
        ProtectedAccessMode::Sunday => operator_window_is_open,
        ProtectedAccessMode::NoActiveScheduleOrDetox => no_active_schedule_or_detox,
        ProtectedAccessMode::AllTime => true,
    }
}

/// The refusal of a privileged change while the clock is tampered with,
/// quoting what the clock guard found.
pub fn clock_tampered_error(detail: &str) -> (e: DaemonError)
    ensures
        e matches DaemonError::InvalidRequest(m) && m@ == "system clock integrity is tampered: "@
            + detail@ + ". Restore the system time before changing privileged state."@,
{
    DaemonError::InvalidRequest(
        concat3(
            "system clock integrity is tampered: ",
            detail,
            ". Restore the system time before changing privileged state.",
        ),
    )
}

/// Whether an uninstall from the GUI may go ahead: a valid emergency code
/// authorizes it at once; otherwise the clock must be trusted (else the
/// clock refusal, quoting `clock_detail`) and protected settings open (else
/// the protected-access refusal for "GUI uninstall").
pub fn authorize_gui_uninstall(
    emergency_authorized: bool,
    clock_tampered: bool,
    clock_detail: &str,
    access_mode: ProtectedAccessMode,
    access_open: bool,
) -> (r: Result<(), DaemonError>)
    ensures
        r is Ok <==> (emergency_authorized || (!clock_tampered && access_open)),
        !emergency_authorized && clock_tampered ==> (r matches Err(DaemonError::InvalidRequest(m)) && m@
            == "system clock integrity is tampered: "@ + clock_detail@
            + ". Restore the system time before changing privileged state."@),
        !emergency_authorized && !clock_tampered && !access_open ==> (r matches Err(
            DaemonError::InvalidRequest(m),
        ) && m@ == "GUI uninstall"@ + " are only available "@ + spec_protected_access_mode_description(
            access_mode,
        )),
{
    if emergency_authorized {
        return Ok(());
    }
    if clock_tampered {
        return Err(clock_tampered_error(clock_detail));
    }
    if !access_open {
        return Err(protected_access_closed_error("GUI uninstall", access_mode));
    }
    Ok(())
}

} // verus!
