use vstd::prelude::*;

use crate::daemon_error::DaemonError;
use crate::extension_status::{utc_timestamp, utc_timestamp_text};
use crate::strings::{concat3, str_equal};

verus! {

/// The instant that RFC 3339 text names, as whole seconds since the Unix
/// epoch and the nanoseconds past them (past 10^9 within a leap second);
/// `None` when the text is not RFC 3339.
pub uninterp spec fn rfc3339_instant(text: Seq<char>) -> Option<(i64, u32)>;

/// The text in which chrono's `ParseError` tells why `text` is not RFC 3339.
pub uninterp spec fn rfc3339_error_text(text: Seq<char>) -> Seq<char>;

/// Calls chrono's `DateTime::parse_from_rfc3339` and reads the instant with
/// `timestamp` and `timestamp_subsec_nanos`, or formats the `ParseError`
/// with its `Display`; both outcomes are named.
#[verifier::external_body]
fn parse_rfc3339(text: &str) -> (r: Result<(i64, u32), String>)
    ensures
        match r {
            Ok(t) => rfc3339_instant(text@) == Some(t),
            Err(e) => rfc3339_instant(text@) is None && e@ == rfc3339_error_text(text@),
        },
{
    match chrono::DateTime::parse_from_rfc3339(text) {
        Ok(t) => Ok((t.timestamp(), t.timestamp_subsec_nanos())),
        Err(err) => Err(err.to_string()),
    }
}

/// The instant that an optional `now` of a request names: none when it is
/// absent (the caller reads the clock), the RFC 3339 instant when it is
/// one, else an invalid-request error that quotes chrono's reason.
pub fn parse_optional_now(now: Option<&str>) -> (r: Result<Option<(i64, u32)>, DaemonError>)
    ensures
        now is None ==> r == Ok::<Option<(i64, u32)>, DaemonError>(None),
        now matches Some(t) ==> match rfc3339_instant(t@) {
            Some(i) => r == Ok::<Option<(i64, u32)>, DaemonError>(Some(i)),
            None => r matches Err(DaemonError::InvalidRequest(m)) && m@ == "invalid RFC3339 now: "@
                + rfc3339_error_text(t@),
        },
{
    match now {
        Some(t) => match parse_rfc3339(t) {
            Ok(i) => Ok(Some(i)),
            Err(e) => {
                proof {
                    reveal_strlit("");
                }
                Err(DaemonError::InvalidRequest(concat3("invalid RFC3339 now: ", e.as_str(), "")))
            },
        },
        None => Ok(None),
    }
}

/// The text that chrono's serde support writes for the UTC instant `at`
/// (seconds and nanoseconds since the Unix epoch); none when the instant, in
/// nanoseconds, does not fit in an `i64`.
pub fn instant_text(at: (i64, u32)) -> (r: Option<String>)
    ensures
        match r {
            Some(s) => i64::MIN <= at.0 * 1_000_000_000 + at.1 <= i64::MAX && s@ == utc_timestamp_text(
                (at.0 * 1_000_000_000 + at.1) as i64,
            ),
            None => !(i64::MIN <= at.0 * 1_000_000_000 + at.1 <= i64::MAX),
        },
{
    let nanos: i128 = at.0 as i128 * 1_000_000_000 + at.1 as i128;
    if i64::MIN as i128 <= nanos && nanos <= i64::MAX as i128 {
        Some(utc_timestamp(nanos as i64))
    } else {
        None
    }
}

/// How long the uninstall handoff lasts, in seconds.
pub const UNINSTALL_HANDOFF_SECONDS: i64 = 30;

/// The RFC 3339 text, with the offset `+00:00`, that chrono writes for the
/// UTC instant `at`.
pub uninterp spec fn rfc3339_text_of(at: (i64, u32)) -> Seq<char>;

/// Whether `at` falls in a four-digit year, from 1970 on, and is no leap
/// second: the instants whose RFC 3339 text chrono reads back as the same
/// instant.
pub open spec fn four_digit_year(at: (i64, u32)) -> bool {
    0 <= at.0 <= 253_402_300_799 && at.1 < 1_000_000_000
}

/// Calls chrono's `DateTime::<Utc>::from_timestamp` and `to_rfc3339`; the
/// text is named (empty when chrono has no such instant). Within four-digit
/// years the year is written with four digits and the fraction with all its
/// digits, which `parse_from_rfc3339` reads back as the same instant.
#[verifier::external_body]
fn rfc3339_text(at: (i64, u32)) -> (r: String)
    ensures
        r@ == rfc3339_text_of(at),
        four_digit_year(at) ==> rfc3339_instant(r@) == Some(at),
{
    match chrono::DateTime::<chrono::Utc>::from_timestamp(at.0, at.1) {
        Some(t) => t.to_rfc3339(),
        None => String::new(),
    }
}

/// What the uninstall handoff that starts at some moment records: when it
/// ends, and that end as RFC 3339 text for the service state.
#[derive(Debug)]
pub struct UninstallHandoff {
    pub until: (i64, u32),
    pub until_text: String,
}

/// Starts the uninstall handoff at `now`: it lasts
/// `UNINSTALL_HANDOFF_SECONDS`. Its stored end reads back as that end, so
/// that `uninstall_handoff_active` holds exactly before it.
pub fn begin_uninstall_handoff(now: (i64, u32)) -> (r: UninstallHandoff)
    requires
        now.0 <= i64::MAX - UNINSTALL_HANDOFF_SECONDS,
    ensures
        r.until.0 == now.0 + UNINSTALL_HANDOFF_SECONDS,
        r.until.1 == now.1,
        r.until_text@ == rfc3339_text_of(r.until),
        four_digit_year(r.until) ==> rfc3339_instant(r.until_text@) == Some(r.until),
{
    let until = (now.0 + UNINSTALL_HANDOFF_SECONDS, now.1);
    let until_text = rfc3339_text(until);
    UninstallHandoff { until, until_text }
}

/// Whether instant `a` comes after instant `b`, in the order of chrono's
/// times: by seconds, then by the nanoseconds past them.
pub open spec fn later(a: (i64, u32), b: (i64, u32)) -> bool {
    a.0 > b.0 || (a.0 == b.0 && a.1 > b.1)
}

pub(crate) fn is_later(a: (i64, u32), b: (i64, u32)) -> (r: bool)
    ensures
        r == later(a, b),
{
    a.0 > b.0 || (a.0 == b.0 && a.1 > b.1)
}

/// An optional string as optional text.
pub open spec fn text_of(value: Option<&str>) -> Option<Seq<char>> {
    match value {
        Some(v) => Some(v@),
        None => None,
    }
}

/// Whether stored RFC 3339 text names an instant later than `now`.
pub open spec fn deadline_after(stored: Option<&str>, now: (i64, u32)) -> bool {
    match stored {
        Some(s) => match rfc3339_instant(s@) {
            Some(t) => later(t, now),
            None => false,
        },
        None => false,
    }
}

/// Whether the uninstall handoff is under way at `now`: the browser
/// extension mode is `uninstalling` and the stored end of the handoff, read
/// as RFC 3339, is later than `now`.
pub fn uninstall_handoff_active(mode: Option<&str>, until: Option<&str>, now: (i64, u32)) -> (r: bool)
    ensures
        r == (text_of(mode) == Some("uninstalling"@) && deadline_after(until, now)),
{
    let uninstalling = match mode {
        Some(m) => str_equal(m, "uninstalling"),
        None => false,
    };
    if !uninstalling {
        return false;
    }
    match until {
        Some(u) => match parse_rfc3339(u) {
            Ok(t) => is_later(t, now),
            Err(_) => false,
        },
        None => false,
    }
}

/// The end of the Tier 1 edit unlock that the service state stores, when it
/// is RFC 3339.
pub fn tier1_edit_unlocked_until(stored: Option<&str>) -> (r: Option<(i64, u32)>)
    ensures
        r == match stored {
            Some(s) => rfc3339_instant(s@),
            None => None,
        },
{
    match stored {
        Some(s) => match parse_rfc3339(s) {
            Ok(t) => Some(t),
            Err(_) => None,
        },
        None => None,
    }
}

/// Whether a Tier 1 edit unlock is open at `now`: its stored end is later.
pub fn tier1_edit_window_active(stored: Option<&str>, now: (i64, u32)) -> (r: bool)
    ensures
        r == deadline_after(stored, now),
{
    match tier1_edit_unlocked_until(stored) {
        Some(t) => is_later(t, now),
        None => false,
    }
}

/// Whether the edit of an active Tier 1 site list is allowed: the list is
/// Tier 1 and a Tier 1 edit unlock is open.
pub fn active_tier1_site_list_edit_allowed(is_tier1: bool, stored: Option<&str>, now: (i64, u32)) -> (r:
    bool)
    ensures
        r == (is_tier1 && deadline_after(stored, now)),
{
    is_tier1 && tier1_edit_window_active(stored, now)
}

/// What the daemon reports as its enforcement state and its browser
/// extension mode: `uninstalling` during the uninstall handoff, else
/// `active`.
pub fn enforcement_state_name(handoff_active: bool) -> (r: &'static str)
    ensures
        r@ == if handoff_active {
            "uninstalling"@
        } else {
            "active"@
        },
{
    if handoff_active {
        "uninstalling"
    } else {
        "active"
    }
}

} // verus!
