use vstd::prelude::*;

use crate::extension_identity::{
    browser_name_for_component, spec_browser_for_component, spec_display_name,
};
use crate::json::{json_member_str, json_object_text, member_str, member_views, object_json, JsonPiece, PieceView};
use crate::strings::{concat3, owned};
use crate::text::{decimal, i64_to_decimal, signed_decimal, u64_to_decimal};

verus! {

/// The last heartbeat that a browser extension sent.
#[derive(Debug, Clone, PartialEq, Eq)]
pub struct ExtensionHeartbeat {
    /// The component that reported it, such as `firefox_extension`.
    pub component: String,
    /// When it arrived, in nanoseconds since the Unix epoch.
    pub last_seen_at_nanos: i64,
    /// The JSON text of the details it carried.
    pub details: Option<String>,
}

/// How a browser extension is doing.
#[derive(Debug, Clone, Copy, PartialEq, Eq, Structural)]
pub enum ExtensionState {
    /// The browser is not running.
    Inactive,
    /// The browser started, and its startup grace period is not over.
    Starting,
    /// The startup grace period is over, and no heartbeat came from this launch.
    Missing,
    /// A heartbeat from this launch is fresh.
    Active,
    /// The heartbeat from this launch is older than the timeout.
    Stale,
}

/// The name under which a state is reported.
pub open spec fn spec_extension_state_name(state: ExtensionState) -> Seq<char> {
    match state {
        ExtensionState::Inactive => "inactive"@,
        ExtensionState::Starting => "starting"@,
        ExtensionState::Missing => "missing"@,
        ExtensionState::Active => "active"@,
        ExtensionState::Stale => "stale"@,
    }
}

/// The name under which a state is reported.
pub fn extension_state_name(state: ExtensionState) -> (r: &'static str)
    ensures
        r@ == spec_extension_state_name(state),
{
    match state {
        ExtensionState::Inactive => "inactive",
        ExtensionState::Starting => "starting",
        ExtensionState::Missing => "missing",
        ExtensionState::Active => "active",
        ExtensionState::Stale => "stale",
    }
}

/// Whole seconds from `then` to `now`, both in nanoseconds since the Unix
/// epoch; 0 when `now` comes first.
pub open spec fn whole_seconds_between(then: int, now: int) -> int {
    if now >= then {
        (now - then) / 1_000_000_000
    } else {
        0
    }
}

/// Whole seconds from `then` to `now`.
pub fn seconds_between(then: i64, now: i64) -> (r: i64)
    ensures
        r == whole_seconds_between(then as int, now as int),
{
    if now < then {
        return 0;
    }
    let span: i128 = now as i128 - then as i128;
    assert(span / 1_000_000_000 <= 20_000_000_000int) by (nonlinear_arith)
        requires
            0 <= span <= 0x1_0000_0000_0000_0000int,
    ;
    (span / 1_000_000_000) as i64
}

/// The age in whole seconds of a heartbeat seen at `last_seen`.
pub open spec fn heartbeat_age(last_seen: Option<int>, now: int) -> Option<int> {
    match last_seen {
        Some(t) => Some(whole_seconds_between(t, now)),
        None => None,
    }
}

/// Whether the heartbeat came during the browser session that started at
/// `session`.
pub open spec fn heartbeat_in_session(last_seen: Option<int>, session: Option<int>) -> bool {
    last_seen matches Some(t) && session matches Some(s) && t >= s
}

/// The seconds left of the startup grace period; the whole period when the
/// session start is unknown.
pub open spec fn grace_remaining(session: Option<int>, now: int, grace: int) -> int {
    match session {
        Some(s) => if grace - whole_seconds_between(s, now) > 0 {
            grace - whole_seconds_between(s, now)
        } else {
            0
        },
        None => grace,
    }
}

/// How the extension is doing: inactive while the browser is closed; while
/// no heartbeat of the current session has come, starting within the grace
/// period (or when the session start is unknown) and missing after it; else
/// active while the heartbeat is no older than the timeout (a timeout beyond
/// `i64::MAX` counts as none) and stale after.
pub open spec fn spec_extension_state(
    timeout: u64,
    now: int,
    running: bool,
    last_seen: Option<int>,
    session: Option<int>,
    grace: int,
) -> ExtensionState {
    if !running {
        ExtensionState::Inactive
    } else if !heartbeat_in_session(last_seen, session) {
        if match session {
            Some(s) => whole_seconds_between(s, now) <= grace,
            None => true,
        } {
            ExtensionState::Starting
        } else {
            ExtensionState::Missing
        }
    } else if timeout <= i64::MAX && whole_seconds_between(last_seen->0, now) <= timeout {
        ExtensionState::Active
    } else {
        ExtensionState::Stale
    }
}

/// The sentence that explains the state.
pub open spec fn spec_extension_detail(
    label: Seq<char>,
    timeout: u64,
    now: int,
    running: bool,
    last_seen: Option<int>,
    session: Option<int>,
    grace: int,
) -> Seq<char> {
    let age = decimal(whole_seconds_between(last_seen->0, now) as nat);
    match spec_extension_state(timeout, now, running, last_seen, session, grace) {
        ExtensionState::Inactive => label + " is not running; no extension heartbeat is expected"@,
        ExtensionState::Starting => label
            + " is starting; waiting for an extension heartbeat from this launch ("@
            + signed_decimal(grace_remaining(session, now, grace)) + " second(s) remaining)"@,
        ExtensionState::Missing => label
            + " is running, but no extension heartbeat from this launch arrived within the "@
            + signed_decimal(grace) + "-second startup grace period"@,
        ExtensionState::Active => "current-session heartbeat received "@ + age
            + " second(s) ago; extension installation and enabled state are confirmed"@,
        ExtensionState::Stale => label + " is running, but its current-session heartbeat is "@
            + age + " second(s) old (extension fail-closed timeout: "@ + decimal(timeout as nat)
            + " seconds)"@,
    }
}

/// The name under which the browser of a component is shown.
pub open spec fn spec_component_label(component: Seq<char>) -> Seq<char> {
    match spec_browser_for_component(component) {
        Some(b) => spec_display_name(b),
        None => "Unknown browser"@,
    }
}

/// What the daemon reports of a browser extension.
#[derive(Debug, Clone, PartialEq, Eq)]
pub struct BrowserExtensionStatus {
    pub state: ExtensionState,
    pub detail: String,
    /// Whole seconds since the last heartbeat, when there was one.
    pub age_seconds: Option<i64>,
    /// Whether the last heartbeat came during the current browser session.
    pub current_session_heartbeat: bool,
    /// The seconds left of the startup grace period while starting, else 0.
    pub startup_grace_remaining_seconds: i64,
}

/// When the heartbeat, if any, was seen.
pub open spec fn last_seen_of(heartbeat: Option<&ExtensionHeartbeat>) -> Option<int> {
    match heartbeat {
        Some(h) => Some(h.last_seen_at_nanos as int),
        None => None,
    }
}

/// An optional time as an optional integer.
pub open spec fn opt_int(t: Option<i64>) -> Option<int> {
    match t {
        Some(v) => Some(v as int),
        None => None,
    }
}

/// How a browser extension is doing, given its last heartbeat, the
/// heartbeat timeout, the time now, whether the browser runs, when its
/// current session started and the startup grace period (times in
/// nanoseconds since the Unix epoch, periods in seconds).
pub fn browser_extension_status(
    component: &str,
    heartbeat: Option<&ExtensionHeartbeat>,
    heartbeat_timeout_seconds: u64,
    now: i64,
    browser_running: bool,
    session_started_at: Option<i64>,
    startup_grace_seconds: i64,
) -> (r: BrowserExtensionStatus)
    ensures
        ({
            let last_seen = last_seen_of(heartbeat);
            let session = opt_int(session_started_at);
            let state = spec_extension_state(
                heartbeat_timeout_seconds,
                now as int,
                browser_running,
                last_seen,
                session,
                startup_grace_seconds as int,
            );
            &&& r.state == state
            &&& r.detail@ == spec_extension_detail(
                spec_component_label(component@),
                heartbeat_timeout_seconds,
                now as int,
                browser_running,
                last_seen,
                session,
                startup_grace_seconds as int,
            )
            &&& opt_int(r.age_seconds) == heartbeat_age(last_seen, now as int)
            &&& r.current_session_heartbeat == heartbeat_in_session(last_seen, session)
            &&& r.startup_grace_remaining_seconds == if state == ExtensionState::Starting {
                grace_remaining(session, now as int, startup_grace_seconds as int)
            } else {
                0
            }
        }),
{
    let label = browser_name_for_component(component);
    let ghost last_seen = last_seen_of(heartbeat);
    let ghost session = opt_int(session_started_at);
    let ghost grace = startup_grace_seconds as int;
    let age_seconds: Option<i64> = match heartbeat {
        Some(h) => Some(seconds_between(h.last_seen_at_nanos, now)),
        None => None,
    };
    let current_session = match (heartbeat, session_started_at) {
        (Some(h), Some(started)) => h.last_seen_at_nanos >= started,
        _ => false,
    };
    let elapsed: Option<i64> = match session_started_at {
        Some(started) => Some(seconds_between(started, now)),
        None => None,
    };
    let remaining: i64 = match elapsed {
        Some(e) => if startup_grace_seconds as i128 - e as i128 > 0 {
            (startup_grace_seconds as i128 - e as i128) as i64
        } else {
            0
        },
        None => startup_grace_seconds,
    };
    assert(remaining == grace_remaining(session, now as int, grace));
    proof {
        reveal_strlit("");
    }
    let (state, detail) = if !browser_running {
        (
            ExtensionState::Inactive,
            concat3(label, " is not running; no extension heartbeat is expected", ""),
        )
    } else if !current_session {
        let within = match elapsed {
            Some(e) => e <= startup_grace_seconds,
            None => true,
        };
        if within {
            let n = i64_to_decimal(remaining);
            let head = concat3(
                label,
                " is starting; waiting for an extension heartbeat from this launch (",
                n.as_str(),
            );
            (ExtensionState::Starting, concat3(head.as_str(), " second(s) remaining)", ""))
        } else {
            let n = i64_to_decimal(startup_grace_seconds);
            let head = concat3(
                label,
                " is running, but no extension heartbeat from this launch arrived within the ",
                n.as_str(),
            );
            (ExtensionState::Missing, concat3(head.as_str(), "-second startup grace period", ""))
        }
    } else {
        let age = match age_seconds {
            Some(a) => a,
            None => 0,
        };
        let age_text = u64_to_decimal(age as u64);
        if heartbeat_timeout_seconds <= i64::MAX as u64 && age as u64 <= heartbeat_timeout_seconds {
            let detail = concat3(
                "current-session heartbeat received ",
                age_text.as_str(),
                " second(s) ago; extension installation and enabled state are confirmed",
            );
            (ExtensionState::Active, detail)
        } else {
            let timeout_text = u64_to_decimal(heartbeat_timeout_seconds);
            let head = concat3(
                label,
                " is running, but its current-session heartbeat is ",
                age_text.as_str(),
            );
            let middle = concat3(
                head.as_str(),
                " second(s) old (extension fail-closed timeout: ",
                timeout_text.as_str(),
            );
            (ExtensionState::Stale, concat3(middle.as_str(), " seconds)", ""))
        }
    };
    let startup_grace_remaining_seconds = if state == ExtensionState::Starting {
        remaining
    } else {
        0
    };
    BrowserExtensionStatus {
        state,
        detail,
        age_seconds,
        current_session_heartbeat: current_session,
        startup_grace_remaining_seconds,
    }
}

/// The text in which chrono writes the UTC time `nanos` nanoseconds after
/// the Unix epoch: RFC 3339, with `Z` and as many fraction digits as needed.
pub uninterp spec fn utc_timestamp_text(nanos: i64) -> Seq<char>;

/// Calls chrono's `DateTime::<Utc>::from_timestamp_nanos` and then
/// `to_rfc3339_opts(SecondsFormat::AutoSi, true)`, the form that chrono's
/// serde support writes; the text is named, not stated.
#[verifier::external_body]
pub(crate) fn utc_timestamp(nanos: i64) -> (r: String)
    ensures
        r@ == utc_timestamp_text(nanos),
{
    chrono::DateTime::<chrono::Utc>::from_timestamp_nanos(nanos).to_rfc3339_opts(
        chrono::SecondsFormat::AutoSi,
        true,
    )
}

/// A string member of the heartbeat's details, when they parse to a JSON
/// object that has it.
pub open spec fn detail_member(heartbeat: Option<&ExtensionHeartbeat>, key: Seq<char>) -> Option<Seq<char>> {
    match heartbeat {
        Some(h) => match h.details {
            Some(d) => json_member_str(vstd::utf8::encode_utf8(d@), key),
            None => None,
        },
        None => None,
    }
}

/// An optional string as a JSON piece.
pub open spec fn text_or_null(t: Option<Seq<char>>) -> PieceView {
    match t {
        Some(s) => PieceView::Text(s),
        None => PieceView::Null,
    }
}

/// An optional time as a JSON piece.
pub open spec fn time_or_null(t: Option<i64>) -> PieceView {
    match t {
        Some(n) => PieceView::Text(utc_timestamp_text(n)),
        None => PieceView::Null,
    }
}

/// The members of the status report of a browser extension.
pub open spec fn status_members(
    heartbeat: Option<&ExtensionHeartbeat>,
    component: Seq<char>,
    timeout: u64,
    now: i64,
    running: bool,
    session: Option<i64>,
    grace: i64,
) -> Seq<(Seq<char>, PieceView)> {
    let last_seen = last_seen_of(heartbeat);
    let state = spec_extension_state(timeout, now as int, running, last_seen, opt_int(session), grace as int);
    let label = spec_component_label(component);
    seq![
        ("state"@, PieceView::Text(spec_extension_state_name(state))),
        ("component"@, PieceView::Text(component)),
        ("installed_enabled"@, PieceView::Text(if heartbeat is Some {
            "confirmed"@
        } else {
            "unconfirmed"@
        })),
        ("last_seen_at"@, time_or_null(match heartbeat {
            Some(h) => Some(h.last_seen_at_nanos),
            None => None,
        })),
        ("age_seconds"@, match heartbeat_age(last_seen, now as int) {
            Some(a) => PieceView::Integer(a),
            None => PieceView::Null,
        }),
        ("heartbeat_timeout_seconds"@, PieceView::Integer(timeout as int)),
        ("browser"@, PieceView::Text(match detail_member(heartbeat, "browser"@) {
            Some(b) => b,
            None => label,
        })),
        ("browser_running"@, PieceView::Bool(running)),
        ("session_started_at"@, time_or_null(session)),
        ("current_session_heartbeat"@, PieceView::Bool(heartbeat_in_session(last_seen, opt_int(session)))),
        ("startup_grace_seconds"@, PieceView::Integer(grace as int)),
        ("startup_grace_remaining_seconds"@, PieceView::Integer(if state == ExtensionState::Starting {
            grace_remaining(opt_int(session), now as int, grace as int)
        } else {
            0
        })),
        ("extension_id"@, text_or_null(detail_member(heartbeat, "extension_id"@))),
        ("extension_version"@, text_or_null(detail_member(heartbeat, "extension_version"@))),
        ("detail"@, PieceView::Text(spec_extension_detail(
            label,
            timeout,
            now as int,
            running,
            last_seen,
            opt_int(session),
            grace as int,
        ))),
    ]
}

/// A string member of the heartbeat's details.
fn detail_text(heartbeat: Option<&ExtensionHeartbeat>, key: &str) -> (r: Option<String>)
    ensures
        match detail_member(heartbeat, key@) {
            Some(s) => r matches Some(t) && t@ == s,
            None => r is None,
        },
{
    match heartbeat {
        Some(h) => match &h.details {
            Some(d) => member_str(d.as_str().as_bytes(), key),
            None => None,
        },
        None => None,
    }
}

/// An optional string as a JSON piece.
fn text_piece_or_null(t: Option<String>) -> (r: JsonPiece)
    ensures
        r@ == text_or_null(match t {
            Some(s) => Some(s@),
            None => None,
        }),
{
    match t {
        Some(s) => JsonPiece::Text(s),
        None => JsonPiece::Null,
    }
}

/// An optional time as a JSON piece.
fn time_piece_or_null(t: Option<i64>) -> (r: JsonPiece)
    ensures
        r@ == time_or_null(t),
{
    match t {
        Some(n) => JsonPiece::Text(utc_timestamp(n)),
        None => JsonPiece::Null,
    }
}

/// The status report of a browser extension, as a JSON object: its state,
/// the explaining sentence, the heartbeat's age and details, and the
/// startup grace period (see [`browser_extension_status`]).
pub fn browser_extension_status_json(
    heartbeat: Option<&ExtensionHeartbeat>,
    component: &str,
    heartbeat_timeout_seconds: u64,
    now: i64,
    browser_running: bool,
    session_started_at: Option<i64>,
    startup_grace_seconds: i64,
) -> (r: Vec<u8>)
    ensures
        r@ == json_object_text(
            status_members(
                heartbeat,
                component@,
                heartbeat_timeout_seconds,
                now,
                browser_running,
                session_started_at,
                startup_grace_seconds,
            ),
        ),
{
    let status = browser_extension_status(
        component,
        heartbeat,
        heartbeat_timeout_seconds,
        now,
        browser_running,
        session_started_at,
        startup_grace_seconds,
    );
    let label = browser_name_for_component(component);
    let browser = match detail_text(heartbeat, "browser") {
        Some(b) => b,
        None => owned(label),
    };
    let installed = if heartbeat.is_some() {
        "confirmed"
    } else {
        "unconfirmed"
    };
    let last_seen = match heartbeat {
        Some(h) => Some(h.last_seen_at_nanos),
        None => None,
    };
    let age = match status.age_seconds {
        Some(a) => JsonPiece::Integer(a),
        None => JsonPiece::Null,
    };
    let mut members: Vec<(String, JsonPiece)> = Vec::new();
    members.push((owned("state"), JsonPiece::Text(owned(extension_state_name(status.state)))));
    members.push((owned("component"), JsonPiece::Text(owned(component))));
    members.push((owned("installed_enabled"), JsonPiece::Text(owned(installed))));
    members.push((owned("last_seen_at"), time_piece_or_null(last_seen)));
    members.push((owned("age_seconds"), age));
    members.push((owned("heartbeat_timeout_seconds"), JsonPiece::Unsigned(heartbeat_timeout_seconds)));
    members.push((owned("browser"), JsonPiece::Text(browser)));
    members.push((owned("browser_running"), JsonPiece::Bool(browser_running)));
    members.push((owned("session_started_at"), time_piece_or_null(session_started_at)));
    members.push((owned("current_session_heartbeat"), JsonPiece::Bool(status.current_session_heartbeat)));
    members.push((owned("startup_grace_seconds"), JsonPiece::Integer(startup_grace_seconds)));
    members.push((
        owned("startup_grace_remaining_seconds"),
        JsonPiece::Integer(status.startup_grace_remaining_seconds),
    ));
    members.push((owned("extension_id"), text_piece_or_null(detail_text(heartbeat, "extension_id"))));
    members.push((
        owned("extension_version"),
        text_piece_or_null(detail_text(heartbeat, "extension_version")),
    ));
    members.push((owned("detail"), JsonPiece::Text(status.detail)));
    assert(member_views(members@) =~= status_members(
        heartbeat,
        component@,
        heartbeat_timeout_seconds,
        now,
        browser_running,
        session_started_at,
        startup_grace_seconds,
    ));
    object_json(&members)
}

} // verus!
