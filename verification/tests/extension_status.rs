use blockuntu::extension_status::{
    browser_extension_status, browser_extension_status_json, seconds_between, ExtensionHeartbeat,
    ExtensionState,
};
use blockuntu::text::i64_to_decimal;
use chrono::TimeZone;
use serde_json::Value;

const SECOND: i64 = 1_000_000_000;

fn at(hour: u32, minute: u32, second: u32) -> i64 {
    chrono::Utc
        .with_ymd_and_hms(2026, 5, 22, hour, minute, second)
        .single()
        .expect("timestamp should be valid")
        .timestamp_nanos_opt()
        .expect("timestamp should fit")
}

fn report(
    heartbeat: Option<&ExtensionHeartbeat>,
    component: &str,
    timeout: u64,
    now: i64,
    running: bool,
    session: Option<i64>,
    grace: i64,
) -> Value {
    serde_json::from_slice(&browser_extension_status_json(
        heartbeat, component, timeout, now, running, session, grace,
    ))
    .expect("status should be JSON")
}

#[test]
fn reports_missing_extension_heartbeat() {
    let now = at(10, 0, 0);
    let response = report(None, "firefox_extension", 15, now, true, Some(now - 61 * SECOND), 60);
    assert_eq!(response["state"], "missing");
    assert_eq!(response["installed_enabled"], "unconfirmed");
    assert_eq!(
        response["detail"],
        "Firefox is running, but no extension heartbeat from this launch arrived within the 60-second startup grace period"
    );
}

#[test]
fn reports_closed_and_starting_browser_states_without_an_error() {
    let now = at(10, 0, 0);
    let closed = report(None, "firefox_extension", 15, now, false, None, 60);
    assert_eq!(closed["state"], "inactive");
    assert_eq!(closed["detail"], "Firefox is not running; no extension heartbeat is expected");

    let starting = report(None, "firefox_extension", 15, now, true, Some(now - 20 * SECOND), 60);
    assert_eq!(starting["state"], "starting");
    assert_eq!(starting["startup_grace_remaining_seconds"], 40);
    assert_eq!(
        starting["detail"],
        "Firefox is starting; waiting for an extension heartbeat from this launch (40 second(s) remaining)"
    );
}

#[test]
fn reports_recent_extension_heartbeat_as_active() {
    let now = at(10, 0, 5);
    let heartbeat = ExtensionHeartbeat {
        component: "firefox_extension".to_string(),
        last_seen_at_nanos: now - 5 * SECOND,
        details: Some(
            r#"{"browser":"firefox","extension_id":"blockuntu@example.local","extension_version":"0.2.0"}"#
                .to_string(),
        ),
    };
    let response =
        report(Some(&heartbeat), "firefox_extension", 15, now, true, Some(now - 10 * SECOND), 60);
    assert_eq!(response["state"], "active");
    assert_eq!(response["installed_enabled"], "confirmed");
    assert_eq!(response["extension_id"], "blockuntu@example.local");
    assert_eq!(response["extension_version"], "0.2.0");
    assert_eq!(response["age_seconds"], 5);
    assert_eq!(response["last_seen_at"], "2026-05-22T10:00:00Z");
    assert_eq!(response["session_started_at"], "2026-05-22T09:59:55Z");
    assert_eq!(response["current_session_heartbeat"], true);
    assert_eq!(response["startup_grace_remaining_seconds"], 0);
}

#[test]
fn reports_stale_extension_heartbeat() {
    let now = at(10, 0, 20);
    let heartbeat = ExtensionHeartbeat {
        component: "firefox_extension".to_string(),
        last_seen_at_nanos: now - 20 * SECOND,
        details: None,
    };
    let response =
        report(Some(&heartbeat), "firefox_extension", 15, now, true, Some(now - 25 * SECOND), 60);
    assert_eq!(response["state"], "stale");
    assert_eq!(response["installed_enabled"], "confirmed");
    assert_eq!(response["age_seconds"], 20);
    assert_eq!(
        response["detail"],
        "Firefox is running, but its current-session heartbeat is 20 second(s) old (extension fail-closed timeout: 15 seconds)"
    );
}

#[test]
fn reports_chrome_extension_heartbeat_separately() {
    let now = at(10, 1, 0);
    let chrome_heartbeat = ExtensionHeartbeat {
        component: "chrome_extension".to_string(),
        last_seen_at_nanos: at(10, 0, 0),
        details: Some(
            r#"{"browser":"chrome","extension_id":"opfljaancedgklbpnbpjfhdbbhbfpnoc","extension_version":"0.2.1","identity_resolution":"reported","reported_component":"chrome_extension","resolved_component":"chrome_extension"}"#
                .to_string(),
        ),
    };
    let response =
        report(Some(&chrome_heartbeat), "chrome_extension", 75, now, true, Some(now - 70 * SECOND), 60);
    assert_eq!(response["component"], "chrome_extension");
    assert_eq!(response["state"], "active");
    assert_eq!(response["browser"], "chrome");
    assert_eq!(response["extension_id"], "opfljaancedgklbpnbpjfhdbbhbfpnoc");

    let firefox_status =
        report(None, "firefox_extension", 15, now, true, Some(now - 61 * SECOND), 60);
    assert_eq!(firefox_status["state"], "missing");
    assert_eq!(firefox_status["component"], "firefox_extension");
    assert_eq!(firefox_status["browser"], "Firefox");
}

#[test]
fn a_heartbeat_from_before_the_session_does_not_count() {
    let now = at(10, 0, 30);
    let heartbeat = ExtensionHeartbeat {
        component: "firefox_extension".to_string(),
        last_seen_at_nanos: now - 40 * SECOND,
        details: None,
    };
    let status = browser_extension_status(
        "firefox_extension",
        Some(&heartbeat),
        15,
        now,
        true,
        Some(now - 30 * SECOND),
        60,
    );
    assert_eq!(status.state, ExtensionState::Starting);
    assert!(!status.current_session_heartbeat);
    assert_eq!(status.age_seconds, Some(40));
    assert_eq!(status.startup_grace_remaining_seconds, 30);
}

#[test]
fn an_unknown_component_is_reported_under_a_generic_name() {
    let status = browser_extension_status("mystery_extension", None, 15, 0, false, None, 60);
    assert_eq!(status.detail, "Unknown browser is not running; no extension heartbeat is expected");
}

#[test]
fn whole_seconds_round_down_and_never_go_negative() {
    assert_eq!(seconds_between(0, 1_999_999_999), 1);
    assert_eq!(seconds_between(5 * SECOND, 0), 0);
    assert_eq!(seconds_between(i64::MIN, i64::MAX), 18_446_744_073);
}

#[test]
fn signed_numbers_are_written_with_their_sign() {
    assert_eq!(i64_to_decimal(-40), "-40");
    assert_eq!(i64_to_decimal(0), "0");
    assert_eq!(i64_to_decimal(i64::MIN), "-9223372036854775808");
    assert_eq!(i64_to_decimal(i64::MAX), "9223372036854775807");
}
