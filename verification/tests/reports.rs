use blockuntu::chrome_policy::{ChromePolicyStatus, ChromiumIncognitoMode};
use blockuntu::daemon_error::DaemonError;
use blockuntu::deadlines::{
    active_tier1_site_list_edit_allowed, enforcement_state_name, tier1_edit_unlocked_until,
    tier1_edit_window_active, uninstall_handoff_active,
};
use blockuntu::event_log::{event_counts, log_summary_json};
use blockuntu::firefox_policy::FirefoxPolicyStatus;
use blockuntu::hosts::command_error;
use blockuntu::incognito::{ChromiumIncognitoDisableScope, ChromiumIncognitoPolicySettings};
use blockuntu::policy_recovery::command_error as recovery_command_error;
use blockuntu::process_scan::SupportedBrowser;
use blockuntu::status_reports::{chromium_policy_status_json, gecko_policy_status_json};
use serde_json::Value;

const EVENT_LOG: &str = "2026-07-15T10:00:00Z kind=\"website_blocked\" target=\"example.com\" details=None\n\
2026-07-15T10:01:00Z kind=\"app_blocked\" target=\"game\" details=None\n\
2026-07-15T10:02:00Z kind=\"website_blocked\" target=\"example.org\" details=None\n";

#[test]
fn summarizes_events_from_the_plain_log_file() {
    let summary: Value = serde_json::from_slice(&log_summary_json("/var/log/blockuntu.log", EVENT_LOG))
        .expect("summary should be JSON");
    assert_eq!(summary["path"], "/var/log/blockuntu.log");
    assert_eq!(summary["total_events"], 3);
    assert_eq!(summary["event_counts"]["website_blocked"], 2);
    assert_eq!(summary["event_counts"]["app_blocked"], 1);
}

#[test]
fn event_counts_are_sorted_by_kind_and_skip_lines_without_one() {
    let counts = event_counts("x kind=\"b\"\nno kind here\ny kind=\"a\"\nz kind=\"b\"\nw kind=\"\"\n");
    assert_eq!(counts, vec![("a".to_string(), 1), ("b".to_string(), 2)]);
    assert!(event_counts("").is_empty());
    let empty: Value = serde_json::from_slice(&log_summary_json("log", "")).expect("JSON");
    assert_eq!(empty["total_events"], 0);
    assert_eq!(empty["event_counts"], Value::Object(serde_json::Map::new()));
}

fn chrome_status() -> ChromePolicyStatus {
    ChromePolicyStatus {
        browser: "Chrome".to_string(),
        path: "/etc/opt/chrome/policies/managed/blockuntu.json".to_string(),
        extension_id: "ext".to_string(),
        update_url: "https://clients2.google.com/service/update2/crx".to_string(),
        policy_exists: false,
        valid_json: false,
        compliant: false,
        force_install_configured: false,
        incognito_mode: ChromiumIncognitoMode::ManualConsent,
        incognito_mode_configured: true,
        incognito_url_block_count: 0,
        detail: "policy file is missing".to_string(),
    }
}

fn settings(blocklist_len: usize) -> ChromiumIncognitoPolicySettings {
    ChromiumIncognitoPolicySettings {
        configured_mode: ChromiumIncognitoMode::PolicyUrlBlocking,
        mode: ChromiumIncognitoMode::PolicyUrlBlocking,
        disable_scope: ChromiumIncognitoDisableScope::AllTime,
        private_browsing_disabled: false,
        url_blocklist: (0..blocklist_len).map(|i| format!("site{i}.example")).collect(),
        unsupported_pattern_count: 2,
    }
}

fn chromium_report(
    status: &ChromePolicyStatus,
    blocklist_len: usize,
    managed: bool,
    defer: bool,
    seen: bool,
) -> Value {
    serde_json::from_slice(&chromium_policy_status_json(
        status,
        &settings(blocklist_len),
        SupportedBrowser::Chrome,
        managed,
        defer,
        seen,
    ))
    .expect("report should be JSON")
}

#[test]
fn chromium_report_keeps_the_file_status_when_managed() {
    let report = chromium_report(&chrome_status(), 3, true, false, false);
    assert_eq!(report["compliant"], false);
    assert_eq!(report["detail"], "policy file is missing");
    assert_eq!(report["incognito_mode"], "manual_consent");
    assert_eq!(report["incognito_unsupported_pattern_count"], 2);
    assert_eq!(report["incognito_url_block_limit_exceeded"], false);
    assert_eq!(report["managed"], true);
}

#[test]
fn chromium_report_explains_unmanaged_deferred_and_oversized_policies() {
    let unmanaged = chromium_report(&chrome_status(), 3, false, false, false);
    assert_eq!(unmanaged["compliant"], true);
    assert_eq!(unmanaged["force_install_configured"], true);
    assert_eq!(
        unmanaged["detail"],
        "Chrome policy management is disabled; install and enable the extension manually"
    );
    let deferred = chromium_report(&chrome_status(), 3, true, true, false);
    assert_eq!(
        deferred["detail"],
        "Chrome policy repair is deferred until the first extension heartbeat"
    );
    let active = chromium_report(&chrome_status(), 3, true, true, true);
    assert_eq!(active["compliant"], false);
    assert_eq!(active["active_after_heartbeat"], true);
    let mut compliant = chrome_status();
    compliant.compliant = true;
    let oversized = chromium_report(&compliant, 1001, true, false, false);
    assert_eq!(oversized["compliant"], false);
    assert_eq!(oversized["incognito_url_block_limit_exceeded"], true);
    assert_eq!(
        oversized["detail"],
        "Chrome private URL policy has 1001 active patterns, but browsers apply at most 1000"
    );
}

#[test]
fn gecko_report_explains_unmanaged_and_deferred_policies() {
    let status = FirefoxPolicyStatus {
        path: "/usr/lib/librewolf/distribution/policies.json".to_string(),
        extension_id: "blockuntu@example.local".to_string(),
        policy_exists: true,
        valid_json: true,
        compliant: false,
        private_browsing_enabled: false,
        private_browsing_available: true,
        install_url: None,
        detail: "extension entry is missing".to_string(),
    };
    let managed: Value = serde_json::from_slice(&gecko_policy_status_json(
        &status,
        SupportedBrowser::LibreWolf,
        true,
        false,
        false,
    ))
    .expect("JSON");
    assert_eq!(managed["compliant"], false);
    assert_eq!(managed["install_url"], Value::Null);
    assert_eq!(managed["detail"], "extension entry is missing");
    let unmanaged: Value = serde_json::from_slice(&gecko_policy_status_json(
        &status,
        SupportedBrowser::LibreWolf,
        false,
        false,
        false,
    ))
    .expect("JSON");
    assert_eq!(unmanaged["compliant"], true);
    assert_eq!(
        unmanaged["detail"],
        "LibreWolf policy management is disabled; install and enable the extension manually"
    );
}

fn instant(text: &str) -> (i64, u32) {
    let t = chrono::DateTime::parse_from_rfc3339(text).expect("valid time");
    (t.timestamp(), t.timestamp_subsec_nanos())
}

#[test]
fn uninstall_handoff_lasts_until_its_stored_end() {
    let now = instant("2026-05-22T10:00:00Z");
    assert!(uninstall_handoff_active(Some("uninstalling"), Some("2026-05-22T10:05:00Z"), now));
    assert!(!uninstall_handoff_active(Some("uninstalling"), Some("2026-05-22T09:59:59Z"), now));
    assert!(!uninstall_handoff_active(Some("uninstalling"), Some("2026-05-22T10:00:00Z"), now));
    assert!(!uninstall_handoff_active(Some("active"), Some("2026-05-22T10:05:00Z"), now));
    assert!(!uninstall_handoff_active(Some("uninstalling"), Some("soon"), now));
    assert!(!uninstall_handoff_active(Some("uninstalling"), None, now));
    assert_eq!(enforcement_state_name(true), "uninstalling");
    assert_eq!(enforcement_state_name(false), "active");
}

#[test]
fn tier1_edit_unlock_window_reads_the_stored_end() {
    let now = instant("2026-05-22T10:00:00Z");
    assert_eq!(
        tier1_edit_unlocked_until(Some("2026-05-22T12:30:00+02:00")),
        Some(instant("2026-05-22T10:30:00Z"))
    );
    assert_eq!(tier1_edit_unlocked_until(Some("never")), None);
    assert!(tier1_edit_window_active(Some("2026-05-22T10:00:00.5Z"), now));
    assert!(!tier1_edit_window_active(None, now));
    assert!(active_tier1_site_list_edit_allowed(true, Some("2026-05-22T10:30:00Z"), now));
    assert!(!active_tier1_site_list_edit_allowed(false, Some("2026-05-22T10:30:00Z"), now));
}

#[test]
fn attribute_command_failures_name_the_command_and_its_output() {
    let args = vec!["-d".to_string()];
    assert_eq!(
        command_error("lsattr", &args, "/etc/hosts", "exit status: 1", "", "  not supported \n"),
        "lsattr -d /etc/hosts exited with exit status: 1: not supported"
    );
    let args = vec!["+i".to_string()];
    assert_eq!(
        command_error("chattr", &args, "/etc/hosts", "exit status: 1", "out", "err"),
        "chattr +i /etc/hosts exited with exit status: 1: out; err"
    );
    assert_eq!(
        command_error("chattr", &args, "/etc/hosts", "exit status: 1", " ", ""),
        "chattr +i /etc/hosts exited with exit status: 1"
    );
    assert_eq!(
        recovery_command_error("chattr", "+i", "/var/lib/blockuntu/policy.toml", "denied\n"),
        DaemonError::InvalidRequest("chattr +i failed for /var/lib/blockuntu/policy.toml: denied".to_string())
    );
    assert_eq!(
        recovery_command_error("chattr", "-i", "/p", ""),
        DaemonError::InvalidRequest("chattr -i failed for /p".to_string())
    );
}
