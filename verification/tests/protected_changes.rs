use blockuntu::access::{
    authorize_gui_uninstall, operator_window_open, protected_access_is_open, protected_access_mode,
    protected_access_mode_label, unsupported_browser_block_is_active, ProtectedAccessMode,
};
use blockuntu::credentials::{tier1_edit_credential_hash, tier1_edit_unlock_check};
use blockuntu::daemon_error::DaemonError;
use blockuntu::deadlines::{
    begin_uninstall_handoff, enforcement_state_name, uninstall_handoff_active, UNINSTALL_HANDOFF_SECONDS,
};

fn error_text(result: Result<(), DaemonError>) -> String {
    match result {
        Err(DaemonError::InvalidRequest(message)) => message,
        other => panic!("expected an invalid request, got {other:?}"),
    }
}

#[test]
fn tier1_edit_unlock_is_limited_to_sunday_evening_operator_window() {
    let mode = protected_access_mode(None, Some("true")).expect("mode should read");
    assert_eq!(mode, ProtectedAccessMode::Sunday);
    let hash = tier1_edit_credential_hash("salt", "BLOCKUNTU-TIER1-EDIT-TEST");
    // 2026-05-24 is a Sunday; 19:59 local time is before the window.
    let before = protected_access_is_open(mode, false, operator_window_open(true, 19, 59), false);
    let unlock = tier1_edit_unlock_check(
        "BLOCKUNTU-TIER1-EDIT-TEST",
        Some("salt"),
        Some(&hash),
        None,
        mode,
        before,
    );
    match unlock {
        Err(DaemonError::InvalidRequest(message)) => assert!(message.contains("Sunday 20:00-23:59")),
        other => panic!("unlock should be refused, got {other:?}"),
    }
    assert_eq!(protected_access_mode_label(mode), "Sunday 20:00-23:59");
    assert!(protected_access_is_open(mode, false, operator_window_open(true, 20, 0), false));
}

#[test]
fn prepare_uninstall_is_limited_to_operator_window() {
    let mode = protected_access_mode(None, Some("true")).expect("mode should read");
    // 2026-05-25 is a Monday.
    let open = protected_access_is_open(mode, false, operator_window_open(false, 20, 0), false);
    let message = error_text(authorize_gui_uninstall(false, false, "", mode, open));
    assert!(message.contains("Sunday 20:00-23:59"));
}

#[test]
fn expired_uninstall_handoff_rearms_browser_extension_mode() {
    let now = (1_779_444_000_i64, 0_u32);
    let active = uninstall_handoff_active(Some("uninstalling"), Some("2026-05-22T09:59:59+00:00"), now);
    assert!(!active);
    assert_eq!(enforcement_state_name(active), "active");
}

#[test]
fn protected_access_mode_controls_unsupported_browser_block_activation() {
    // A schedule is active on Friday 10:00; Sunday 20:00 is in the window.
    let friday_open = operator_window_open(false, 10, 0);
    let sunday_open = operator_window_open(true, 20, 0);
    let mode = protected_access_mode(Some("no_active_schedule_or_detox"), None).expect("mode");
    assert!(!unsupported_browser_block_is_active(true, false, mode, friday_open, false));
    let mode = protected_access_mode(Some("all_time"), None).expect("mode");
    assert!(unsupported_browser_block_is_active(true, false, mode, friday_open, false));
    let mode = protected_access_mode(Some("sunday"), None).expect("mode");
    assert!(!unsupported_browser_block_is_active(true, false, mode, friday_open, false));
    assert!(unsupported_browser_block_is_active(true, false, mode, sunday_open, false));
}

#[test]
fn uninstall_handoff_lasts_its_seconds_and_reads_back() {
    let now = (1_779_645_600, 0);
    let handoff = begin_uninstall_handoff(now);
    assert_eq!(UNINSTALL_HANDOFF_SECONDS, 30);
    assert_eq!(handoff.until, (1_779_645_630, 0));
    assert_eq!(handoff.until_text, "2026-05-24T18:00:30+00:00");
    let mode = enforcement_state_name(true);
    assert!(uninstall_handoff_active(Some(mode), Some(&handoff.until_text), now));
    assert!(uninstall_handoff_active(Some(mode), Some(&handoff.until_text), (1_779_645_629, 999_999_999)));
    assert!(!uninstall_handoff_active(Some(mode), Some(&handoff.until_text), handoff.until));
    let fraction = begin_uninstall_handoff((1_779_645_600, 250_000_000));
    assert_eq!(fraction.until_text, "2026-05-24T18:00:30.250+00:00");
}
