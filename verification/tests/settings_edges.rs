use std::cell::RefCell;
use std::collections::HashMap;

use blockuntu::chrome_policy::{chromium_incognito_mode, ChromiumIncognitoMode};
use blockuntu::daemon_error::DaemonError;
use blockuntu::extension_identity::{
    extension_browser_running, extension_heartbeat_timeout_for, resolve_extension_heartbeat_component,
};
use blockuntu::firefox_policy::FirefoxPolicyManager;
use blockuntu::incognito::{
    chromium_incognito_disable_scope, chromium_incognito_disable_scope_description,
    chromium_incognito_disable_scope_name, ensure_chromium_incognito_settings_change_allowed,
    ensure_chromium_incognito_url_blocklist_within_limit, ChromiumIncognitoDisableScope,
    ChromiumIncognitoPolicySettings,
};
use blockuntu::access::{authorize_gui_uninstall, ProtectedAccessMode};
use blockuntu::rpc_messages::{
    controlled_reason_detail, controlled_reason_summary, controlled_reason_to_str,
    detox_target_kind_to_str, jsonrpc_error, ControlledBlockReason, DetoxTargetKind,
};
use blockuntu::service::next_policy_repair_delay;
use blockuntu::policy_recovery::PolicyRecoveryManager;
use blockuntu::process_scan::{
    attach_detected_window_titles, attach_window_titles, kill_processes, ProcessInfo,
    ProcessKiller, SupportedBrowser, WindowTitleProvider,
};
use blockuntu::snap_bridge::snap_native_bridge_token;
use serde_json::Value;

#[test]
fn private_window_settings_are_read_from_their_stored_names() {
    assert_eq!(chromium_incognito_mode(None), Ok(ChromiumIncognitoMode::ManualConsent));
    assert_eq!(chromium_incognito_mode(Some("disabled")), Ok(ChromiumIncognitoMode::Disabled));
    assert_eq!(
        chromium_incognito_mode(Some("off")),
        Err(DaemonError::InvalidRequest("invalid Chromium private browsing mode 'off'".to_string()))
    );
    assert_eq!(chromium_incognito_disable_scope(None), Ok(ChromiumIncognitoDisableScope::AllTime));
    assert_eq!(
        chromium_incognito_disable_scope(Some("active_schedule_or_detox")),
        Ok(ChromiumIncognitoDisableScope::ActiveScheduleOrDetox)
    );
    assert!(chromium_incognito_disable_scope(Some("sometimes")).is_err());
    assert_eq!(
        chromium_incognito_disable_scope_name(ChromiumIncognitoDisableScope::ActiveScheduleOrDetox),
        "active_schedule_or_detox"
    );
    assert_eq!(
        chromium_incognito_disable_scope_description(ChromiumIncognitoDisableScope::AllTime),
        "at all times"
    );
}

#[test]
fn private_window_changes_and_blocklists_are_refused_outside_their_limits() {
    assert_eq!(
        ensure_chromium_incognito_settings_change_allowed(
            ProtectedAccessMode::NoActiveScheduleOrDetox,
            false,
            false,
            false
        ),
        Err(DaemonError::InvalidRequest(
            "Chromium private browsing settings are only available while no schedule or Detox is active"
                .to_string()
        ))
    );
    assert_eq!(
        ensure_chromium_incognito_settings_change_allowed(ProtectedAccessMode::AllTime, false, false, false),
        Ok(())
    );
    let settings = ChromiumIncognitoPolicySettings {
        configured_mode: ChromiumIncognitoMode::PolicyUrlBlocking,
        mode: ChromiumIncognitoMode::PolicyUrlBlocking,
        disable_scope: ChromiumIncognitoDisableScope::AllTime,
        private_browsing_disabled: false,
        url_blocklist: vec!["x".to_string(); 1001],
        unsupported_pattern_count: 0,
    };
    assert_eq!(
        ensure_chromium_incognito_url_blocklist_within_limit(&settings),
        Err(DaemonError::InvalidRequest(
            "Chromium private URL policy supports at most 1000 active patterns; this configuration has 1001"
                .to_string()
        ))
    );
    let mut small = settings.clone();
    small.url_blocklist.truncate(1000);
    assert_eq!(ensure_chromium_incognito_url_blocklist_within_limit(&small), Ok(()));
}

#[test]
fn recovery_snapshot_manager_reports_its_file_and_attribute_needs() {
    let manager = PolicyRecoveryManager::new("/etc/blockuntu/policy-recovery.toml".to_string(), true);
    assert_eq!(manager.path(), "/etc/blockuntu/policy-recovery.toml");
    assert_eq!(manager.temp_path(), "/etc/blockuntu/.policy-recovery.toml.tmp");
    assert!(manager.clear_immutable_if_needed(true));
    assert!(!manager.clear_immutable_if_needed(false));
    assert!(manager.set_immutable_if_needed());
    let loose = PolicyRecoveryManager::new("/tmp/p.toml".to_string(), false);
    assert!(!loose.set_immutable_if_needed());
}

const OWNED_POLICY: &str =
    r#"{"policies":{"DisableDeveloperTools":false,"ExtensionSettings":{"other@example.local":{"installation_mode":"normal_installed"}}}}"#;

#[test]
fn a_merge_changes_only_this_programs_entries_and_restore_puts_them_back() {
    let manager = FirefoxPolicyManager::merging_existing_policy(
        "/usr/lib/librewolf/distribution/policies.json".to_string(),
        "blockuntu@example.local".to_string(),
        "https://example.invalid/blockuntu.xpi".to_string(),
        "/var/lib/blockuntu/librewolf.json".to_string(),
    );
    let backup = manager.merged_policy_backup(Some(OWNED_POLICY.as_bytes())).expect("backup");
    let merged = manager.merge_managed_settings(OWNED_POLICY.as_bytes()).expect("merge");
    let merged_value: Value = serde_json::from_slice(&merged).expect("JSON");
    assert_eq!(merged_value["policies"]["DisableDeveloperTools"], true);
    assert_eq!(
        merged_value["policies"]["ExtensionSettings"]["other@example.local"]["installation_mode"],
        "normal_installed"
    );
    let restored = manager.restore_managed_settings(&merged, &backup).expect("restore");
    let restored_value: Value = serde_json::from_slice(&restored).expect("JSON");
    let original: Value = serde_json::from_str(OWNED_POLICY).expect("JSON");
    assert_eq!(restored_value, original);
    assert!(manager.merge_managed_settings(b"{\"policies\":[]}").is_err());
    assert!(manager.merge_managed_settings(b"{}").is_err());
}

#[test]
fn strict_mode_keys_name_each_browser() {
    assert_eq!(SupportedBrowser::Brave.missing_since_key(), "strict_mode.brave_missing_since");
    assert_eq!(
        SupportedBrowser::Firefox.session_started_at_key(),
        "strict_mode.firefox_browser_session_started_at"
    );
}

fn process(pid: u32, name: &str) -> ProcessInfo {
    ProcessInfo {
        pid,
        executable_path: Some(format!("/usr/bin/{name}")),
        executable_basename: Some(name.to_string()),
        command_name: Some(name.to_string()),
        desktop_id: None,
        window_titles: Vec::new(),
    }
}

struct RecordingKiller {
    killed: RefCell<Vec<u32>>,
    refuse: Option<u32>,
}

impl ProcessKiller for RecordingKiller {
    fn kill(&self, pid: u32) -> Result<(), DaemonError> {
        if self.refuse == Some(pid) {
            return Err(DaemonError::KillFailed { pid, errno: 1 });
        }
        self.killed.borrow_mut().push(pid);
        Ok(())
    }
}

#[test]
fn only_blocked_processes_are_signalled_in_list_order() {
    let processes = vec![process(10, "game"), process(11, "editor"), process(12, "game")];
    let killer = RecordingKiller { killed: RefCell::new(Vec::new()), refuse: None };
    let events = kill_processes(&processes, &[12, 10], &killer).expect("kills succeed");
    assert_eq!(*killer.killed.borrow(), vec![10, 12]);
    assert_eq!(events.iter().map(|e| e.pid).collect::<Vec<_>>(), vec![10, 12]);
    assert_eq!(events[0].command_name.as_deref(), Some("game"));
    let stubborn = RecordingKiller { killed: RefCell::new(Vec::new()), refuse: Some(10) };
    assert_eq!(
        kill_processes(&processes, &[10, 12], &stubborn).unwrap_err(),
        DaemonError::KillFailed { pid: 10, errno: 1 }
    );
}

struct FixedTitles(Result<HashMap<u32, Vec<String>>, DaemonError>);

impl WindowTitleProvider for FixedTitles {
    fn titles_by_pid(&self) -> Result<HashMap<u32, Vec<String>>, DaemonError> {
        self.0.clone()
    }
}

#[test]
fn window_titles_are_attached_by_pid() {
    let mut processes = vec![process(10, "game"), process(11, "editor")];
    let mut titles = HashMap::new();
    titles.insert(11, vec!["notes.txt - Editor".to_string()]);
    attach_window_titles(&mut processes, &FixedTitles(Ok(titles.clone()))).expect("titles");
    assert!(processes[0].window_titles.is_empty());
    assert_eq!(processes[1].window_titles, vec!["notes.txt - Editor".to_string()]);

    let mut unchanged = vec![process(10, "game")];
    assert!(attach_window_titles(&mut unchanged, &FixedTitles(Err(DaemonError::LockPoisoned))).is_err());
    assert!(unchanged[0].window_titles.is_empty());

    let mut wayland = vec![process(11, "editor")];
    let snapshot =
        attach_detected_window_titles(&mut wayland, Some("wayland".to_string()), &FixedTitles(Ok(titles.clone())));
    assert!(!snapshot.support.available);
    assert!(wayland[0].window_titles.is_empty());
    let mut x11 = vec![process(11, "editor")];
    let snapshot = attach_detected_window_titles(&mut x11, Some("x11".to_string()), &FixedTitles(Ok(titles)));
    assert!(snapshot.support.available);
    assert_eq!(x11[0].window_titles.len(), 1);
}

#[test]
fn chromium_family_heartbeats_get_a_longer_timeout() {
    assert_eq!(extension_heartbeat_timeout_for(15, "chrome_extension"), 75);
    assert_eq!(extension_heartbeat_timeout_for(90, "brave_extension"), 90);
    assert_eq!(extension_heartbeat_timeout_for(15, "firefox_extension"), 15);
    assert_eq!(extension_heartbeat_timeout_for(15, "unknown"), 15);
}

#[test]
fn heartbeats_are_recorded_under_the_running_family_member() {
    let librewolf = vec![process(20, "librewolf")];
    assert!(extension_browser_running("librewolf_extension", &librewolf));
    assert!(!extension_browser_running("firefox_extension", &librewolf));
    assert!(!extension_browser_running("unknown", &librewolf));
    assert_eq!(resolve_extension_heartbeat_component("firefox_extension", &librewolf), "librewolf_extension");
    assert_eq!(resolve_extension_heartbeat_component("brave_extension", &librewolf), "brave_extension");
    assert_eq!(resolve_extension_heartbeat_component("mystery", &librewolf), "mystery");
}

#[test]
fn snap_bridge_tokens_are_sixty_four_hex_digits() {
    let token = "0123456789abcdef".repeat(4);
    assert_eq!(snap_native_bridge_token("/etc/t", &format!("  {token}\n")), Ok(token.clone()));
    assert_eq!(
        snap_native_bridge_token("/etc/t", &token[..63]),
        Err(DaemonError::InvalidRequest(
            "Snap native bridge token at /etc/t must be exactly 64 hexadecimal characters".to_string()
        ))
    );
    let bad = format!("{}g", &token[..63]);
    assert!(snap_native_bridge_token("/etc/t", &bad).is_err());
}

#[test]
fn the_repair_loop_wakes_for_the_nearest_boundary_or_detox_end() {
    assert_eq!(next_policy_repair_delay(60, false, None, &[]), 60);
    assert_eq!(next_policy_repair_delay(60, false, Some(20), &[]), 20);
    assert_eq!(next_policy_repair_delay(60, false, Some(90), &[]), 60);
    assert_eq!(next_policy_repair_delay(60, false, Some(20), &[30, 5, -3, 0]), 5);
    assert_eq!(next_policy_repair_delay(60, false, None, &[-1, 0]), 60);
    assert_eq!(next_policy_repair_delay(60, true, Some(1), &[1]), 60);
}

#[test]
fn jsonrpc_errors_carry_the_request_id_and_the_error() {
    let error: Value =
        serde_json::from_slice(&jsonrpc_error(Some(b"7"), -32601, "unsupported method", None)).expect("JSON");
    assert_eq!(error["jsonrpc"], "2.0");
    assert_eq!(error["id"], 7);
    assert_eq!(error["error"]["code"], -32601);
    assert_eq!(error["error"]["message"], "unsupported method");
    assert_eq!(error["error"]["data"], Value::Null);
    let anonymous: Value =
        serde_json::from_slice(&jsonrpc_error(None, -32700, "parse error", Some("line 1".to_string())))
            .expect("JSON");
    assert_eq!(anonymous["id"], Value::Null);
    assert_eq!(anonymous["error"]["data"], "line 1");
}

#[test]
fn block_reasons_are_reported_in_words() {
    assert_eq!(controlled_reason_to_str(ControlledBlockReason::AllowanceExhausted), "allowance_exhausted");
    assert_eq!(
        controlled_reason_summary(ControlledBlockReason::NoAllowance),
        "This Tier 3 target needs an explicit unlock."
    );
    assert_eq!(
        controlled_reason_detail(ControlledBlockReason::UnlockRequired),
        "Use the BlocKuntu GUI to request a temporary unlock if policy allows it."
    );
    assert_eq!(detox_target_kind_to_str(DetoxTargetKind::AppRule), "app_rule");
}

#[test]
fn gui_uninstall_needs_protected_access_unless_an_emergency_code_is_given() {
    assert_eq!(authorize_gui_uninstall(true, true, "moved", ProtectedAccessMode::Sunday, false), Ok(()));
    assert_eq!(
        authorize_gui_uninstall(false, true, "clock moved backwards", ProtectedAccessMode::AllTime, true),
        Err(DaemonError::InvalidRequest(
            "system clock integrity is tampered: clock moved backwards. Restore the system time before changing privileged state."
                .to_string()
        ))
    );
    assert_eq!(
        authorize_gui_uninstall(false, false, "", ProtectedAccessMode::Sunday, false),
        Err(DaemonError::InvalidRequest(
            "GUI uninstall are only available during Sunday 20:00-23:59".to_string()
        ))
    );
    assert_eq!(authorize_gui_uninstall(false, false, "", ProtectedAccessMode::Sunday, true), Ok(()));
}

#[test]
fn killing_stops_at_the_first_refusal_after_earlier_kills() {
    let processes = vec![process(10, "game"), process(11, "editor"), process(12, "game"), process(13, "game")];
    let killer = RecordingKiller { killed: RefCell::new(Vec::new()), refuse: Some(12) };
    assert_eq!(
        kill_processes(&processes, &[10, 12, 13], &killer).unwrap_err(),
        DaemonError::KillFailed { pid: 12, errno: 1 }
    );
    assert_eq!(*killer.killed.borrow(), vec![10]);
    let idle = RecordingKiller { killed: RefCell::new(Vec::new()), refuse: Some(10) };
    assert_eq!(kill_processes(&processes, &[], &idle).expect("nothing blocked"), Vec::new());
    assert!(idle.killed.borrow().is_empty());
}
