use blockuntu::access::{
    operator_window_open, protected_access_closed_error, protected_access_is_open,
    protected_access_mode, protected_access_mode_label, protected_access_mode_name,
    unsupported_browser_block_is_active, ProtectedAccessMode,
};
use blockuntu::daemon_error::DaemonError;
use blockuntu::event_log::event_kind_from_log_line;
use blockuntu::extension_identity::infer_browser_from_running_browsers;
use blockuntu::ids::{normalized_unique_ids, same_id_membership, PolicyAppendSummary};
use blockuntu::options::{command_or_serve, Command, PolicyRepairSwitches, DEFAULT_LIBREWOLF_POLICY_PATH};
use blockuntu::process_scan::{parse_wmctrl_titles, supported_browser_for_process, ProcessInfo, SupportedBrowser};
use blockuntu::service::{
    allowance_notification_body, config_path, default_detox_sessions_limit,
    default_pending_notifications_limit, listener_source, socket_activation, ListenerSource,
    SocketActivation,
};
use blockuntu::snap_bridge::{constant_time_equals, snap_native_bridge_payload};
use blockuntu::strict_mode::{
    browser_required_by_strict_mode, browser_startup_grace_seconds, is_blockuntu_name,
    is_blockuntu_process, strict_browser_health, strict_supported_browser_enforcement_enabled,
    ExtensionPresence,
};
use blockuntu::policy::StrictModeConfig;

fn process(name: &str) -> ProcessInfo {
    ProcessInfo {
        pid: 100,
        executable_path: None,
        executable_basename: Some(name.to_string()),
        command_name: Some(name.to_string()),
        desktop_id: None,
        window_titles: Vec::new(),
    }
}

fn strict(grace_seconds: u32) -> StrictModeConfig {
    StrictModeConfig {
        kill_supported_browser_if_extension_stale: true,
        require_firefox_extension: true,
        require_chrome_extension: false,
        grace_seconds,
        block_unsupported_browsers: false,
    }
}

#[test]
fn snap_native_bridge_requires_the_expected_token_and_payload() {
    let token = "a".repeat(64);
    let request = format!("BLOCKUNTU-SNAP-BRIDGE {token}\n{{\"jsonrpc\":\"2.0\"}}");

    assert_eq!(
        snap_native_bridge_payload(request.as_bytes(), &token).expect("token should match"),
        br#"{"jsonrpc":"2.0"}"#
    );
    assert!(snap_native_bridge_payload(b"BLOCKUNTU-SNAP-BRIDGE bad\n{}", &token).is_err());
    assert!(snap_native_bridge_payload(b"{}", &token).is_err());
}

#[test]
fn snap_native_bridge_token_comparison_is_exact() {
    assert!(constant_time_equals(b"same", b"same"));
    assert!(!constant_time_equals(b"same", b"different"));
    assert!(!constant_time_equals(b"same", b"sane"));
}

#[test]
fn snap_native_bridge_errors_name_the_problem() {
    let token = "t";
    let message = |request: &[u8]| match snap_native_bridge_payload(request, token) {
        Err(DaemonError::InvalidRequest(m)) => m,
        other => panic!("expected an invalid request, got {other:?}"),
    };
    assert_eq!(message(b"no newline"), "Snap native bridge request has no header");
    assert_eq!(
        message(b"HELLO t\n{}"),
        "Snap native bridge request has an invalid header"
    );
    assert_eq!(
        message(b"BLOCKUNTU-SNAP-BRIDGE u\n{}"),
        "Snap native bridge authentication failed"
    );
    assert_eq!(
        message(b"BLOCKUNTU-SNAP-BRIDGE t\n"),
        "Snap native bridge request has no JSON-RPC payload"
    );
}

#[test]
fn parses_wmctrl_titles_by_pid() {
    let titles =
        parse_wmctrl_titles("0x04000007  0 1234 host KMines - 4 mines\n0x04000008  0 0 host Panel\n");

    assert_eq!(titles.get(&1234), Some(&vec!["KMines - 4 mines".to_string()]));
}

#[test]
fn resolves_generic_extension_identity_when_one_browser_family_member_is_running() {
    assert_eq!(
        infer_browser_from_running_browsers(SupportedBrowser::Chrome, &[SupportedBrowser::Chromium]),
        SupportedBrowser::Chromium
    );
    assert_eq!(
        infer_browser_from_running_browsers(SupportedBrowser::Firefox, &[SupportedBrowser::LibreWolf]),
        SupportedBrowser::LibreWolf
    );
    assert_eq!(
        infer_browser_from_running_browsers(
            SupportedBrowser::Chrome,
            &[SupportedBrowser::Chrome, SupportedBrowser::Vivaldi],
        ),
        SupportedBrowser::Chrome,
        "the daemon must not guess when multiple Chromium browsers are running"
    );
}

#[test]
fn supported_browser_detection_covers_each_managed_browser() {
    assert_eq!(supported_browser_for_process(&process("firefox")), Some(SupportedBrowser::Firefox));
    assert_eq!(supported_browser_for_process(&process("librewolf")), Some(SupportedBrowser::LibreWolf));
    assert_eq!(supported_browser_for_process(&process("waterfox")), Some(SupportedBrowser::Waterfox));
    assert_eq!(supported_browser_for_process(&process("google-chrome")), Some(SupportedBrowser::Chrome));
    assert_eq!(supported_browser_for_process(&process("chromium")), Some(SupportedBrowser::Chromium));
    assert_eq!(supported_browser_for_process(&process("brave-browser")), Some(SupportedBrowser::Brave));
    assert_eq!(supported_browser_for_process(&process("opera")), Some(SupportedBrowser::Opera));
    assert_eq!(supported_browser_for_process(&process("microsoft-edge")), Some(SupportedBrowser::Edge));
    assert_eq!(supported_browser_for_process(&process("msedge")), Some(SupportedBrowser::Edge));
    assert_eq!(supported_browser_for_process(&process("vivaldi")), Some(SupportedBrowser::Vivaldi));
    assert_eq!(supported_browser_for_process(&process("vivaldi-bin")), Some(SupportedBrowser::Vivaldi));

    let chromium_snap = ProcessInfo {
        executable_path: Some("/snap/chromium/3499/usr/lib/chromium-browser/chrome".to_string()),
        executable_basename: Some("chrome".to_string()),
        command_name: Some("chrome".to_string()),
        ..process("chrome")
    };
    assert_eq!(supported_browser_for_process(&chromium_snap), Some(SupportedBrowser::Chromium));
    assert_eq!(supported_browser_for_process(&process("vlc")), None);
}

#[test]
fn blockuntu_processes_are_protected_from_app_blocking() {
    assert!(is_blockuntu_process(&process("blockuntu-gui")));
    assert!(is_blockuntu_process(&process("blockuntud")));
    assert!(is_blockuntu_process(&process("blockuntu-native")));
    assert!(!is_blockuntu_process(&process("vlc")));
}

#[test]
fn a_blockuntu_executable_path_protects_a_renamed_process() {
    let renamed = ProcessInfo {
        executable_path: Some("/usr/lib/blockuntu/BlocKuntu-Helper".to_string()),
        ..process("helper")
    };
    assert!(is_blockuntu_process(&renamed));
    assert!(is_blockuntu_name("  BLOCKUNTU "));
    assert!(!is_blockuntu_name("my-blockuntu"));
}

#[test]
fn strict_mode_settings_decide_which_browsers_are_watched() {
    let settings = strict(30);
    assert!(strict_supported_browser_enforcement_enabled(&settings));
    assert!(browser_required_by_strict_mode(SupportedBrowser::LibreWolf, &settings));
    assert!(!browser_required_by_strict_mode(SupportedBrowser::Brave, &settings));
    assert_eq!(browser_startup_grace_seconds(&settings), 60);
    assert_eq!(browser_startup_grace_seconds(&strict(90)), 90);
    let off = StrictModeConfig { require_firefox_extension: false, ..settings };
    assert!(!strict_supported_browser_enforcement_enabled(&off));
}

#[test]
fn strict_mode_kills_supported_browser_after_startup_heartbeat_grace() {
    let settings = strict(30);
    let within = strict_browser_health(SupportedBrowser::Firefox, &settings, 1000, 1060, None);
    assert_eq!(within.presence, ExtensionPresence::MissingSinceSessionStart);
    assert_eq!(within.unhealthy_reason, None);
    let after = strict_browser_health(SupportedBrowser::Firefox, &settings, 1000, 1061, None);
    assert_eq!(
        after.unhealthy_reason.as_deref(),
        Some("browser=firefox;component=firefox_extension;heartbeat_missing_since_launch_seconds=61;startup_grace_seconds=60")
    );
}

#[test]
fn strict_mode_does_not_kill_new_browser_for_a_stale_previous_session_heartbeat() {
    let settings = strict(30);
    let health = strict_browser_health(SupportedBrowser::Firefox, &settings, 1000, 1010, Some(900));
    assert_eq!(health.presence, ExtensionPresence::MissingSinceSessionStart);
    assert_eq!(health.unhealthy_reason, None);
}

#[test]
fn strict_mode_still_kills_browser_when_current_session_heartbeat_becomes_stale() {
    let settings = strict(30);
    let fresh = strict_browser_health(SupportedBrowser::Firefox, &settings, 1000, 1040, Some(1010));
    assert_eq!(fresh.presence, ExtensionPresence::Healthy);
    assert_eq!(fresh.unhealthy_reason, None);
    let stale = strict_browser_health(SupportedBrowser::Firefox, &settings, 1000, 1041, Some(1010));
    assert_eq!(
        stale.unhealthy_reason.as_deref(),
        Some("browser=firefox;component=firefox_extension;heartbeat_age_seconds=31;grace_seconds=30")
    );
}

#[test]
fn protected_access_modes_read_and_apply() {
    assert_eq!(protected_access_mode(Some("sunday"), None), Ok(ProtectedAccessMode::Sunday));
    assert_eq!(protected_access_mode(None, Some("true")), Ok(ProtectedAccessMode::Sunday));
    assert_eq!(protected_access_mode(None, None), Ok(ProtectedAccessMode::AllTime));
    assert_eq!(
        protected_access_mode(Some("weekly"), None),
        Err(DaemonError::InvalidRequest("invalid protected access mode 'weekly'".to_string()))
    );
    for mode in [
        ProtectedAccessMode::Sunday,
        ProtectedAccessMode::NoActiveScheduleOrDetox,
        ProtectedAccessMode::AllTime,
    ] {
        assert_eq!(protected_access_mode(Some(protected_access_mode_name(mode)), None), Ok(mode));
    }
    assert_eq!(protected_access_mode_label(ProtectedAccessMode::Sunday), "Sunday 20:00-23:59");
    assert!(operator_window_open(true, 20, 0));
    assert!(operator_window_open(true, 23, 59));
    assert!(!operator_window_open(true, 19, 59));
    assert!(!operator_window_open(false, 21, 0));
    assert!(!protected_access_is_open(ProtectedAccessMode::AllTime, true, true, true));
    assert!(protected_access_is_open(ProtectedAccessMode::NoActiveScheduleOrDetox, false, false, true));
    assert!(unsupported_browser_block_is_active(true, true, ProtectedAccessMode::Sunday, false, false));
    assert!(!unsupported_browser_block_is_active(false, true, ProtectedAccessMode::AllTime, true, true));
    assert_eq!(
        protected_access_closed_error("Tier 1 edits", ProtectedAccessMode::Sunday),
        DaemonError::InvalidRequest("Tier 1 edits are only available during Sunday 20:00-23:59".to_string())
    );
}

#[test]
fn event_kinds_are_read_from_quoted_kind_fields() {
    assert_eq!(
        event_kind_from_log_line("2026-05-01 level=info kind=\"website_blocked\" rule=x"),
        Some("website_blocked".to_string())
    );
    assert_eq!(event_kind_from_log_line("kind=unquoted"), None);
    assert_eq!(event_kind_from_log_line("kind=\"\""), None);
    assert_eq!(event_kind_from_log_line("no kind here"), None);
}

#[test]
fn ids_are_trimmed_and_deduplicated_in_order() {
    let ids = vec![" a ".to_string(), "b".to_string(), "a".to_string(), "  ".to_string(), "c".to_string()];
    assert_eq!(normalized_unique_ids(ids), vec!["a".to_string(), "b".to_string(), "c".to_string()]);
    let left = vec!["a".to_string(), "b".to_string()];
    let right = vec!["b".to_string(), "a".to_string()];
    assert!(same_id_membership(&left, &right));
    assert!(!same_id_membership(&left, &["a".to_string()]));
    assert!(!same_id_membership(&left, &["a".to_string(), "c".to_string()]));
    let summary = PolicyAppendSummary { allowances: 1, schedules: 2, rules: 3, app_rules: 4 };
    assert_eq!(summary.total(), 10);
}

#[test]
fn allowance_notifications_round_minutes_up() {
    assert_eq!(allowance_notification_body("News", 59), "Less than 1 minute remains for \"News\".");
    assert_eq!(allowance_notification_body("News", 60), "1 minutes remain for \"News\".");
    assert_eq!(allowance_notification_body("News", 61), "2 minutes remain for \"News\".");
    assert_eq!(default_detox_sessions_limit(), 50);
    assert_eq!(default_pending_notifications_limit(), 20);
}

#[test]
fn socket_activation_follows_the_systemd_variables() {
    assert_eq!(socket_activation(None, None, 7), Ok(SocketActivation::NotOffered));
    assert_eq!(socket_activation(Some("x"), None, 7), Ok(SocketActivation::NotOffered));
    assert_eq!(socket_activation(Some("1"), None, 7), Ok(SocketActivation::Inherited));
    assert_eq!(socket_activation(Some("1"), Some("7"), 7), Ok(SocketActivation::Inherited));
    assert_eq!(socket_activation(Some("1"), Some("8"), 7), Ok(SocketActivation::NotOffered));
    assert_eq!(
        socket_activation(Some("2"), None, 7),
        Err(DaemonError::InvalidSocketActivation { fds: 2 })
    );
    assert_eq!(
        listener_source(SocketActivation::NotOffered, false, "/run/x.sock"),
        Err(DaemonError::SocketActivationUnavailable("/run/x.sock".to_string()))
    );
    assert_eq!(
        listener_source(SocketActivation::NotOffered, true, "/run/x.sock"),
        Ok(ListenerSource::BindPath)
    );
}

#[test]
fn blank_config_paths_are_ignored() {
    assert_eq!(config_path(None), None);
    assert_eq!(config_path(Some("  ".to_string())), None);
    assert_eq!(config_path(Some("/etc/x.toml".to_string())), Some("/etc/x.toml".to_string()));
}

#[test]
fn librewolf_default_policy_uses_its_application_directory() {
    assert_eq!(DEFAULT_LIBREWOLF_POLICY_PATH, "/usr/share/librewolf/distribution/policies.json");
}

#[test]
fn policy_repair_switches_and_default_command() {
    let switches = PolicyRepairSwitches {
        no_browser_policy_repair: false,
        no_firefox_policy_repair: true,
        no_chrome_policy_repair: false,
        defer_browser_policy_repair_until_heartbeat: false,
        defer_firefox_policy_repair_until_heartbeat: false,
        defer_chrome_policy_repair_until_heartbeat: true,
    };
    assert!(!switches.manage_firefox_policy());
    assert!(switches.manage_chrome_policy());
    assert!(!switches.defer_firefox_policy_repair_until_heartbeat());
    assert!(switches.defer_chrome_policy_repair_until_heartbeat());
    assert_eq!(command_or_serve(None), Command::Serve);
    assert_eq!(command_or_serve(Some(Command::RepairHosts)), Command::RepairHosts);
}

#[test]
fn strict_mode_starts_a_new_heartbeat_grace_after_browser_closes_and_reopens() {
    let settings = strict(30);
    // The browser reopened at 1020; the heartbeat at 1005 belongs to the
    // session that closed at 1010.
    let reopened = strict_browser_health(SupportedBrowser::Firefox, &settings, 1020, 1020, Some(1005));
    assert_eq!(reopened.presence, ExtensionPresence::MissingSinceSessionStart);
    assert_eq!(reopened.unhealthy_reason, None);
}

#[test]
fn strict_mode_keeps_supported_browser_when_extension_heartbeat_is_from_current_session() {
    let settings = strict(30);
    let health = strict_browser_health(SupportedBrowser::Firefox, &settings, 1000, 1030, Some(1020));
    assert_eq!(health.presence, ExtensionPresence::Healthy);
    assert_eq!(health.unhealthy_reason, None);
}
