use std::collections::HashMap;

use blockuntu::kill_plan::{
    kill_event_record, plan_process_kills, AppVerdict, KillKind, KillReason, KillRecord,
};
use blockuntu::policy::{AppMatcherKind, AppRuleConfig, PolicyConfig, StrictModeConfig};
use blockuntu::process_scan::{ProcessInfo, ProcessKillEvent};
use blockuntu::rule_edits::{ensure_mandatory_app_rules, UNSUPPORTED_BROWSER_RULE_ID};

fn process(pid: u32, command: &str) -> ProcessInfo {
    ProcessInfo {
        pid,
        executable_path: Some(format!("/usr/bin/{command}")),
        executable_basename: Some(command.to_string()),
        command_name: Some(command.to_string()),
        desktop_id: None,
        window_titles: Vec::new(),
    }
}

fn blocked(rule: &str) -> AppVerdict {
    AppVerdict::Blocked { rule_id: Some(rule.to_string()) }
}

#[test]
fn rules_block_applications_and_spare_this_program() {
    let processes = vec![
        process(1, "init"),
        process(40, "kmines"),
        process(41, "blockuntu-daemon"),
        process(42, "steam"),
        process(43, "firefox"),
        process(99, "focusd"),
    ];
    let verdicts = vec![
        blocked("games"),
        blocked("games"),
        blocked("games"),
        AppVerdict::Blocked { rule_id: None },
        AppVerdict::Allowed,
        blocked("games"),
    ];
    let installations = vec![None; 6];
    let plan = plan_process_kills(&processes, 99, &verdicts, false, &installations, &[]);
    assert_eq!(plan.blocked_pids, vec![40, 42]);
    assert_eq!(plan.reasons.len(), 1);
    assert_eq!(
        plan.reasons[&40],
        KillReason {
            detail: "rule_id=games".to_string(),
            kind: KillKind::AppKilled,
            rule_id: Some("games".to_string()),
        }
    );
}

#[test]
fn unsupported_browsers_and_stale_extensions_are_added_once() {
    let processes = vec![process(40, "epiphany"), process(41, "firefox"), process(42, "falkon")];
    let verdicts = vec![blocked("web"), AppVerdict::Allowed, AppVerdict::Allowed];
    let installations = vec![Some("epiphany".to_string()), None, Some("falkon".to_string())];
    let stale = vec![(41, "browser=firefox;reason=stale".to_string()), (40, "ignored".to_string())];
    let plan = plan_process_kills(&processes, 7, &verdicts, true, &installations, &stale);
    assert_eq!(plan.blocked_pids, vec![40, 42, 41]);
    assert_eq!(
        plan.reasons[&40],
        KillReason {
            detail: "rule_id=unsupported-browsers-hard;browser_installation=epiphany".to_string(),
            kind: KillKind::BrowserKilledUnsupportedInstallation,
            rule_id: Some("unsupported-browsers-hard".to_string()),
        }
    );
    assert_eq!(plan.reasons[&42].kind, KillKind::BrowserKilledUnsupportedInstallation);
    assert_eq!(
        plan.reasons[&41],
        KillReason {
            detail: "browser=firefox;reason=stale".to_string(),
            kind: KillKind::BrowserKilledExtensionStale,
            rule_id: None,
        }
    );

    let inactive = plan_process_kills(&processes, 7, &verdicts, false, &installations, &[]);
    assert_eq!(inactive.blocked_pids, vec![40]);
    assert_eq!(inactive.reasons[&40].detail, "rule_id=web");
}

#[test]
fn kill_records_carry_the_reason_and_what_was_known() {
    let mut reasons = HashMap::new();
    reasons.insert(
        40,
        KillReason {
            detail: "rule_id=games".to_string(),
            kind: KillKind::AppKilled,
            rule_id: Some("games".to_string()),
        },
    );
    let event = ProcessKillEvent {
        pid: 40,
        executable_path: Some("/usr/games/kmines".to_string()),
        executable_basename: Some("kmines".to_string()),
        command_name: None,
        desktop_id: Some("org.kde.kmines.desktop".to_string()),
        window_titles: vec!["KMines".to_string(), "Scores".to_string()],
    };
    assert_eq!(
        kill_event_record(&event, &reasons),
        KillRecord {
            kind: KillKind::AppKilled,
            application_name: "kmines".to_string(),
            detail: "pid=40;rule_id=games;exe=/usr/games/kmines;basename=kmines;command=<unknown>;desktop_id=org.kde.kmines.desktop;window_titles=KMines | Scores".to_string(),
            rule_id: Some("games".to_string()),
        }
    );

    let unknown = ProcessKillEvent {
        pid: 77,
        executable_path: None,
        executable_basename: None,
        command_name: None,
        desktop_id: None,
        window_titles: Vec::new(),
    };
    let record = kill_event_record(&unknown, &reasons);
    assert_eq!(record.kind, KillKind::AppKilled);
    assert_eq!(record.kind.name(), "app_killed");
    assert_eq!(record.application_name, "Application");
    assert_eq!(
        record.detail,
        "pid=77;reason=<unknown>;exe=<unknown>;basename=<unknown>;command=<unknown>;desktop_id=<unknown>;window_titles=<none>"
    );
    assert_eq!(record.rule_id, None);
    assert_eq!(
        KillKind::BrowserKilledExtensionStale.name(),
        "browser_killed_extension_stale"
    );
    assert_eq!(
        KillKind::BrowserKilledUnsupportedInstallation.name(),
        "browser_killed_unsupported_installation"
    );
}

fn identity(name: &str, desktop_id: Option<&str>) -> ProcessInfo {
    ProcessInfo {
        pid: 100,
        executable_path: None,
        executable_basename: Some(name.to_string()),
        command_name: Some(name.to_string()),
        desktop_id: desktop_id.map(str::to_string),
        window_titles: Vec::new(),
    }
}

/// What an application rule decides for a process, by its matchers: equal
/// executable, command or desktop id, or a window title that holds the text.
fn verdict_of(rule: &AppRuleConfig, process: &ProcessInfo) -> AppVerdict {
    let hit = rule.matchers.iter().any(|m| match m.kind {
        AppMatcherKind::ExecutableBasename => process.executable_basename.as_deref() == Some(m.value.as_str()),
        AppMatcherKind::CommandName => process.command_name.as_deref() == Some(m.value.as_str()),
        AppMatcherKind::DesktopId => process.desktop_id.as_deref() == Some(m.value.as_str()),
        AppMatcherKind::WindowTitleContains => process.window_titles.iter().any(|t| t.contains(&m.value)),
    });
    if rule.enabled && hit {
        AppVerdict::Blocked { rule_id: Some(rule.id.clone()) }
    } else {
        AppVerdict::Allowed
    }
}

#[test]
fn unsupported_browser_rule_blocks_unmanaged_browsers_but_not_supported_browsers() {
    let mut config = PolicyConfig {
        rules: Vec::new(),
        app_rules: Vec::new(),
        strict_mode: StrictModeConfig {
            kill_supported_browser_if_extension_stale: false,
            require_firefox_extension: false,
            require_chrome_extension: false,
            grace_seconds: 0,
            block_unsupported_browsers: true,
        },
    };
    ensure_mandatory_app_rules(&mut config);
    let rule = config
        .app_rules
        .iter()
        .find(|rule| rule.id == UNSUPPORTED_BROWSER_RULE_ID)
        .expect("the unsupported-browser rule is added")
        .clone();
    let cases = [
        (identity("epiphany", None), true),
        (identity("firefox", None), false),
        (identity("librewolf", None), false),
        (identity("waterfox", None), false),
        (identity("google-chrome", None), false),
        (identity("chromium", None), false),
        (identity("brave-browser", None), false),
        (identity("opera", None), false),
        (identity("microsoft-edge", None), false),
        (identity("vivaldi", None), false),
        (identity("chromium", Some("org.chromium.Chromium.desktop")), true),
        (identity("brave-browser", Some("brave_brave.desktop")), true),
        (identity("opera", Some("opera_opera.desktop")), true),
        (identity("vivaldi", Some("vivaldi_vivaldi-stable.desktop")), true),
        (identity("chromium", Some("chromium_chromium.desktop")), false),
    ];
    for (process, blocks) in cases {
        let verdict = verdict_of(&rule, &process);
        let plan = plan_process_kills(&[process.clone()], 1, &[verdict], false, &[None], &[]);
        assert_eq!(plan.blocked_pids == vec![100], blocks, "{:?}", process.command_name);
        if blocks {
            assert_eq!(
                plan.reasons.get(&100).and_then(|r| r.rule_id.clone()).as_deref(),
                Some(UNSUPPORTED_BROWSER_RULE_ID)
            );
        }
    }
}

#[test]
fn process_scan_sync_ignores_blockuntu_processes() {
    let gui = ProcessInfo {
        pid: 1234,
        executable_path: None,
        executable_basename: Some("blockuntu-gui".to_string()),
        command_name: Some("blockuntu-gui".to_string()),
        desktop_id: None,
        window_titles: Vec::new(),
    };
    let plan = plan_process_kills(&[gui], 1, &[blocked("gui-controlled")], true, &[None], &[]);
    assert!(plan.blocked_pids.is_empty());
    assert!(plan.reasons.is_empty());
}
