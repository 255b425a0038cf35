use blockuntu::access::ProtectedAccessMode;
use blockuntu::credentials::{
    salted_credential_stored, tier1_edit_credential_setup_check, tier1_edit_unlock_check, tier1_edit_credential_configured, tier1_edit_credential_hash,
    tier1_edit_credential_matches, tier1_edit_key_from,
};
use blockuntu::daemon_error::DaemonError;
use blockuntu::notifications::{normalize_notification_preferences, NotificationPreferences};
use blockuntu::policy::{
    AppMatcherConfig, AppMatcherKind, AppRuleConfig, PolicyConfig, RuleConfig, RulePattern,
    RulePatternKind, RuleTier, StrictModeConfig,
};
use blockuntu::rule_edits::{
    app_rule_edit_is_additive, ensure_mandatory_app_rules, site_list_edit_is_additive,
    unsupported_browser_matchers, unsupported_browser_rule, UNSUPPORTED_BROWSER_RULE_ID,
};

fn preferences(minutes: Vec<u32>) -> NotificationPreferences {
    NotificationPreferences {
        enabled: true,
        website_blocked: false,
        application_blocked: true,
        allowance_warnings: true,
        allowance_warning_minutes: minutes,
        schedule_started: true,
        schedule_ended: false,
        detox_started: true,
        detox_ended: false,
    }
}

#[test]
fn notification_preferences_rpc_normalizes_and_roundtrips_thresholds() {
    let normalized = normalize_notification_preferences(preferences(vec![1, 10, 5, 10]))
        .expect("thresholds are valid");
    assert_eq!(normalized.allowance_warning_minutes, vec![10, 5, 1]);
    assert!(normalized.enabled);
    assert!(!normalized.website_blocked);
    assert!(normalized.detox_started);
    let again = normalize_notification_preferences(normalized.clone()).expect("still valid");
    assert_eq!(again, normalized);
}

#[test]
fn notification_thresholds_out_of_range_are_refused() {
    assert_eq!(
        normalize_notification_preferences(preferences(vec![5, 0])),
        Err(DaemonError::InvalidRequest(
            "allowance warning thresholds must be between 1 and 1440 minutes".to_string()
        ))
    );
    assert!(normalize_notification_preferences(preferences(vec![1441])).is_err());
    assert!(normalize_notification_preferences(preferences(vec![1440])).is_ok());
    assert_eq!(
        normalize_notification_preferences(preferences((1..=11).collect())),
        Err(DaemonError::InvalidRequest(
            "no more than 10 allowance warning thresholds are allowed".to_string()
        ))
    );
    assert!(normalize_notification_preferences(preferences(Vec::new())).is_ok());
}

#[test]
fn credential_hash_is_the_hex_sha256_of_salt_zero_and_phrase() {
    assert_eq!(
        tier1_edit_credential_hash("salt", "correct horse"),
        "f8b9ac48cd3281e6dbb89c3e8dd3f05aacd92f8c9893bb27802f162e5dfe927a"
    );
    assert_eq!(
        tier1_edit_credential_hash("", ""),
        "6e340b9cffb37a989ca544e6bb780a2c78901d3fb33738768511a30617afa01d"
    );
}

#[test]
fn credentials_are_checked_against_the_salted_hash_before_the_key_file() {
    let hash = tier1_edit_credential_hash("salt", "correct horse");
    assert!(tier1_edit_credential_matches(Some("salt"), Some(&hash), Some("other"), "correct horse"));
    assert!(!tier1_edit_credential_matches(Some("salt"), Some(&hash), Some("other"), "other"));
    assert!(tier1_edit_credential_matches(Some("salt"), Some(""), Some("other"), "other"));
    assert!(tier1_edit_credential_matches(None, None, Some("key"), "key"));
    assert!(!tier1_edit_credential_matches(None, None, None, "key"));
    assert!(salted_credential_stored(Some("a"), Some("b")));
    assert!(!salted_credential_stored(Some(""), Some("b")));
    assert!(tier1_edit_credential_configured(None, None, Some("k")));
    assert!(!tier1_edit_credential_configured(Some("a"), None, None));
}

#[test]
fn edit_key_is_the_first_filled_line() {
    assert_eq!(tier1_edit_key_from("\n   \n  secret phrase \nnext\n"), Some("secret phrase".to_string()));
    assert_eq!(tier1_edit_key_from(" \n\t\n"), None);
    assert_eq!(tier1_edit_key_from(""), None);
}

fn site_list(patterns: Vec<&str>) -> RuleConfig {
    RuleConfig {
        id: "social".to_string(),
        name: "Social".to_string(),
        tier: RuleTier::ScheduledBlock,
        enabled: true,
        patterns: patterns
            .into_iter()
            .map(|value| RulePattern {
                kind: RulePatternKind::Domain,
                value: value.to_string(),
                match_subdomains: true,
            })
            .collect(),
        schedule_ids: vec!["work".to_string()],
        allowance_id: None,
    }
}

#[test]
fn site_list_edits_may_only_append_patterns() {
    let current = site_list(vec!["a.example", "b.example"]);
    assert!(site_list_edit_is_additive(&current, &current));
    assert!(site_list_edit_is_additive(&current, &site_list(vec!["a.example", "b.example", "c.example"])));
    assert!(!site_list_edit_is_additive(&current, &site_list(vec!["a.example"])));
    assert!(!site_list_edit_is_additive(&current, &site_list(vec!["b.example", "a.example"])));
    let mut renamed = current.clone();
    renamed.name = "Other".to_string();
    assert!(!site_list_edit_is_additive(&current, &renamed));
    let mut unscheduled = current.clone();
    unscheduled.schedule_ids.clear();
    assert!(!site_list_edit_is_additive(&current, &unscheduled));
}

fn app_rule(values: Vec<&str>) -> AppRuleConfig {
    AppRuleConfig {
        id: "games".to_string(),
        name: "Games".to_string(),
        tier: RuleTier::ControlledAccess,
        enabled: true,
        matchers: values
            .into_iter()
            .map(|value| AppMatcherConfig { kind: AppMatcherKind::CommandName, value: value.to_string() })
            .collect(),
        schedule_ids: Vec::new(),
        allowance_id: Some("daily".to_string()),
    }
}

#[test]
fn app_rule_edits_may_only_append_matchers() {
    let current = app_rule(vec!["steam"]);
    assert!(app_rule_edit_is_additive(&current, &app_rule(vec!["steam", "lutris"])));
    assert!(!app_rule_edit_is_additive(&current, &app_rule(vec!["lutris"])));
    let mut disabled = current.clone();
    disabled.enabled = false;
    assert!(!app_rule_edit_is_additive(&current, &disabled));
}

fn empty_policy(block_unsupported_browsers: bool) -> PolicyConfig {
    PolicyConfig {
        rules: Vec::new(),
        app_rules: Vec::new(),
        strict_mode: StrictModeConfig {
            kill_supported_browser_if_extension_stale: true,
            require_firefox_extension: true,
            require_chrome_extension: false,
            grace_seconds: 30,
            block_unsupported_browsers,
        },
    }
}

#[test]
fn injects_unsupported_browser_hard_rule() {
    let mut config = empty_policy(true);
    assert!(ensure_mandatory_app_rules(&mut config));
    assert!(config.app_rules.iter().any(|rule| rule.id == UNSUPPORTED_BROWSER_RULE_ID));
    assert!(!ensure_mandatory_app_rules(&mut config));
}

#[test]
fn a_tampered_unsupported_browser_rule_is_restored_in_place() {
    let mut config = empty_policy(true);
    config.app_rules.push(app_rule(vec!["steam"]));
    let mut tampered = unsupported_browser_rule();
    tampered.enabled = false;
    config.app_rules.push(tampered);
    assert!(ensure_mandatory_app_rules(&mut config));
    assert_eq!(config.app_rules.len(), 2);
    assert_eq!(config.app_rules[1], unsupported_browser_rule());
    assert!(!ensure_mandatory_app_rules(&mut config));
}

#[test]
fn the_unsupported_browser_rule_leaves_when_unsupported_browsers_are_allowed() {
    let mut config = empty_policy(false);
    config.app_rules.push(unsupported_browser_rule());
    config.app_rules.push(app_rule(vec!["steam"]));
    assert!(ensure_mandatory_app_rules(&mut config));
    assert_eq!(config.app_rules, vec![app_rule(vec!["steam"])]);
    assert!(!ensure_mandatory_app_rules(&mut config));
}

#[test]
fn unsupported_browser_rule_recognises_browsers_without_policy_support() {
    let matchers = unsupported_browser_matchers();
    assert_eq!(matchers.len(), 28);
    assert!(matchers.contains(&(AppMatcherKind::ExecutableBasename, "epiphany")));
    assert!(matchers.contains(&(AppMatcherKind::WindowTitleContains, "Tor Browser")));
    assert!(matchers.contains(&(AppMatcherKind::DesktopId, "brave_brave.desktop")));
    let rule = unsupported_browser_rule();
    assert_eq!(rule.tier, RuleTier::Hard);
    assert_eq!(rule.name, "Unsupported browsers hard block");
}

#[test]
fn tier1_unlock_needs_a_matching_phrase_while_protected_settings_are_open() {
    let hash = tier1_edit_credential_hash("salt", "correct horse");
    let stored = (Some("salt"), Some(hash.as_str()));
    assert_eq!(
        tier1_edit_unlock_check("  ", stored.0, stored.1, None, ProtectedAccessMode::AllTime, true),
        Err(DaemonError::InvalidRequest("Tier 1 credential is required".to_string()))
    );
    assert_eq!(
        tier1_edit_unlock_check("wrong", stored.0, stored.1, None, ProtectedAccessMode::AllTime, true),
        Err(DaemonError::InvalidRequest("Tier 1 edit credential does not match".to_string()))
    );
    assert_eq!(
        tier1_edit_unlock_check(" correct horse ", stored.0, stored.1, None, ProtectedAccessMode::Sunday, false),
        Err(DaemonError::InvalidRequest(
            "Tier 1 edits are only available during Sunday 20:00-23:59".to_string()
        ))
    );
    assert_eq!(
        tier1_edit_unlock_check(" correct horse ", stored.0, stored.1, None, ProtectedAccessMode::Sunday, true),
        Ok("correct horse".to_string())
    );
}

#[test]
fn a_tier1_credential_is_set_once_and_must_be_long_enough() {
    assert_eq!(
        tier1_edit_credential_setup_check("   fifteen chars!!   ", false),
        Err(DaemonError::InvalidRequest(
            "Tier 1 credential must contain at least 16 characters".to_string()
        ))
    );
    assert_eq!(
        tier1_edit_credential_setup_check(" sixteen chars!!! ", false),
        Ok("sixteen chars!!!".to_string())
    );
    assert_eq!(
        tier1_edit_credential_setup_check("a sufficiently long phrase", true),
        Err(DaemonError::InvalidRequest("Tier 1 credential is already configured".to_string()))
    );
}
