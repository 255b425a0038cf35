use blockuntu::daemon_error::DaemonError;
use blockuntu::policy::{
    AppMatcherConfig, AppMatcherKind, AppRuleConfig, PolicyConfig, RuleConfig, RulePattern,
    RulePatternKind, RuleTier, StrictModeConfig,
};
use blockuntu::rule_upserts::{
    allowance_referenced, delete_app_rule, delete_site_list, upsert_app_rule, upsert_site_list,
};
use blockuntu::schedule_targets::RuleActivity;

fn pattern(domain: &str) -> RulePattern {
    RulePattern { kind: RulePatternKind::Domain, value: domain.to_string(), match_subdomains: true }
}

fn site_list(id: &str, tier: RuleTier, domains: &[&str], allowance: Option<&str>) -> RuleConfig {
    RuleConfig {
        id: id.to_string(),
        name: id.to_string(),
        tier,
        enabled: true,
        patterns: domains.iter().map(|d| pattern(d)).collect(),
        schedule_ids: Vec::new(),
        allowance_id: allowance.map(|a| a.to_string()),
    }
}

fn app_rule(id: &str, commands: &[&str], allowance: Option<&str>) -> AppRuleConfig {
    AppRuleConfig {
        id: id.to_string(),
        name: id.to_string(),
        tier: RuleTier::ControlledAccess,
        enabled: true,
        matchers: commands
            .iter()
            .map(|c| AppMatcherConfig { kind: AppMatcherKind::CommandName, value: c.to_string() })
            .collect(),
        schedule_ids: Vec::new(),
        allowance_id: allowance.map(|a| a.to_string()),
    }
}

fn config() -> PolicyConfig {
    PolicyConfig {
        rules: vec![
            site_list("hard", RuleTier::Hard, &["blocked.example"], None),
            site_list("controlled", RuleTier::ControlledAccess, &["controlled.example"], Some("daily")),
        ],
        app_rules: vec![app_rule("games", &["kmines"], Some("daily"))],
        strict_mode: StrictModeConfig {
            kill_supported_browser_if_extension_stale: false,
            require_firefox_extension: false,
            require_chrome_extension: false,
            grace_seconds: 60,
            block_unsupported_browsers: false,
        },
    }
}

fn ids(values: &[&str]) -> Vec<String> {
    values.iter().map(|value| value.to_string()).collect()
}

fn activity(detox: &[&str], active: &[&str], detox_apps: &[&str], active_apps: &[&str]) -> RuleActivity {
    RuleActivity {
        site_rules_in_detox: ids(detox),
        active_site_rules: ids(active),
        app_rules_in_detox: ids(detox_apps),
        active_app_rules: ids(active_apps),
    }
}

fn invalid(message: &str) -> Result<Option<String>, DaemonError> {
    Err(DaemonError::InvalidRequest(message.to_string()))
}

#[test]
fn rejects_active_tier1_site_list_edits_without_unlock() {
    let mut policy = config();
    let edited = site_list("hard", RuleTier::Hard, &["edited.example"], None);
    let busy = activity(&[], &["hard"], &[], &[]);
    assert_eq!(
        upsert_site_list(&mut policy, edited.clone(), &busy, false),
        invalid("site list 'hard' is currently active and cannot be edited")
    );
    assert_eq!(policy, config());
    assert_eq!(upsert_site_list(&mut policy, edited.clone(), &busy, true), Ok(None));
    assert_eq!(policy.rules[0], edited);
}

#[test]
fn tier1_edit_unlock_does_not_allow_active_tier2_site_list_edits() {
    let mut policy = config();
    let edited = site_list("controlled", RuleTier::ControlledAccess, &["other.example"], Some("daily"));
    let busy = activity(&[], &["controlled"], &[], &[]);
    assert_eq!(
        upsert_site_list(&mut policy, edited, &busy, true),
        invalid("site list 'controlled' is currently active and cannot be edited")
    );
}

#[test]
fn allows_additive_site_list_edits_during_active_detox() {
    let mut policy = config();
    let busy = activity(&["controlled"], &["controlled"], &[], &[]);
    let additive = site_list(
        "controlled",
        RuleTier::ControlledAccess,
        &["controlled.example", "more.example"],
        Some("daily"),
    );
    assert_eq!(upsert_site_list(&mut policy, additive.clone(), &busy, false), Ok(None));
    assert_eq!(policy.rules[1], additive);
    let shrunk = site_list("controlled", RuleTier::ControlledAccess, &["more.example"], Some("daily"));
    assert_eq!(
        upsert_site_list(&mut policy, shrunk, &busy, false),
        invalid("site list 'controlled' is covered by an active detox session and cannot be edited")
    );
}

#[test]
fn allows_additive_app_rule_edits_during_active_detox() {
    let mut policy = config();
    let busy = activity(&[], &[], &["games"], &["games"]);
    let additive = app_rule("games", &["kmines", "kpat"], Some("daily"));
    assert_eq!(upsert_app_rule(&mut policy, additive.clone(), &busy), Ok(None));
    assert_eq!(policy.app_rules[0], additive);
    assert_eq!(
        upsert_app_rule(&mut policy, app_rule("games", &["kpat"], Some("daily")), &busy),
        Err(DaemonError::InvalidRequest(
            "app rule 'games' is covered by an active detox session and cannot be edited".to_string()
        ))
    );
}

#[test]
fn rejects_active_app_rule_edits() {
    let mut policy = config();
    let busy = activity(&[], &[], &[], &["games"]);
    assert_eq!(
        upsert_app_rule(&mut policy, app_rule("games", &["kpat"], Some("daily")), &busy),
        Err(DaemonError::InvalidRequest(
            "app rule 'games' is currently active and cannot be edited".to_string()
        ))
    );
    assert_eq!(
        delete_app_rule(&mut policy, "games", &busy),
        Err(DaemonError::InvalidRequest(
            "app rule 'games' is currently active and cannot be edited".to_string()
        ))
    );
}

#[test]
fn saves_report_the_allowance_they_release() {
    let mut policy = config();
    let idle = activity(&[], &[], &[], &[]);
    let moved = site_list("controlled", RuleTier::ControlledAccess, &["controlled.example"], Some("weekly"));
    assert_eq!(upsert_site_list(&mut policy, moved, &idle, false), Ok(Some("daily".to_string())));
    assert!(allowance_referenced(&policy, "daily"));
    let new_rule = site_list("news", RuleTier::ScheduledBlock, &["news.example"], None);
    assert_eq!(upsert_site_list(&mut policy, new_rule.clone(), &idle, false), Ok(None));
    assert_eq!(policy.rules.last(), Some(&new_rule));
    assert_eq!(delete_app_rule(&mut policy, "games", &idle), Ok(Some("daily".to_string())));
    assert!(!allowance_referenced(&policy, "daily"));
    assert!(allowance_referenced(&policy, "weekly"));
}

#[test]
fn deleting_site_lists_checks_existence_and_activity() {
    let mut policy = config();
    let idle = activity(&[], &[], &[], &[]);
    assert_eq!(
        delete_site_list(&mut policy, "missing", &idle),
        invalid("site list 'missing' does not exist")
    );
    assert_eq!(
        delete_site_list(&mut policy, "controlled", &activity(&["controlled"], &[], &[], &[])),
        invalid("site list 'controlled' is covered by an active detox session and cannot be edited")
    );
    assert_eq!(delete_site_list(&mut policy, "hard", &idle), Ok(None));
    assert_eq!(policy.rules.len(), 1);
    assert_eq!(policy.rules[0].id, "controlled");
}

fn controlled_list(name: &str, patterns: Vec<RulePattern>) -> RuleConfig {
    RuleConfig {
        id: "controlled".to_string(),
        name: name.to_string(),
        tier: RuleTier::ControlledAccess,
        enabled: true,
        patterns,
        schedule_ids: ids(&["work-hours"]),
        allowance_id: None,
    }
}

fn scheduled_config() -> PolicyConfig {
    PolicyConfig {
        rules: vec![controlled_list("Controlled", vec![pattern("controlled.example")])],
        app_rules: Vec::new(),
        strict_mode: config().strict_mode,
    }
}

fn kmines_rule(matchers: Vec<AppMatcherConfig>) -> AppRuleConfig {
    AppRuleConfig {
        id: "kmines-controlled".to_string(),
        name: "KMines".to_string(),
        tier: RuleTier::ControlledAccess,
        enabled: true,
        matchers,
        schedule_ids: ids(&["work-hours"]),
        allowance_id: None,
    }
}

fn command(value: &str) -> AppMatcherConfig {
    AppMatcherConfig { kind: AppMatcherKind::CommandName, value: value.to_string() }
}

#[test]
fn rejects_active_site_list_edits() {
    let mut policy = scheduled_config();
    let busy = activity(&[], &["controlled"], &[], &[]);
    let edited = controlled_list("Controlled edited", vec![pattern("different.example")]);
    match upsert_site_list(&mut policy, edited, &busy, false) {
        Err(DaemonError::InvalidRequest(message)) => {
            assert!(message.contains("site list 'controlled' is currently active"), "{message}")
        }
        other => panic!("unexpected {other:?}"),
    }
    assert_eq!(policy, scheduled_config());
}

#[test]
fn allows_additive_active_site_list_edits() {
    let mut policy = scheduled_config();
    let busy = activity(&[], &["controlled"], &[], &[]);
    let additive = controlled_list(
        "Controlled",
        vec![
            pattern("controlled.example"),
            RulePattern {
                kind: RulePatternKind::UrlContains,
                value: "watch?v=shorts".to_string(),
                match_subdomains: false,
            },
        ],
    );
    assert_eq!(upsert_site_list(&mut policy, additive, &busy, false), Ok(None));
    let controlled = policy.rules.iter().find(|rule| rule.id == "controlled").expect("controlled rule should exist");
    assert_eq!(controlled.patterns.len(), 2);
}

#[test]
fn allows_additive_active_app_rule_edits() {
    let mut policy = PolicyConfig {
        rules: Vec::new(),
        app_rules: vec![kmines_rule(vec![command("kmines")])],
        strict_mode: config().strict_mode,
    };
    let busy = activity(&[], &[], &[], &["kmines-controlled"]);
    let additive = kmines_rule(vec![
        command("kmines"),
        AppMatcherConfig { kind: AppMatcherKind::WindowTitleContains, value: "KMines".to_string() },
    ]);
    assert_eq!(upsert_app_rule(&mut policy, additive, &busy), Ok(None));
    let rule = policy
        .app_rules
        .iter()
        .find(|rule| rule.id == "kmines-controlled")
        .expect("app rule should exist");
    assert_eq!(rule.matchers.len(), 2);
}
