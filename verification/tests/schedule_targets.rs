use blockuntu::daemon_error::DaemonError;
use blockuntu::policy::{
    AppMatcherConfig, AppMatcherKind, AppRuleConfig, PolicyConfig, RuleConfig, RulePattern,
    RulePatternKind, RuleTier, StrictModeConfig,
};
use blockuntu::schedule_targets::{
    apply_schedule_target_updates, contains_id, schedule_target_updates_change, RuleActivity,
};

fn site_list(id: &str, tier: RuleTier, schedules: &[&str]) -> RuleConfig {
    RuleConfig {
        id: id.to_string(),
        name: id.to_string(),
        tier,
        enabled: true,
        patterns: vec![RulePattern {
            kind: RulePatternKind::Domain,
            value: format!("{id}.example"),
            match_subdomains: true,
        }],
        schedule_ids: schedules.iter().map(|s| s.to_string()).collect(),
        allowance_id: None,
    }
}

fn app_rule(id: &str, tier: RuleTier, schedules: &[&str]) -> AppRuleConfig {
    AppRuleConfig {
        id: id.to_string(),
        name: id.to_string(),
        tier,
        enabled: true,
        matchers: vec![AppMatcherConfig {
            kind: AppMatcherKind::CommandName,
            value: "kmines".to_string(),
        }],
        schedule_ids: schedules.iter().map(|s| s.to_string()).collect(),
        allowance_id: None,
    }
}

fn policy(rules: Vec<RuleConfig>, app_rules: Vec<AppRuleConfig>) -> PolicyConfig {
    PolicyConfig {
        rules,
        app_rules,
        strict_mode: StrictModeConfig {
            kill_supported_browser_if_extension_stale: false,
            require_firefox_extension: false,
            require_chrome_extension: false,
            grace_seconds: 60,
            block_unsupported_browsers: false,
        },
    }
}

fn ids(values: &[&str]) -> Vec<String> {
    values.iter().map(|value| value.to_string()).collect()
}

fn idle() -> RuleActivity {
    RuleActivity {
        site_rules_in_detox: Vec::new(),
        active_site_rules: Vec::new(),
        app_rules_in_detox: Vec::new(),
        active_app_rules: Vec::new(),
    }
}

#[test]
fn schedule_save_attaches_selected_website_and_application_rules() {
    let current = policy(
        vec![site_list("controlled-site", RuleTier::ControlledAccess, &[])],
        vec![app_rule("controlled-app", RuleTier::ControlledAccess, &[])],
    );
    let mut next = current.clone();
    let sites = ids(&["controlled-site"]);
    let apps = ids(&["controlled-app"]);
    assert!(schedule_target_updates_change(&current, "work-hours", Some(&sites), Some(&apps)));
    apply_schedule_target_updates(
        &current,
        &mut next,
        "work-hours",
        Some(&sites),
        Some(&apps),
        &idle(),
    )
    .expect("targets move");
    assert_eq!(next.rules[0].schedule_ids, ids(&["work-hours"]));
    assert_eq!(next.app_rules[0].schedule_ids, ids(&["work-hours"]));
    assert!(!schedule_target_updates_change(&next, "work-hours", Some(&sites), Some(&apps)));
}

#[test]
fn schedule_targets_detach_unrequested_rules_and_keep_other_schedules() {
    let current = policy(
        vec![
            site_list("social", RuleTier::ScheduledBlock, &["evenings", "work-hours", "work-hours"]),
            site_list("news", RuleTier::ScheduledBlock, &["evenings"]),
            site_list("hard", RuleTier::Hard, &["work-hours"]),
        ],
        Vec::new(),
    );
    let mut next = current.clone();
    let requested = ids(&["news"]);
    apply_schedule_target_updates(&current, &mut next, "work-hours", Some(&requested), None, &idle())
        .expect("targets move");
    assert_eq!(next.rules[0].schedule_ids, ids(&["evenings"]));
    assert_eq!(next.rules[1].schedule_ids, ids(&["evenings", "work-hours"]));
    assert_eq!(next.rules[2].schedule_ids, ids(&["work-hours"]));
    assert_eq!(next.app_rules, current.app_rules);
}

#[test]
fn schedule_targets_refuse_active_and_detox_rules() {
    let current = policy(
        vec![
            site_list("social", RuleTier::ScheduledBlock, &[]),
            site_list("news", RuleTier::ScheduledBlock, &["work-hours"]),
        ],
        vec![app_rule("games", RuleTier::ScheduledBlock, &[])],
    );
    let requested = ids(&["social", "news"]);
    let mut activity = idle();
    activity.active_site_rules = ids(&["social", "news"]);
    activity.site_rules_in_detox = ids(&["social"]);
    let mut next = current.clone();
    assert_eq!(
        apply_schedule_target_updates(&current, &mut next, "work-hours", Some(&requested), None, &activity),
        Err(DaemonError::InvalidRequest(
            "site list 'social' is covered by an active detox session and cannot be edited"
                .to_string()
        ))
    );
    assert_eq!(next, current);

    activity.site_rules_in_detox = Vec::new();
    assert_eq!(
        apply_schedule_target_updates(&current, &mut next, "work-hours", Some(&requested), None, &activity),
        Err(DaemonError::InvalidRequest(
            "site list 'social' is currently active and cannot be edited".to_string()
        ))
    );

    let mut busy_apps = idle();
    busy_apps.active_app_rules = ids(&["games"]);
    let apps = ids(&["games"]);
    let mut next = current.clone();
    assert_eq!(
        apply_schedule_target_updates(
            &current,
            &mut next,
            "work-hours",
            Some(&ids(&["news"])),
            Some(&apps),
            &busy_apps,
        ),
        Err(DaemonError::InvalidRequest(
            "app rule 'games' is currently active and cannot be edited".to_string()
        ))
    );
    assert_eq!(next.app_rules, current.app_rules);
}

#[test]
fn unchanged_rules_may_be_active_during_a_target_update() {
    let current = policy(vec![site_list("news", RuleTier::ScheduledBlock, &["work-hours"])], Vec::new());
    let mut activity = idle();
    activity.active_site_rules = ids(&["news"]);
    let mut next = current.clone();
    let requested = ids(&["news"]);
    assert!(!schedule_target_updates_change(&current, "work-hours", Some(&requested), None));
    assert_eq!(
        apply_schedule_target_updates(&current, &mut next, "work-hours", Some(&requested), None, &activity),
        Ok(())
    );
    assert_eq!(next, current);
}

#[test]
fn contains_id_compares_whole_ids() {
    let list = ids(&["work-hours", "evenings"]);
    assert!(contains_id(&list, "evenings"));
    assert!(!contains_id(&list, "work"));
    assert!(!contains_id(&[], "work"));
}
