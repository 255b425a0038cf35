use blockuntu::credentials::{credential_salt_from, package_removal_lease};
use blockuntu::daemon_error::DaemonError;
use blockuntu::policy::{
    AppMatcherConfig, AppMatcherKind, AppRuleConfig, RuleConfig, RulePattern, RulePatternKind,
    RuleTier,
};
use blockuntu::policy_import::append_unique_by_id;
use blockuntu::rule_edits::unsupported_browser_rule;

fn site_list(id: &str, name: &str, domain: &str) -> RuleConfig {
    RuleConfig {
        id: id.to_string(),
        name: name.to_string(),
        tier: RuleTier::Hard,
        enabled: true,
        patterns: vec![RulePattern {
            kind: RulePatternKind::Domain,
            value: domain.to_string(),
            match_subdomains: true,
        }],
        schedule_ids: Vec::new(),
        allowance_id: None,
    }
}

#[test]
fn appends_policy_import_without_tier1_unlock() {
    let mut rules = vec![site_list("hard", "Hard", "blocked.example")];
    let imported = vec![site_list("replacement", "Replacement", "replacement.example")];
    let added = append_unique_by_id(&mut rules, &imported, "site list").expect("import appends");
    assert_eq!(added, 1);
    assert!(rules.iter().any(|rule| rule.id == "hard"));
    assert!(rules.iter().any(|rule| rule.id == "replacement"));
    assert_eq!(rules[1], imported[0]);
}

#[test]
fn skips_identical_policy_import_items() {
    let mut rules = vec![site_list("hard", "Hard", "blocked.example")];
    let imported = vec![site_list("hard", "Hard", "blocked.example")];
    let added = append_unique_by_id(&mut rules, &imported, "site list").expect("import skips");
    assert_eq!(added, 0);
    assert_eq!(rules.len(), 1);
}

#[test]
fn rejects_conflicting_policy_import_ids() {
    let mut rules = vec![site_list("hard", "Hard", "blocked.example")];
    let imported = vec![site_list("hard", "Hard changed", "changed.example")];
    let error = append_unique_by_id(&mut rules, &imported, "site list").unwrap_err();
    match &error {
        DaemonError::InvalidRequest(message) => {
            assert!(message.contains("imported site list 'hard' conflicts"));
            assert_eq!(
                message,
                "imported site list 'hard' conflicts with an existing site list"
            );
        }
        other => panic!("unexpected error {other:?}"),
    }
}

#[test]
fn import_stops_at_the_first_conflict_keeping_what_came_before() {
    let mut rules = vec![site_list("hard", "Hard", "blocked.example")];
    let imported = vec![
        site_list("news", "News", "news.example"),
        site_list("hard", "Hard", "other.example"),
        site_list("video", "Video", "video.example"),
    ];
    let error = append_unique_by_id(&mut rules, &imported, "site list").unwrap_err();
    assert_eq!(
        error,
        DaemonError::InvalidRequest(
            "imported site list 'hard' conflicts with an existing site list".to_string()
        )
    );
    let ids: Vec<&str> = rules.iter().map(|rule| rule.id.as_str()).collect();
    assert_eq!(ids, vec!["hard", "news"]);
}

#[test]
fn importing_the_same_items_twice_adds_nothing_the_second_time() {
    let mut rules = vec![site_list("hard", "Hard", "blocked.example")];
    let imported = vec![
        site_list("news", "News", "news.example"),
        site_list("news", "News", "news.example"),
        site_list("video", "Video", "video.example"),
    ];
    assert_eq!(append_unique_by_id(&mut rules, &imported, "site list"), Ok(2));
    let after_first = rules.clone();
    assert_eq!(append_unique_by_id(&mut rules, &imported, "site list"), Ok(0));
    assert_eq!(rules, after_first);
    assert_eq!(rules.len(), 3);
}

#[test]
fn application_rules_are_imported_by_id_too() {
    let mut app_rules = vec![unsupported_browser_rule()];
    let game = AppRuleConfig {
        id: "games".to_string(),
        name: "Games".to_string(),
        tier: RuleTier::ScheduledBlock,
        enabled: true,
        matchers: vec![AppMatcherConfig {
            kind: AppMatcherKind::ExecutableBasename,
            value: "steam".to_string(),
        }],
        schedule_ids: vec!["evenings".to_string()],
        allowance_id: Some("daily".to_string()),
    };
    let imported = vec![unsupported_browser_rule(), game.clone()];
    assert_eq!(append_unique_by_id(&mut app_rules, &imported, "app rule"), Ok(1));
    assert_eq!(app_rules[1], game);

    let mut changed = game.clone();
    changed.matchers.push(AppMatcherConfig {
        kind: AppMatcherKind::CommandName,
        value: "steam".to_string(),
    });
    assert_eq!(
        append_unique_by_id(&mut app_rules, &[changed], "app rule"),
        Err(DaemonError::InvalidRequest(
            "imported app rule 'games' conflicts with an existing app rule".to_string()
        ))
    );
}

#[test]
fn credential_salts_and_removal_leases_are_hex_encoded() {
    let bytes = [0x00u8, 0x0f, 0xa0, 0xff];
    assert_eq!(credential_salt_from(&bytes), "000fa0ff");
    let (token, contents) = package_removal_lease(&bytes, 1_779_444_000);
    assert_eq!(token, "000fa0ff");
    assert_eq!(contents, "000fa0ff 1779444000\n");
    let (_, negative) = package_removal_lease(&[], -5);
    assert_eq!(negative, " -5\n");
}
