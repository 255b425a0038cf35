use blockuntu::access::ProtectedAccessMode;
use blockuntu::chrome_policy::{
    ChromePolicyManager, ChromePolicyRepairStatus, ChromiumIncognitoMode, PolicyFileRead,
};
use blockuntu::firefox_policy::{FirefoxPolicyManager, RepairStatus};
use blockuntu::hosts::{
    hosts_repair_detail, lsattr_flags_immutable, managed_block_present, remove_managed_block_from,
    render_managed_block, replace_managed_block, HostsImmutableState, HostsManager,
    HostsRepairStatus,
};
use blockuntu::incognito::{
    chromium_incognito_policy_settings, chromium_incognito_settings_change_allowed,
    chromium_incognito_url_blocklist, ChromiumIncognitoDisableScope,
};
use blockuntu::policy::{
    PolicyConfig, RuleConfig, RulePattern, RulePatternKind, RuleTier, StrictModeConfig,
};
use blockuntu::policy_recovery::recovery_temp_path;
use serde_json::Value;

fn pattern(kind: RulePatternKind, value: &str, match_subdomains: bool) -> RulePattern {
    RulePattern { kind, value: value.to_string(), match_subdomains }
}

fn rule(id: &str, tier: RuleTier, patterns: Vec<RulePattern>) -> RuleConfig {
    RuleConfig {
        id: id.to_string(),
        name: id.to_string(),
        tier,
        enabled: true,
        patterns,
        schedule_ids: Vec::new(),
        allowance_id: None,
    }
}

fn instagram_policy() -> PolicyConfig {
    PolicyConfig {
        rules: vec![rule(
            "hard",
            RuleTier::Hard,
            vec![pattern(RulePatternKind::Domain, "instagram.com", true)],
        )],
        app_rules: Vec::new(),
        strict_mode: StrictModeConfig {
            kill_supported_browser_if_extension_stale: false,
            require_firefox_extension: false,
            require_chrome_extension: false,
            grace_seconds: 30,
            block_unsupported_browsers: false,
        },
    }
}

/// Applies a repair plan to `contents` the way the daemon writes the file.
fn repair(manager: &HostsManager, contents: &mut String, config: &PolicyConfig) -> HostsRepairStatus {
    match manager.plan_repair(contents, config) {
        Some(expected) => {
            *contents = expected;
            HostsManager::repair_status(true, false)
        }
        None => HostsManager::repair_status(false, false),
    }
}

fn removal(contents: &mut String) -> HostsRepairStatus {
    match HostsManager::plan_removal(contents) {
        Some(expected) => {
            *contents = expected;
            HostsRepairStatus::Repaired
        }
        None => HostsRepairStatus::AlreadyCompliant,
    }
}

#[test]
fn repairs_hosts_managed_block_and_preserves_user_content() {
    let config = instagram_policy();
    let manager = HostsManager::new("/tmp/hosts".to_string());
    let mut contents = "127.0.0.1 localhost\n".to_string();

    assert_eq!(repair(&manager, &mut contents, &config), HostsRepairStatus::Repaired);
    assert!(contents.contains("127.0.0.1 localhost"));
    assert!(contents.contains("0.0.0.0 instagram.com"));
    assert!(contents.contains("0.0.0.0 www.instagram.com"));
    assert_eq!(repair(&manager, &mut contents, &config), HostsRepairStatus::AlreadyCompliant);
}

#[test]
fn removes_managed_block_when_enforcement_stops() {
    let config = instagram_policy();
    let manager = HostsManager::new("/tmp/hosts".to_string());
    let mut contents = "127.0.0.1 localhost\n".to_string();

    repair(&manager, &mut contents, &config);
    assert_eq!(removal(&mut contents), HostsRepairStatus::Repaired);
    assert!(contents.contains("127.0.0.1 localhost"));
    assert!(!contents.contains("BEGIN BLOCKUNTU MANAGED"));
    assert_eq!(removal(&mut contents), HostsRepairStatus::AlreadyCompliant);
}

#[test]
fn reports_hosts_status_without_requiring_immutable_flag() {
    let config = instagram_policy();
    let manager = HostsManager::new("/tmp/hosts".to_string());
    let mut contents = String::new();
    repair(&manager, &mut contents, &config);

    let immutable = manager.immutable_status(Ok(false));
    let status = manager.status(&config, Ok(contents), immutable);

    assert_eq!(status.expected_domain_count, 2);
    assert!(status.managed_block_present);
    assert!(status.managed_block_compliant);
    assert_eq!(status.immutable_state, HostsImmutableState::NotRequired);
}

#[test]
fn managed_block_text_lists_each_domain_for_both_address_families() {
    let config = instagram_policy();
    assert_eq!(
        render_managed_block(&config),
        "# BEGIN BLOCKUNTU MANAGED\n\
         # This block is managed by blockuntud. Manual edits are repaired.\n\
         0.0.0.0 instagram.com\n\
         :: instagram.com\n\
         0.0.0.0 www.instagram.com\n\
         :: www.instagram.com\n\
         # END BLOCKUNTU MANAGED\n"
    );
}

#[test]
fn a_second_repair_leaves_the_hosts_file_unchanged() {
    let block = render_managed_block(&instagram_policy());
    let once = replace_managed_block("127.0.0.1 localhost\n", &block);
    let twice = replace_managed_block(&once, &block);
    assert_eq!(once, twice);
    assert!(managed_block_present(&once));
    assert_eq!(remove_managed_block_from(&once), "127.0.0.1 localhost\n");
    assert_eq!(remove_managed_block_from("127.0.0.1 localhost\n"), "127.0.0.1 localhost\n");
}

#[test]
fn hosts_status_reports_an_unreadable_file() {
    let config = instagram_policy();
    let manager = HostsManager::new_with_immutable("/etc/hosts".to_string(), true);
    let status = manager.status(
        &config,
        Err("permission denied".to_string()),
        manager.immutable_status(Ok(true)),
    );
    assert!(!status.managed_block_present);
    assert_eq!(status.immutable_state, HostsImmutableState::Unknown);
    assert_eq!(status.detail, "hosts file cannot be read: permission denied");
    assert!(status.immutable_required);
}

#[test]
fn immutable_flag_is_read_from_lsattr_output() {
    assert!(lsattr_flags_immutable("----i---------e------- /etc/hosts\n"));
    assert!(!lsattr_flags_immutable("--------------e------- /etc/hosts\n"));
    assert!(!lsattr_flags_immutable(""));
    let manager = HostsManager::new_with_immutable("/etc/hosts".to_string(), true);
    assert_eq!(manager.immutable_status(Ok(false)).0, HostsImmutableState::Disabled);
    assert_eq!(
        manager.immutable_status(Err("lsattr failed".to_string())),
        (HostsImmutableState::Unknown, "lsattr failed".to_string())
    );
    assert!(manager.clear_immutable_if_needed(true));
    assert!(!manager.clear_immutable_if_needed(false));
}

#[test]
fn hosts_repair_detail_names_the_outcome() {
    assert_eq!(hosts_repair_detail(Some(HostsRepairStatus::Repaired)), ";hosts=Repaired");
    assert_eq!(
        hosts_repair_detail(Some(HostsRepairStatus::AlreadyCompliant)),
        ";hosts=AlreadyCompliant"
    );
    assert_eq!(hosts_repair_detail(None), "");
}

#[test]
fn repairs_missing_policy_for_the_chrome_web_store() {
    let manager = ChromePolicyManager::new(
        "/tmp/chrome/policies/managed/blockuntu.json".to_string(),
        "opfljaancedgklbpnbpjfhdbbhbfpnoc".to_string(),
    );

    let first = manager.verify_and_repair(None);
    assert_eq!(first.status, ChromePolicyRepairStatus::Repaired);
    let written = first.contents.expect("a repair writes the policy");
    let second = manager.verify_and_repair(Some(&written));
    assert_eq!(second.status, ChromePolicyRepairStatus::AlreadyCompliant);
    assert!(second.contents.is_none());

    let parsed: Value = serde_json::from_slice(&written).expect("policy should parse");
    assert_eq!(
        parsed["ExtensionInstallForcelist"][0],
        "opfljaancedgklbpnbpjfhdbbhbfpnoc;https://clients2.google.com/service/update2/crx"
    );
    assert_eq!(
        parsed["ExtensionSettings"]["opfljaancedgklbpnbpjfhdbbhbfpnoc"]["installation_mode"],
        "force_installed"
    );
    assert_eq!(
        parsed["ExtensionSettings"]["opfljaancedgklbpnbpjfhdbbhbfpnoc"]["update_url"],
        "https://clients2.google.com/service/update2/crx"
    );

    let status = manager.status(PolicyFileRead::Contents(written));
    assert!(status.compliant);
    assert!(status.force_install_configured);
}

#[test]
fn writes_each_private_browsing_policy_variant() {
    let chrome = ChromePolicyManager::for_browser(
        "/tmp/chrome.json".to_string(),
        "extension".to_string(),
        "Chrome".to_string(),
    );
    let edge = ChromePolicyManager::for_browser(
        "/tmp/edge.json".to_string(),
        "extension".to_string(),
        "Microsoft Edge".to_string(),
    );
    let urls = vec!["blocked.example".to_string(), ".exact.example".to_string()];
    let listed = Value::from(vec!["blocked.example", ".exact.example"]);

    let disabled: Value =
        serde_json::from_slice(&chrome.expected_policy_for(ChromiumIncognitoMode::Disabled, &[]))
            .expect("policy should parse");
    assert_eq!(disabled["IncognitoModeAvailability"], 1);
    let chrome_policy: Value = serde_json::from_slice(
        &chrome.expected_policy_for(ChromiumIncognitoMode::PolicyUrlBlocking, &urls),
    )
    .expect("policy should parse");
    assert_eq!(chrome_policy["IncognitoModeAvailability"], 0);
    assert_eq!(chrome_policy["IncognitoModeUrlBlocklist"], listed);

    let edge_policy: Value = serde_json::from_slice(
        &edge.expected_policy_for(ChromiumIncognitoMode::PolicyUrlBlocking, &urls),
    )
    .expect("policy should parse");
    assert_eq!(edge_policy["InPrivateModeAvailability"], 0);
    assert_eq!(edge_policy["InPrivateModeUrlBlocklist"], listed);
}

#[test]
fn chromium_policy_status_explains_a_missing_or_broken_file() {
    let manager = ChromePolicyManager::new("/tmp/chrome.json".to_string(), "ext".to_string());
    let missing = manager.status(PolicyFileRead::Missing);
    assert!(!missing.policy_exists);
    assert!(!missing.compliant);
    let broken = manager.status(PolicyFileRead::Contents(b"{not json".to_vec()));
    assert!(broken.policy_exists);
    assert!(!broken.valid_json);
    assert!(!broken.compliant);
    let repaired = manager.verify_and_repair(Some(b"{not json"));
    assert_eq!(repaired.status, ChromePolicyRepairStatus::Repaired);
}

const FIREFOX_INSTALL_URL: &str =
    "https://addons.mozilla.org/firefox/downloads/latest/blockuntu/latest.xpi";

#[test]
fn repairs_missing_policy_and_then_accepts_it() {
    let manager = FirefoxPolicyManager::new(
        "/tmp/firefox/policies/policies.json".to_string(),
        "blockuntu@example.local".to_string(),
        FIREFOX_INSTALL_URL.to_string(),
    );

    let first = manager.verify_and_repair(None, false).expect("repair should work");
    assert_eq!(first.status, RepairStatus::Repaired);
    let written = first.contents.expect("a repair writes the policy");
    let second = manager.verify_and_repair(Some(&written), false).expect("second check should pass");
    assert_eq!(second.status, RepairStatus::AlreadyCompliant);

    let policy = String::from_utf8(written.clone()).expect("policy should be text");
    assert!(policy.contains("\"force_installed\""));
    assert!(policy.contains("\"private_browsing\""));
    assert!(policy.contains("\"PrivateBrowsingModeAvailability\""));
    assert!(policy.contains("\"DisableDeveloperTools\""));
    assert!(policy.contains(FIREFOX_INSTALL_URL));

    let status = manager.status(PolicyFileRead::Contents(written));
    assert!(status.compliant);
    assert!(status.private_browsing_enabled);
    assert!(status.private_browsing_available);
}

const BROWSER_OWNED_POLICY: &str = r#"{
    "policies": {
        "DisableDeveloperTools": false,
        "WebsiteFilter": { "Block": ["https://localhost/*"] },
        "ExtensionSettings": {
            "other@example.local": { "installation_mode": "normal_installed" }
        },
        "Preferences": {
            "browser.startup.homepage": { "Value": "https://example.invalid" }
        }
    }
}"#;

#[test]
fn merges_and_restores_a_browser_owned_policy() {
    let original: Value = serde_json::from_str(BROWSER_OWNED_POLICY).expect("policy should parse");
    let original_bytes = serde_json::to_vec_pretty(&original).expect("policy should serialize");
    let manager = FirefoxPolicyManager::merging_existing_policy(
        "/tmp/librewolf/distribution/policies.json".to_string(),
        "blockuntu@example.local".to_string(),
        FIREFOX_INSTALL_URL.to_string(),
        "/tmp/backups/librewolf.json".to_string(),
    );

    let plan = manager.verify_and_repair(Some(&original_bytes), false).expect("merge should work");
    assert_eq!(plan.status, RepairStatus::Repaired);
    let backup = plan.backup.expect("the merge keeps a backup");
    let merged_bytes = plan.contents.expect("the merge writes the policy");
    assert!(manager.status(PolicyFileRead::Contents(merged_bytes.clone())).compliant);
    let again = manager.verify_and_repair(Some(&merged_bytes), true).expect("check should pass");
    assert_eq!(again.status, RepairStatus::AlreadyCompliant);

    let merged: Value = serde_json::from_slice(&merged_bytes).expect("merged policy should parse");
    assert_eq!(merged["policies"]["WebsiteFilter"], original["policies"]["WebsiteFilter"]);
    assert_eq!(merged["policies"]["DisableDeveloperTools"], true);
    assert!(merged["policies"]["ExtensionSettings"].get("blockuntu@example.local").is_some());

    let restored_bytes = manager
        .removal_contents(&backup, &merged_bytes)
        .expect("restore should work")
        .expect("the browser had a policy of its own");
    let restored: Value = serde_json::from_slice(&restored_bytes).expect("restored policy should parse");
    assert_eq!(restored, original);
}

#[test]
fn merging_into_a_broken_policy_is_refused() {
    let manager = FirefoxPolicyManager::merging_existing_policy(
        "/tmp/librewolf/distribution/policies.json".to_string(),
        "blockuntu@example.local".to_string(),
        FIREFOX_INSTALL_URL.to_string(),
        "/tmp/backups/librewolf.json".to_string(),
    );
    assert!(manager.verify_and_repair(Some(b"{broken"), false).is_err());
}

#[test]
fn removing_a_merge_into_a_missing_policy_deletes_the_file() {
    let manager = FirefoxPolicyManager::merging_existing_policy(
        "/tmp/librewolf/distribution/policies.json".to_string(),
        "blockuntu@example.local".to_string(),
        FIREFOX_INSTALL_URL.to_string(),
        "/tmp/backups/librewolf.json".to_string(),
    );
    let backup = manager.merged_policy_backup(None).expect("backup should build");
    assert!(backup.policy_was_missing);
    let written = manager.expected_policy();
    assert_eq!(manager.removal_contents(&backup, &written).expect("removal should work"), None);
}

fn private_url_rules() -> Vec<RuleConfig> {
    vec![
        rule(
            "hard",
            RuleTier::Hard,
            vec![
                pattern(RulePatternKind::Domain, "blocked.example", true),
                pattern(RulePatternKind::Domain, "exact.example", false),
                pattern(RulePatternKind::ExactUrl, "https://blocked.example/path", false),
                pattern(RulePatternKind::UrlContains, "watch", false),
            ],
        ),
        rule(
            "scheduled",
            RuleTier::ScheduledBlock,
            vec![pattern(RulePatternKind::UrlPrefix, "https://scheduled.example/path", false)],
        ),
        rule(
            "controlled",
            RuleTier::ControlledAccess,
            vec![pattern(RulePatternKind::Domain, "controlled.example", true)],
        ),
    ]
}

#[test]
fn private_url_policy_converts_only_representable_active_rules() {
    let rules = private_url_rules();
    let (entries, unsupported) = chromium_incognito_url_blocklist(&rules, &[], &[false, true, true]);
    assert_eq!(
        entries,
        vec![
            ".exact.example".to_string(),
            "blocked.example".to_string(),
            "controlled.example".to_string(),
            "https://blocked.example/path".to_string(),
            "https://scheduled.example/path".to_string(),
        ]
    );
    assert_eq!(unsupported, 1);
}

#[test]
fn private_url_policy_leaves_out_inactive_site_lists_unless_detox_selects_them() {
    let rules = private_url_rules();
    let (entries, _) = chromium_incognito_url_blocklist(&rules, &[], &[false, false, false]);
    assert_eq!(entries.len(), 3);
    let (entries, _) =
        chromium_incognito_url_blocklist(&rules, &["scheduled".to_string()], &[false, false, false]);
    assert_eq!(entries.len(), 4);
    assert!(entries.contains(&"https://scheduled.example/path".to_string()));
}

#[test]
fn private_browsing_disable_scope_and_settings_access_follow_schedule_activity() {
    let scope = ChromiumIncognitoDisableScope::ActiveScheduleOrDetox;
    let access = ProtectedAccessMode::NoActiveScheduleOrDetox;

    let active = chromium_incognito_policy_settings(
        ChromiumIncognitoMode::Disabled,
        scope,
        false,
        false,
        &[],
        &[],
        &[],
    );
    assert!(active.private_browsing_disabled);
    assert_eq!(active.mode, ChromiumIncognitoMode::Disabled);
    assert!(!chromium_incognito_settings_change_allowed(access, false, false, false));

    let inactive = chromium_incognito_policy_settings(
        ChromiumIncognitoMode::Disabled,
        scope,
        false,
        true,
        &[],
        &[],
        &[],
    );
    assert!(!inactive.private_browsing_disabled);
    assert_eq!(inactive.mode, ChromiumIncognitoMode::ManualConsent);
    assert!(chromium_incognito_settings_change_allowed(access, false, false, true));

    let tampered = chromium_incognito_policy_settings(
        ChromiumIncognitoMode::Disabled,
        scope,
        true,
        true,
        &[],
        &[],
        &[],
    );
    assert!(tampered.private_browsing_disabled);
    assert!(!chromium_incognito_settings_change_allowed(access, true, false, true));
}

#[test]
fn recovery_snapshots_are_written_through_a_hidden_temporary_file() {
    assert_eq!(
        recovery_temp_path("/var/lib/blockuntu/policy-recovery.toml"),
        "/var/lib/blockuntu/.policy-recovery.toml.tmp"
    );
}

#[test]
fn disabled_tier1_lists_get_no_host_lines() {
    let mut config = instagram_policy();
    let empty_block = "# BEGIN BLOCKUNTU MANAGED\n# This block is managed by blockuntud. Manual edits are repaired.\n# END BLOCKUNTU MANAGED\n";
    for rule in &mut config.rules {
        rule.enabled = false;
    }
    assert_eq!(render_managed_block(&config), empty_block);
}
