use blockuntu::daemon_error::DaemonError;
use blockuntu::deadlines::{instant_text, parse_optional_now, tier1_edit_window_active};
use blockuntu::rule_upserts::upsert_site_list;
use blockuntu::schedule_targets::RuleActivity;
use blockuntu::detox::{
    check_detox_cancellable, detox_started_detail, prepare_detox, validate_detox_targets,
    DetoxRequest, DetoxSessionState, MAX_DETOX_DURATION_MINUTES,
};
use blockuntu::policy::{
    AppMatcherConfig, AppMatcherKind, AppRuleConfig, PolicyConfig, RuleConfig, RulePattern,
    RulePatternKind, RuleTier, StrictModeConfig,
};

/// The moment the Detox requests of these tests are made: 2026-05-22T18:00:00Z.
const START: (i64, u32) = (1_779_472_800, 0);

fn site_list(id: &str, tier: RuleTier) -> RuleConfig {
    RuleConfig {
        id: id.to_string(),
        name: id.to_string(),
        tier,
        enabled: true,
        patterns: vec![RulePattern {
            kind: RulePatternKind::Domain,
            value: format!("{id}.example"),
            match_subdomains: true,
        }],
        schedule_ids: Vec::new(),
        allowance_id: None,
    }
}

fn app_rule(id: &str, tier: RuleTier) -> AppRuleConfig {
    AppRuleConfig {
        id: id.to_string(),
        name: id.to_string(),
        tier,
        enabled: true,
        matchers: vec![AppMatcherConfig {
            kind: AppMatcherKind::ExecutableBasename,
            value: id.to_string(),
        }],
        schedule_ids: Vec::new(),
        allowance_id: None,
    }
}

fn config() -> PolicyConfig {
    PolicyConfig {
        rules: vec![
            site_list("hard", RuleTier::Hard),
            site_list("social", RuleTier::ScheduledBlock),
            site_list("video", RuleTier::ControlledAccess),
        ],
        app_rules: vec![
            app_rule("unsupported-browsers-hard", RuleTier::Hard),
            app_rule("games", RuleTier::ScheduledBlock),
        ],
        strict_mode: StrictModeConfig {
            kill_supported_browser_if_extension_stale: false,
            require_firefox_extension: false,
            require_chrome_extension: false,
            grace_seconds: 60,
            block_unsupported_browsers: true,
        },
    }
}

fn ids(values: &[&str]) -> Vec<String> {
    values.iter().map(|value| value.to_string()).collect()
}

fn invalid(message: &str) -> Result<(), DaemonError> {
    Err(DaemonError::InvalidRequest(message.to_string()))
}

#[test]
fn detox_accepts_existing_tier2_and_tier3_targets() {
    assert_eq!(
        validate_detox_targets(&config(), &ids(&["social", "video"]), &ids(&["games"])),
        Ok(())
    );
    assert_eq!(validate_detox_targets(&config(), &[], &[]), Ok(()));
}

#[test]
fn detox_refuses_missing_and_tier1_targets() {
    assert_eq!(
        validate_detox_targets(&config(), &ids(&["social", "missing"]), &[]),
        invalid("site list 'missing' does not exist")
    );
    assert_eq!(
        validate_detox_targets(&config(), &ids(&["hard"]), &[]),
        invalid("site list 'hard' is Tier 1 and cannot be used for detox")
    );
    assert_eq!(
        validate_detox_targets(&config(), &[], &ids(&["games", "absent"])),
        invalid("app rule 'absent' does not exist")
    );
    assert_eq!(
        validate_detox_targets(&config(), &[], &ids(&["unsupported-browsers-hard"])),
        invalid("app rule 'unsupported-browsers-hard' is Tier 1 and cannot be used for detox")
    );
}

#[test]
fn detox_reports_site_lists_before_application_rules() {
    assert_eq!(
        validate_detox_targets(&config(), &ids(&["missing"]), &ids(&["absent"])),
        invalid("site list 'missing' does not exist")
    );
}


#[test]
fn detox_supports_multiweek_durations_and_caps_them_at_twelve_weeks() {
    let two_weeks = prepare_detox(&config(), 2 * 7 * 24 * 60, None, ids(&["social"]), Vec::new(), START)
        .expect("two weeks is allowed");
    assert_eq!(two_weeks.duration_minutes, 20160);
    assert_eq!(two_weeks.starts_at, START);
    assert_eq!(two_weeks.ends_at, (1_780_682_400, 0));
    assert_eq!(instant_text(two_weeks.ends_at).as_deref(), Some("2026-06-05T18:00:00Z"));
    assert_eq!(MAX_DETOX_DURATION_MINUTES, 120960);
    let error = prepare_detox(
        &config(),
        MAX_DETOX_DURATION_MINUTES + 1,
        None,
        ids(&["social"]),
        Vec::new(),
        START,
    )
    .unwrap_err();
    assert_eq!(
        error,
        DaemonError::InvalidRequest("detox duration cannot exceed 120960 minutes".to_string())
    );
    assert!(prepare_detox(&config(), MAX_DETOX_DURATION_MINUTES, None, ids(&["social"]), Vec::new(), START).is_ok());
}

#[test]
fn detox_requests_are_normalized_and_checked_in_order() {
    assert_eq!(
        prepare_detox(&config(), 0, None, ids(&["missing"]), Vec::new(), START),
        Err(DaemonError::InvalidRequest("detox duration must be at least one minute".to_string()))
    );
    assert_eq!(
        prepare_detox(&config(), 30, None, ids(&["  ", ""]), Vec::new(), START),
        Err(DaemonError::InvalidRequest(
            "detox needs at least one site list or app rule".to_string()
        ))
    );
    assert_eq!(
        prepare_detox(&config(), 30, None, ids(&["hard"]), Vec::new(), START),
        Err(DaemonError::InvalidRequest(
            "site list 'hard' is Tier 1 and cannot be used for detox".to_string()
        ))
    );
    let request = prepare_detox(
        &config(),
        45,
        Some("  Deep work ".to_string()),
        ids(&[" social", "video", "social"]),
        ids(&["games"]),
        START,
    )
    .expect("valid detox");
    assert_eq!(
        request,
        DetoxRequest {
            name: Some("Deep work".to_string()),
            duration_minutes: 45,
            starts_at: START,
            ends_at: (1_779_472_800 + 45 * 60, 0),
            site_rule_ids: ids(&["social", "video"]),
            app_rule_ids: ids(&["games"]),
        }
    );
    assert_eq!(
        detox_started_detail(&request),
        "duration_minutes=45;site_rules=social,video;app_rules=games"
    );
    let unnamed = prepare_detox(&config(), 5, Some("   ".to_string()), Vec::new(), ids(&["games"]), START)
        .expect("valid detox");
    assert_eq!(unnamed.name, None);
    assert_eq!(detox_started_detail(&unnamed), "duration_minutes=5;site_rules=;app_rules=games");
}

#[test]
fn detox_cancellation_needs_a_running_session_and_the_tier1_window() {
    let now = (1_779_444_000, 0);
    let running = DetoxSessionState { cancelled: false, ends_at: (1_779_447_600, 0) };
    assert_eq!(check_detox_cancellable("detox-1", Some(running), now, true), Ok(()));
    assert_eq!(
        check_detox_cancellable("detox-1", None, now, true),
        Err(DaemonError::InvalidRequest("detox session 'detox-1' does not exist".to_string()))
    );
    assert_eq!(
        check_detox_cancellable(
            "detox-1",
            Some(DetoxSessionState { cancelled: true, ends_at: running.ends_at }),
            now,
            true
        ),
        Err(DaemonError::InvalidRequest("detox session 'detox-1' is already cancelled".to_string()))
    );
    assert_eq!(
        check_detox_cancellable(
            "detox-1",
            Some(DetoxSessionState { cancelled: false, ends_at: now }),
            now,
            true
        ),
        Err(DaemonError::InvalidRequest("detox session 'detox-1' has already ended".to_string()))
    );
    assert_eq!(
        check_detox_cancellable("detox-1", Some(running), now, false),
        Err(DaemonError::InvalidRequest(
            "Tier 1 edit unlock is required to cancel detox".to_string()
        ))
    );
}

#[test]
fn request_times_are_read_as_rfc3339() {
    assert_eq!(parse_optional_now(Some("2026-05-22T18:00:00Z")), Ok(Some(START)));
    assert_eq!(parse_optional_now(Some("2026-05-22T20:00:00+02:00")), Ok(Some(START)));
    assert_eq!(parse_optional_now(Some("2026-05-22T18:00:00.25Z")), Ok(Some((1_779_472_800, 250_000_000))));
    assert_eq!(parse_optional_now(None), Ok(None));
    match parse_optional_now(Some("next tuesday")) {
        Err(DaemonError::InvalidRequest(message)) => {
            assert!(message.starts_with("invalid RFC3339 now: "));
            assert!(message.len() > "invalid RFC3339 now: ".len());
        }
        other => panic!("unexpected {other:?}"),
    }
    assert_eq!(instant_text(START).as_deref(), Some("2026-05-22T18:00:00Z"));
    assert_eq!(instant_text((1_779_472_800, 250_000_000)).as_deref(), Some("2026-05-22T18:00:00.250Z"));
    assert_eq!(instant_text((i64::MAX, 0)), None);
}

#[test]
fn detox_session_blocks_until_privileged_cancel() {
    let at = |text: &str| parse_optional_now(Some(text)).expect("valid time").expect("a time");
    let start = at("2026-05-24T20:00:00+02:00");
    let mut policy = PolicyConfig {
        rules: vec![site_list("controlled", RuleTier::ControlledAccess)],
        app_rules: Vec::new(),
        strict_mode: config().strict_mode,
    };
    let request = prepare_detox(
        &policy,
        90,
        Some("Deep work".to_string()),
        ids(&["controlled"]),
        Vec::new(),
        start,
    )
    .expect("the detox starts");
    assert_eq!(request.name.as_deref(), Some("Deep work"));
    assert_eq!(request.ends_at, (start.0 + 90 * 60, 0));
    let session = DetoxSessionState { cancelled: false, ends_at: request.ends_at };

    let in_detox = RuleActivity {
        site_rules_in_detox: ids(&["controlled"]),
        active_site_rules: ids(&["controlled"]),
        app_rules_in_detox: Vec::new(),
        active_app_rules: Vec::new(),
    };
    let mut edited = site_list("controlled", RuleTier::ControlledAccess);
    edited.name = "Controlled edited".to_string();
    edited.patterns[0].value = "different.example".to_string();
    match upsert_site_list(&mut policy, edited, &in_detox, false) {
        Err(DaemonError::InvalidRequest(message)) => {
            assert!(message.contains("covered by an active detox session"), "{message}")
        }
        other => panic!("unexpected {other:?}"),
    }

    let unlocked = tier1_edit_window_active(None, at("2026-05-24T20:12:00+02:00"));
    match check_detox_cancellable("detox-1", Some(session), at("2026-05-24T20:12:00+02:00"), unlocked) {
        Err(DaemonError::InvalidRequest(message)) => {
            assert!(message.contains("Tier 1 edit unlock is required"), "{message}")
        }
        other => panic!("unexpected {other:?}"),
    }

    let unlock_until = "2026-05-24T20:28:00+02:00";
    let now = at("2026-05-24T20:14:00+02:00");
    let unlocked = tier1_edit_window_active(Some(unlock_until), now);
    assert!(unlocked);
    assert_eq!(check_detox_cancellable("detox-1", Some(session), now, unlocked), Ok(()));
}
