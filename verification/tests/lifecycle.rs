use blockuntu::lifecycle::{
    plan_lifecycle, LifecycleKind, LifecycleNotice, LifecycleTarget, NotificationDraft,
};
use blockuntu::notifications::NotificationPreferences;

fn preferences() -> NotificationPreferences {
    NotificationPreferences {
        enabled: true,
        website_blocked: true,
        application_blocked: true,
        allowance_warnings: true,
        allowance_warning_minutes: vec![5],
        schedule_started: true,
        schedule_ended: true,
        detox_started: true,
        detox_ended: false,
    }
}

fn work(active: bool) -> LifecycleTarget {
    LifecycleTarget { id: "work".to_string(), name: Some("Work".to_string()), active, cancelled: false }
}

#[test]
fn schedule_notifications_fire_once_for_each_clock_boundary() {
    let prefs = preferences();
    let baseline = plan_lifecycle(LifecycleKind::Schedule, &Vec::new(), &[work(false)], &prefs);
    assert!(baseline.notices.is_empty());
    assert_eq!(baseline.states, vec![("work".to_string(), false)]);

    let started = plan_lifecycle(LifecycleKind::Schedule, &baseline.states, &[work(true)], &prefs);
    assert_eq!(
        started.notices,
        vec![LifecycleNotice {
            target_id: "work".to_string(),
            event_kind: "schedule_started".to_string(),
            event_detail: "\"Work\" is now active.".to_string(),
            notification: Some(NotificationDraft {
                kind: "schedule_started".to_string(),
                title: "Schedule started".to_string(),
                body: "\"Work\" is now active.".to_string(),
                dedupe_key: "schedule_started:work".to_string(),
            }),
        }]
    );

    let unchanged = plan_lifecycle(LifecycleKind::Schedule, &started.states, &[work(true)], &prefs);
    assert!(unchanged.notices.is_empty());

    let ended = plan_lifecycle(LifecycleKind::Schedule, &unchanged.states, &[work(false)], &prefs);
    assert_eq!(ended.notices.len(), 1);
    assert_eq!(ended.notices[0].event_kind, "schedule_ended");
    assert_eq!(ended.notices[0].event_detail, "\"Work\" is no longer active.");
}

#[test]
fn detox_lifecycle_respects_preferences_and_forgets_removed_sessions() {
    let prefs = preferences();
    let previous = vec![
        ("detox-1".to_string(), true),
        ("detox-2".to_string(), false),
        ("gone".to_string(), true),
        ("gone".to_string(), true),
    ];
    let sessions = vec![
        LifecycleTarget { id: "detox-1".to_string(), name: None, active: false, cancelled: true },
        LifecycleTarget { id: "detox-2".to_string(), name: Some("Focus".to_string()), active: true, cancelled: false },
    ];
    let plan = plan_lifecycle(LifecycleKind::Detox, &previous, &sessions, &prefs);
    assert_eq!(plan.notices.len(), 2);
    assert_eq!(plan.notices[0].event_kind, "detox_ended");
    assert_eq!(plan.notices[0].event_detail, "Detox reached its end time");
    assert_eq!(plan.notices[0].notification, None);
    assert_eq!(plan.notices[1].event_detail, "Detox became active");
    assert_eq!(
        plan.notices[1].notification.as_ref().map(|n| n.body.as_str()),
        Some("\"Focus\" is now active.")
    );
    assert_eq!(plan.forgotten, vec!["gone".to_string()]);

    let mut all_on = prefs.clone();
    all_on.detox_ended = true;
    let ended_early = plan_lifecycle(LifecycleKind::Detox, &previous, &sessions[..1], &all_on);
    assert_eq!(
        ended_early.notices[0].notification.as_ref().map(|n| (n.title.as_str(), n.body.as_str())),
        Some(("Detox ended", "\"detox-1\" was ended early."))
    );

    let mut disabled = prefs.clone();
    disabled.enabled = false;
    let quiet = plan_lifecycle(LifecycleKind::Detox, &previous, &sessions, &disabled);
    assert!(quiet.notices.iter().all(|n| n.notification.is_none()));
}
