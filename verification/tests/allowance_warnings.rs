use blockuntu::allowance_warnings::{allowance_warning, crossed_allowance_threshold, AllowanceWarning};
use blockuntu::notifications::NotificationPreferences;

fn preferences(minutes: Vec<u32>) -> NotificationPreferences {
    NotificationPreferences {
        enabled: true,
        website_blocked: true,
        application_blocked: true,
        allowance_warnings: true,
        allowance_warning_minutes: minutes,
        schedule_started: true,
        schedule_ended: true,
        detox_started: true,
        detox_ended: true,
    }
}

#[test]
fn allowance_notifications_fire_only_when_thresholds_are_crossed() {
    let prefs = preferences(vec![5, 1]);
    let day = "2026-05-18";
    // Baseline: nothing stored yet.
    assert_eq!(allowance_warning("app-controlled", "Example App", day, None, 360, &prefs), None);
    // Six minutes minus 61 seconds left: the five-minute threshold is crossed.
    let warning = allowance_warning("app-controlled", "Example App", day, Some((day, 360)), 299, &prefs)
        .expect("five-minute crossing");
    assert_eq!(
        warning,
        AllowanceWarning {
            threshold_minutes: 5,
            body: "5 minutes remain for \"Example App\".".to_string(),
            dedupe_key: "allowance_warning:app-controlled:2026-05-18:5".to_string(),
            event_detail: "threshold_minutes=5;remaining_seconds=299".to_string(),
        }
    );
    // Unchanged usage: no duplicate.
    assert_eq!(allowance_warning("app-controlled", "Example App", day, Some((day, 299)), 299, &prefs), None);
    // Below one minute.
    let last = allowance_warning("app-controlled", "Example App", day, Some((day, 299)), 0, &prefs)
        .expect("one-minute crossing");
    assert_eq!(last.threshold_minutes, 1);
    assert!(last.body.contains("Less than 1 minute"));
}

#[test]
fn threshold_crossings_need_the_same_day_and_pick_the_smallest() {
    assert_eq!(crossed_allowance_threshold(Some(("2026-05-17", 600)), "2026-05-18", &[5, 1], 0), None);
    assert_eq!(crossed_allowance_threshold(Some(("2026-05-18", 600)), "2026-05-18", &[5, 1, 10], 0), Some(1));
    assert_eq!(crossed_allowance_threshold(Some(("2026-05-18", 600)), "2026-05-18", &[5, 1, 10], 300), Some(5));
    assert_eq!(crossed_allowance_threshold(Some(("2026-05-18", 300)), "2026-05-18", &[5], 200), None);
    assert_eq!(crossed_allowance_threshold(None, "2026-05-18", &[5], 0), None);
    let mut quiet = preferences(vec![5]);
    quiet.allowance_warnings = false;
    assert_eq!(allowance_warning("r", "R", "d", Some(("d", 400)), 100, &quiet), None);
}
