use blockuntu::clock_integrity::{
    clock_state_name, next_clock_integrity, reboot_clock_violation, ClockDecision,
};

fn decision(tampered: bool, detail: &str, report: bool) -> ClockDecision {
    ClockDecision { tampered, detail: detail.to_string(), report }
}

#[test]
fn a_clock_without_violation_stays_fine() {
    assert_eq!(
        next_clock_integrity(None, None, None),
        decision(false, "Clock movement matches monotonic system uptime.", false)
    );
    assert_eq!(
        next_clock_integrity(Some("ok"), Some("whatever"), None),
        decision(false, "Clock movement matches monotonic system uptime.", false)
    );
    assert_eq!(clock_state_name(false), "ok");
    assert_eq!(clock_state_name(true), "tampered");
}

#[test]
fn tampering_is_reported_once_and_then_sticks() {
    let violation = "System monotonic uptime moved backwards.".to_string();
    assert_eq!(
        next_clock_integrity(Some("ok"), None, Some(violation.clone())),
        decision(true, "System monotonic uptime moved backwards.", true)
    );
    assert_eq!(
        next_clock_integrity(Some("tampered"), Some("old"), Some(violation)),
        decision(true, "System monotonic uptime moved backwards.", false)
    );
    assert_eq!(
        next_clock_integrity(Some("tampered"), Some("old"), None),
        decision(true, "old", false)
    );
    assert_eq!(
        next_clock_integrity(Some("tampered"), Some(""), None),
        decision(true, "System clock tampering was detected previously.", false)
    );
    assert_eq!(
        next_clock_integrity(Some("tampered"), None, None),
        decision(true, "System clock tampering was detected previously.", false)
    );
}

#[test]
fn a_reboot_may_move_the_clock_back_five_minutes_at_most() {
    assert_eq!(
        reboot_clock_violation((1_000, 0), (699, 0)).as_deref(),
        Some("System clock moved backwards by 301s across reboot.")
    );
    assert_eq!(reboot_clock_violation((1_000, 0), (700, 0)), None);
    assert_eq!(reboot_clock_violation((1_000, 0), (699, 500_000_000)), None);
    assert_eq!(reboot_clock_violation((1_000, 0), (5_000, 0)), None);
    assert_eq!(
        reboot_clock_violation((1_779_645_600, 0), (1_779_559_200, 0)).as_deref(),
        Some("System clock moved backwards by 86400s across reboot.")
    );
}
