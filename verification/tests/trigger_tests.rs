use course_sniper::args::SniperArgs;
use course_sniper::trigger::{trigger_tick, wait_decision, RegistrationTime, WaitAction};

#[test]
fn noon_and_midnight_normalization() {
    // 12 AM means midnight, 12 PM means noon.
    assert_eq!(RegistrationTime(12, 0, true).normalized_hour(), 0);
    assert_eq!(RegistrationTime(12, 30, false).normalized_hour(), 12);
    assert_eq!(RegistrationTime(1, 0, true).normalized_hour(), 1);
    assert_eq!(RegistrationTime(1, 0, false).normalized_hour(), 13);
    assert_eq!(RegistrationTime(11, 59, false).normalized_hour(), 23);
}

#[test]
fn fires_exactly_on_target_minute() {
    assert_eq!(wait_decision(14, 30, 0, 14, 30), WaitAction::Fire);
    assert_eq!(wait_decision(14, 30, 59, 14, 30), WaitAction::Fire);
}

#[test]
fn never_fires_before_target() {
    assert_eq!(wait_decision(14, 29, 59, 14, 30), WaitAction::Spin);
    assert_eq!(wait_decision(14, 29, 49, 14, 30), WaitAction::Sleep);
    assert_eq!(wait_decision(13, 30, 0, 14, 30), WaitAction::Sleep);
}

#[test]
fn spins_through_final_stretch() {
    assert_eq!(wait_decision(14, 29, 50, 14, 30), WaitAction::Spin);
    assert_eq!(wait_decision(14, 29, 55, 14, 30), WaitAction::Spin);
    // The minute before, but not yet at its 50-second mark: still sleeping.
    assert_eq!(wait_decision(14, 29, 0, 14, 30), WaitAction::Sleep);
}

#[test]
fn minute_rollover_at_top_of_hour() {
    // Target at the top of an hour: the final stretch lies in the previous
    // hour's minute 59.
    assert_eq!(wait_decision(9, 59, 55, 10, 0), WaitAction::Spin);
    assert_eq!(wait_decision(10, 0, 3, 10, 0), WaitAction::Fire);
    assert_eq!(wait_decision(9, 59, 10, 10, 0), WaitAction::Sleep);
}

#[test]
fn minute_rollover_at_midnight() {
    assert_eq!(wait_decision(23, 59, 52, 0, 0), WaitAction::Spin);
    assert_eq!(wait_decision(0, 0, 0, 0, 0), WaitAction::Fire);
    assert_eq!(wait_decision(23, 58, 59, 0, 0), WaitAction::Sleep);
}

#[test]
fn clock_reading_stays_in_range() {
    // The trigger reads the real clock; whatever it reads stays in range
    // and the action matches the reading.
    let ((h, m, s), action) = trigger_tick(23, 59);
    assert!(h < 24 && m < 60 && s < 60);
    if h == 23 && m == 59 {
        assert_eq!(action, WaitAction::Fire);
    }
}

#[test]
fn sniper_count_range_enforced() {
    assert!(SniperArgs::new(false, 0, false).is_none());
    assert!(SniperArgs::new(false, 20, false).is_none());
    let a = SniperArgs::new(true, 1, true).unwrap();
    assert!(a.attach && a.debug);
    assert_eq!(a.snipers, 1);
}
