use nurse_call_bridge::tracker::{CallTracker, PULSES_TO_CLEAR};

#[test]
fn fresh_tracker_waits_for_nothing() {
    let t = CallTracker::new();
    assert_eq!(t.last_active_code, None);
    assert!(!t.awaiting_reset);
    assert_eq!(t.standby_count, 0);
}

#[test]
fn pulses_are_ignored_while_nothing_is_awaited() {
    let mut t = CallTracker::new();
    for _ in 0..10 {
        assert_eq!(t.on_pulse(), None);
    }
    assert_eq!(t, CallTracker::new());
}

#[test]
fn five_pulses_clear_the_call_and_four_do_not() {
    assert_eq!(PULSES_TO_CLEAR, 5);
    let mut t = CallTracker::new();
    t.on_call_created("105");
    assert_eq!(t.last_active_code, Some("105".to_string()));
    assert!(t.awaiting_reset);
    for n in 1..=4 {
        assert_eq!(t.on_pulse(), None);
        assert!(t.awaiting_reset);
        assert_eq!(t.standby_count, n);
    }
    assert_eq!(t.on_pulse(), Some("105".to_string()));
    assert!(!t.awaiting_reset);
    assert_eq!(t.standby_count, 5);
    assert_eq!(t.on_pulse(), None);
    assert_eq!(t.standby_count, 5);
}

#[test]
fn acknowledgment_ends_the_wait() {
    let mut t = CallTracker::new();
    t.on_call_created("105");
    t.on_pulse();
    t.on_pulse();
    t.on_acknowledged();
    assert!(!t.awaiting_reset);
    assert_eq!(t.last_active_code, Some("105".to_string()));
    for _ in 0..5 {
        assert_eq!(t.on_pulse(), None);
    }
    assert_eq!(t.standby_count, 2);
}

#[test]
fn a_new_call_starts_the_count_again() {
    let mut t = CallTracker::new();
    t.on_call_created("105");
    for _ in 0..4 {
        t.on_pulse();
    }
    t.on_call_created("107");
    assert_eq!(t.standby_count, 0);
    for _ in 0..4 {
        assert_eq!(t.on_pulse(), None);
    }
    assert_eq!(t.on_pulse(), Some("107".to_string()));
}

#[test]
fn the_count_stops_at_the_largest_number() {
    let mut t = CallTracker {
        last_active_code: None,
        awaiting_reset: true,
        standby_count: u32::MAX,
    };
    assert_eq!(t.on_pulse(), None);
    assert_eq!(t.standby_count, u32::MAX);
    assert!(!t.awaiting_reset);
}
