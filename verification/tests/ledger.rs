use nurse_call_bridge::ledger::{should_emit, DebounceLedger};

#[test]
fn first_request_passes() {
    let mut ledger = DebounceLedger::new();
    assert_eq!(ledger.last_accepted("trigger:105"), None);
    assert!(ledger.accept("trigger:105", 1500, 10_000));
    assert_eq!(ledger.last_accepted("trigger:105"), Some(10_000));
}

#[test]
fn request_within_the_window_is_held_back() {
    let mut ledger = DebounceLedger::new();
    assert!(ledger.accept("trigger:105", 1500, 10_000));
    assert!(!ledger.accept("trigger:105", 1500, 10_000));
    assert!(!ledger.accept("trigger:105", 1500, 11_499));
    assert_eq!(ledger.last_accepted("trigger:105"), Some(10_000));
}

#[test]
fn request_at_the_end_of_the_window_passes() {
    let mut ledger = DebounceLedger::new();
    assert!(ledger.accept("trigger:105", 1500, 10_000));
    assert!(ledger.accept("trigger:105", 1500, 11_500));
    assert_eq!(ledger.last_accepted("trigger:105"), Some(11_500));
    assert!(!ledger.accept("trigger:105", 1500, 12_999));
    assert!(ledger.accept("trigger:105", 1500, 13_000));
}

#[test]
fn held_back_request_does_not_move_the_window() {
    let mut ledger = DebounceLedger::new();
    assert!(ledger.accept("k", 1500, 0));
    assert!(!ledger.accept("k", 1500, 1000));
    assert!(ledger.accept("k", 1500, 1500));
}

#[test]
fn keys_are_debounced_apart() {
    let mut ledger = DebounceLedger::new();
    assert!(ledger.accept("trigger:105", 1500, 10_000));
    assert!(ledger.accept("trigger:106", 1500, 10_100));
    assert!(!ledger.accept("trigger:105", 1500, 10_200));
    assert!(!ledger.accept("trigger:106", 1500, 10_300));
    assert!(ledger.accept("enclose:105", 1500, 10_400));
    assert_eq!(ledger.last_accepted("trigger:105"), Some(10_000));
    assert_eq!(ledger.last_accepted("trigger:106"), Some(10_100));
    assert_eq!(ledger.last_accepted("enclose:105"), Some(10_400));
}

#[test]
fn a_clock_that_went_backwards_counts_as_no_time_passed() {
    let mut ledger = DebounceLedger::new();
    assert!(ledger.accept("k", 1500, 10_000));
    assert!(!ledger.accept("k", 1500, 5_000));
    assert!(ledger.accept("k", 0, 5_000));
    assert_eq!(ledger.last_accepted("k"), Some(5_000));
}

#[test]
fn an_empty_window_holds_nothing_back() {
    let mut ledger = DebounceLedger::new();
    assert!(ledger.accept("k", 0, 7));
    assert!(ledger.accept("k", 0, 7));
}

#[test]
fn should_emit_goes_by_the_system_clock() {
    let mut ledger = DebounceLedger::new();
    assert!(should_emit(&mut ledger, "open_err:/dev/ttyUSB0", 3_600_000));
    assert!(!should_emit(&mut ledger, "open_err:/dev/ttyUSB0", 3_600_000));
    assert!(should_emit(&mut ledger, "open_err:/dev/ttyUSB1", 3_600_000));
    assert!(should_emit(&mut ledger, "open_err:/dev/ttyUSB0", 0));
    let seen = ledger.last_accepted("open_err:/dev/ttyUSB0").unwrap();
    assert!(seen > 1_600_000_000_000);
}
