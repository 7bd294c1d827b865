use nurse_call_bridge::clock::Stamp;
use nurse_call_bridge::history::{
    AppendOutcome, CallHistory, CallNotice, CallRecord, CallSite, EncloseError, Status,
};
use nurse_call_bridge::master::{MasterDirectory, MasterEntry};

fn stamp(millis: i64, iso: &str, local: &str) -> Stamp {
    Stamp { millis, iso: iso.to_string(), local: local.to_string() }
}

fn created() -> Stamp {
    stamp(1_700_000_000_000, "2023-11-14T22:13:20Z", "22:13:20.11-14-2023")
}

fn cleared() -> Stamp {
    stamp(1_700_000_060_000, "2023-11-14T22:14:20Z", "22:14:20.11-14-2023")
}

fn directory(master_type: &str) -> MasterDirectory {
    MasterDirectory {
        master_type: master_type.to_string(),
        entries: vec![
            MasterEntry {
                char_code: "105".to_string(),
                room_name: "Room 5".to_string(),
                bed_name: "Bed B".to_string(),
                files: vec!["five.mp3".to_string(), "-".to_string(), String::new()],
            },
            MasterEntry {
                char_code: "106".to_string(),
                room_name: String::new(),
                bed_name: "Bed C".to_string(),
                files: vec![],
            },
        ],
    }
}

fn record(code: &str, room: &str, bed: &str, status: Status) -> CallRecord {
    let done = status == Status::Completed;
    CallRecord {
        id: 1,
        code: code.to_string(),
        room: room.to_string(),
        bed: bed.to_string(),
        display: format!("{} - {}", room, bed),
        status,
        time: "t".to_string(),
        timestamp: "ts".to_string(),
        reset_time: if done { Some("r".to_string()) } else { None },
        reset_time_str: if done { Some("rs".to_string()) } else { None },
        date_added: "a".to_string(),
        date_modified: "m".to_string(),
    }
}

fn completed(mut r: CallRecord, at: &Stamp) -> CallRecord {
    r.status = Status::Completed;
    r.reset_time = Some(at.iso.clone());
    r.reset_time_str = Some(at.local.clone());
    r.date_modified = at.iso.clone();
    r
}

fn site(code: &str, room: &str, bed: &str) -> CallSite {
    CallSite { code: code.to_string(), room: room.to_string(), bed: bed.to_string() }
}

#[test]
fn call_at_the_threshold_is_recorded() {
    let mut history = CallHistory::new();
    let outcome = history.append_active_at(&directory("Commax"), "105", 70, &created());
    assert_eq!(
        outcome,
        AppendOutcome::Created(CallNotice {
            code: "105".to_string(),
            room: "Room 5".to_string(),
            bed: "Bed B".to_string(),
            display: "Room 5 - Bed B".to_string(),
            files: vec!["five.mp3".to_string()],
        })
    );
    assert_eq!(
        history.records,
        vec![CallRecord {
            id: 1_700_000_000_000,
            code: "105".to_string(),
            room: "Room 5".to_string(),
            bed: "Bed B".to_string(),
            display: "Room 5 - Bed B".to_string(),
            status: Status::Active,
            time: "22:13:20.11-14-2023".to_string(),
            timestamp: "2023-11-14T22:13:20Z".to_string(),
            reset_time: None,
            reset_time_str: None,
            date_added: "2023-11-14T22:13:20Z".to_string(),
            date_modified: "2023-11-14T22:13:20Z".to_string(),
        }]
    );
}

#[test]
fn call_below_the_threshold_is_discarded() {
    let mut history = CallHistory::new();
    assert_eq!(
        history.append_active_at(&directory("Commax"), "105", 69, &created()),
        AppendOutcome::BelowThreshold
    );
    assert_eq!(
        history.append_active_at(&directory("Aiphone"), "105", 149, &created()),
        AppendOutcome::BelowThreshold
    );
    assert_eq!(
        history.append_active_at(&directory("Commax"), "105", -1, &created()),
        AppendOutcome::BelowThreshold
    );
    assert!(history.records.is_empty());
    assert!(matches!(
        history.append_active_at(&directory("Aiphone"), "105", 150, &created()),
        AppendOutcome::Created(_)
    ));
    assert_eq!(history.records.len(), 1);
}

#[test]
fn call_of_an_unmapped_station_is_shown_by_its_code() {
    let mut history = CallHistory::new();
    let outcome = history.append_active_at(&directory("Commax"), "109", 80, &created());
    assert_eq!(
        outcome,
        AppendOutcome::Created(CallNotice {
            code: "109".to_string(),
            room: String::new(),
            bed: String::new(),
            display: "109".to_string(),
            files: vec![],
        })
    );
    assert_eq!(history.records[0].display, "109");
    assert_eq!(history.records[0].room, "");
    assert_eq!(history.records[0].status, Status::Active);
}

#[test]
fn call_of_a_station_without_a_room_is_shown_by_its_code() {
    let mut history = CallHistory::new();
    history.append_active_at(&directory("Commax"), "106", 80, &created());
    assert_eq!(history.records[0].display, "106");
    assert_eq!(history.records[0].bed, "Bed C");
}

#[test]
fn second_call_of_a_station_is_a_no_op_while_the_first_is_outstanding() {
    let mut history = CallHistory::new();
    history.append_active_at(&directory("Commax"), "105", 80, &created());
    let before = history.clone();
    assert_eq!(
        history.append_active_at(&directory("Commax"), "105", 200, &cleared()),
        AppendOutcome::AlreadyActive
    );
    assert_eq!(history, before);
    assert!(matches!(
        history.append_active_at(&directory("Commax"), "106", 200, &cleared()),
        AppendOutcome::Created(_)
    ));
    assert_eq!(history.records.len(), 2);
}

#[test]
fn station_can_call_again_once_its_call_is_completed() {
    let mut history = CallHistory::new();
    history.append_active_at(&directory("Commax"), "105", 80, &created());
    history.complete_latest_for_code_at("105", &cleared());
    assert!(!history.has_active("105"));
    assert!(matches!(
        history.append_active_at(&directory("Commax"), "105", 80, &cleared()),
        AppendOutcome::Created(_)
    ));
    assert_eq!(history.records.len(), 2);
    assert_eq!(history.records[0].status, Status::Completed);
    assert_eq!(history.records[1].status, Status::Active);
    assert!(history.has_active("105"));
}

#[test]
fn completion_stamps_the_most_recent_outstanding_record_of_the_station() {
    let mut history = CallHistory {
        records: vec![
            record("105", "Old room", "Old bed", Status::Active),
            record("106", "Room 6", "Bed C", Status::Active),
            record("105", "Room 5", "Bed B", Status::Active),
            record("105", "Done room", "Done bed", Status::Completed),
        ],
    };
    let before = history.clone();
    let found = history.complete_latest_for_code_at("105", &cleared());
    assert_eq!(found, Some(site("105", "Room 5", "Bed B")));
    assert_eq!(history.records[0], before.records[0]);
    assert_eq!(history.records[1], before.records[1]);
    assert_eq!(history.records[2], completed(before.records[2].clone(), &cleared()));
    assert_eq!(history.records[3], before.records[3]);
    assert_eq!(history.records[2].reset_time, Some("2023-11-14T22:14:20Z".to_string()));
    assert_eq!(history.records[2].reset_time_str, Some("22:14:20.11-14-2023".to_string()));
    assert_eq!(history.records[2].date_modified, "2023-11-14T22:14:20Z");
    assert_eq!(history.records[2].date_added, "a");
}

#[test]
fn completion_of_a_station_without_a_call_finds_nothing() {
    let mut history = CallHistory {
        records: vec![
            record("106", "Room 6", "Bed C", Status::Active),
            record("105", "Room 5", "Bed B", Status::Completed),
        ],
    };
    let before = history.clone();
    assert_eq!(history.complete_latest_for_code_at("105", &cleared()), None);
    assert_eq!(history.complete_latest_for_code_at("10", &cleared()), None);
    assert_eq!(history.complete_latest_for_code_at("", &cleared()), None);
    assert_eq!(history, before);
}

#[test]
fn completion_of_any_call_takes_the_most_recent() {
    let mut history = CallHistory {
        records: vec![
            record("105", "Room 5", "Bed B", Status::Active),
            record("106", "Room 6", "Bed C", Status::Active),
            record("107", "Room 7", "Bed D", Status::Completed),
        ],
    };
    let before = history.clone();
    assert_eq!(history.complete_latest_any_at(&cleared()), Ok(site("106", "Room 6", "Bed C")));
    assert_eq!(history.records[0], before.records[0]);
    assert_eq!(history.records[1], completed(before.records[1].clone(), &cleared()));
    assert_eq!(history.records[2], before.records[2]);
    assert_eq!(history.complete_latest_any_at(&cleared()), Ok(site("105", "Room 5", "Bed B")));
    assert_eq!(history.complete_latest_any_at(&cleared()), Err(EncloseError::NoPendingCalls));
}

#[test]
fn completion_of_any_call_fails_without_outstanding_calls() {
    let mut history = CallHistory::new();
    assert_eq!(history.complete_latest_any_at(&cleared()), Err(EncloseError::NoPendingCalls));
    assert!(history.records.is_empty());
    let mut history =
        CallHistory { records: vec![record("105", "Room 5", "Bed B", Status::Completed)] };
    let before = history.clone();
    assert_eq!(history.complete_latest_any_at(&cleared()), Err(EncloseError::NoPendingCalls));
    assert_eq!(history, before);
    assert_eq!(EncloseError::NoPendingCalls.message(), "no pending calls");
}

#[test]
fn completing_all_updates_exactly_the_outstanding_records() {
    let mut history = CallHistory {
        records: vec![
            record("105", "Room 5", "Bed B", Status::Active),
            record("107", "Room 7", "Bed D", Status::Completed),
            record("106", "", "Bed C", Status::Active),
            record("108", "Room 8", "Bed E", Status::Completed),
            record("105", "Room 5", "Bed B", Status::Active),
        ],
    };
    let before = history.clone();
    let sites = history.complete_all_pending_at(&cleared());
    assert_eq!(
        sites,
        vec![site("105", "Room 5", "Bed B"), site("106", "", "Bed C"), site("105", "Room 5", "Bed B")]
    );
    assert_eq!(history.records.len(), 5);
    for i in [0, 2, 4] {
        assert_eq!(history.records[i], completed(before.records[i].clone(), &cleared()));
        assert_eq!(history.records[i].status, Status::Completed);
        assert!(!history.records[i].reset_time.clone().unwrap().is_empty());
    }
    for i in [1, 3] {
        assert_eq!(history.records[i], before.records[i]);
    }
    assert_eq!(history.complete_all_pending_at(&created()), vec![]);
}

#[test]
fn completing_all_of_nothing_changes_nothing() {
    let mut history = CallHistory::new();
    assert_eq!(history.complete_all_pending_at(&cleared()), vec![]);
    assert!(history.records.is_empty());
    let mut history =
        CallHistory { records: vec![record("105", "Room 5", "Bed B", Status::Completed)] };
    let before = history.clone();
    assert_eq!(history.complete_all_pending_at(&cleared()), vec![]);
    assert_eq!(history, before);
}

#[test]
fn find_latest_goes_from_the_end() {
    let history = CallHistory {
        records: vec![
            record("105", "Room 5", "Bed B", Status::Active),
            record("106", "Room 6", "Bed C", Status::Active),
            record("105", "Room 5", "Bed B", Status::Active),
            record("107", "Room 7", "Bed D", Status::Completed),
        ],
    };
    assert_eq!(history.find_latest(Some(&"105".to_string())), Some(2));
    assert_eq!(history.find_latest(Some(&"106".to_string())), Some(1));
    assert_eq!(history.find_latest(Some(&"107".to_string())), None);
    assert_eq!(history.find_latest(None), Some(2));
    assert!(history.has_active("105"));
    assert!(!history.has_active("107"));
    assert!(!history.has_active("108"));
}

#[test]
fn operations_by_the_system_clock_stamp_with_the_time_of_day() {
    let mut history = CallHistory::new();
    let outcome = history.append_active(&directory("AIPHONE"), "105", 200);
    assert!(matches!(outcome, AppendOutcome::Created(_)));
    assert_eq!(history.records.len(), 1);
    assert!(history.records[0].id > 1_600_000_000_000);
    assert_eq!(history.records[0].timestamp.len(), 20);
    assert_eq!(history.records[0].timestamp, history.records[0].date_added);
    assert_eq!(history.records[0].reset_time, None);
    history.append_active(&directory("AIPHONE"), "106", 200);
    history.append_active(&directory("AIPHONE"), "107", 200);
    assert_eq!(history.complete_latest_for_code("105"), Some(site("105", "Room 5", "Bed B")));
    assert_eq!(history.records[0].status, Status::Completed);
    assert_eq!(history.records[0].reset_time.clone().unwrap().len(), 20);
    assert!(!history.records[0].reset_time_str.clone().unwrap().is_empty());
    assert_eq!(history.complete_latest_for_code("105"), None);
    assert_eq!(history.complete_latest_any(), Ok(site("107", "", "")));
    assert_eq!(history.complete_all_pending(), vec![site("106", "", "Bed C")]);
    assert_eq!(history.complete_latest_any(), Err(EncloseError::NoPendingCalls));
    assert!(history.records.iter().all(|r| r.status == Status::Completed));
}
