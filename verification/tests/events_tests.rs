use academic_workflow::events::{
    all_events, current_version, events_for, events_of_type, parse_kind, sort_events,
    version_from, Event, EventKind, EventProjection, EventStore, EventType, MemoryEventStore,
    Order, RubricScore, StoreError, StoredEvent,
};
use academic_workflow::time::Timestamp;

fn submitted() -> EventType {
    EventType::TMASubmitted {
        student_id: "student123".to_string(),
        module_code: "TM112".to_string(),
        question_number: 1,
        content_hash: "abc123".to_string(),
    }
}

fn graded(grade: f32) -> EventType {
    EventType::GradeAssigned {
        tma_id: "tma".to_string(),
        grade: grade.to_bits(),
        max_grade: 100.0f32.to_bits(),
    }
}

fn event(id: &str, aggregate: &str, version: u64, secs: i64, nanos: u32, what: EventType) -> Event {
    Event {
        id: id.to_string(),
        timestamp: Timestamp { secs, nanos },
        event_type: what,
        aggregate_id: aggregate.to_string(),
        version,
    }
}

fn stored(e: Event) -> StoredEvent {
    StoredEvent { key: e.key(), event: e }
}

fn ids(events: &[Event]) -> Vec<&str> {
    events.iter().map(|e| e.id.as_str()).collect()
}

#[test]
fn test_event_creation() {
    let event = Event::new(submitted(), "tma-001".to_string(), 1);

    assert_eq!(event.aggregate_id, "tma-001");
    assert_eq!(event.version, 1);
}

#[test]
fn test_event_store_append_and_retrieve() {
    let mut store = MemoryEventStore::new();

    let event = Event::new(submitted(), "tma-001".to_string(), 1);

    store.append(event.clone()).expect("Failed to append event");

    let events = store.get_events("tma-001").expect("Failed to get events");
    assert_eq!(events.len(), 1);
    assert_eq!(events[0].aggregate_id, "tma-001");
}

#[test]
fn test_event_store_multiple_events() {
    let mut store = MemoryEventStore::new();

    let event1 = Event::new(submitted(), "tma-001".to_string(), 1);

    let event2 = Event::new(
        EventType::FeedbackGenerated {
            tma_id: academic_workflow::crypto::generate_uuid(),
            feedback: "Good work".to_string(),
            rubric_scores: vec![],
        },
        "tma-001".to_string(),
        2,
    );

    store.append(event1).expect("Failed to append event1");
    store.append(event2).expect("Failed to append event2");

    let events = store.get_events("tma-001").expect("Failed to get events");
    assert_eq!(events.len(), 2);
    assert_eq!(events[0].version, 1);
    assert_eq!(events[1].version, 2);
}

#[test]
fn test_get_events_by_type() {
    let mut store = MemoryEventStore::new();

    let event1 = Event::new(submitted(), "tma-001".to_string(), 1);

    let event2 = Event::new(graded(85.0), "tma-002".to_string(), 1);

    store.append(event1).expect("Failed to append event1");
    store.append(event2).expect("Failed to append event2");

    let tma_events = store.get_events_by_type("TMASubmitted").expect("Failed to get TMA events");
    assert_eq!(tma_events.len(), 1);

    let grade_events =
        store.get_events_by_type("GradeAssigned").expect("Failed to get grade events");
    assert_eq!(grade_events.len(), 1);
}

#[test]
fn test_event_projection() {
    let mut store = MemoryEventStore::new();

    let event = Event::new(submitted(), "tma-001".to_string(), 1);

    store.append(event).expect("Failed to append event");

    let projection = EventProjection::new(store);
    let version = projection.get_version("tma-001").expect("Failed to get version");
    assert_eq!(version, 1);
}

#[test]
fn the_key_joins_aggregate_and_identifier() {
    let e = event("e-1", "tma-001", 1, 0, 0, submitted());
    assert_eq!(e.key(), "7:tma-001::e-1");
    let fresh = Event::new(submitted(), "a".to_string(), 3);
    assert_eq!(fresh.id.len(), 36);
    assert_eq!(fresh.key(), format!("1:a::{}", fresh.id));
    // The number in front counts characters.
    assert_eq!(event("x", "é::ü", 1, 0, 0, submitted()).key(), "4:é::ü::x");
    assert_eq!(event("", "", 1, 0, 0, submitted()).key(), "0:::");
}

#[test]
fn no_two_events_share_a_key() {
    let first = event(":x", "a", 1, 0, 0, submitted());
    let second = event("x", "a:", 1, 0, 0, submitted());
    assert_eq!(first.key(), "1:a:::x");
    assert_eq!(second.key(), "2:a:::x");
    assert_ne!(first.key(), second.key());
    let nested = event("id", "a::b", 1, 0, 0, submitted());
    assert!(!nested.key().starts_with("1:a::"));
    assert!(nested.key().starts_with("4:a::b::"));
}

#[test]
fn history_comes_back_in_version_order_whatever_the_store_yields() {
    // Appended as 1, 2, 3, 4; yielded in the order of the keys, as a store
    // that keeps its records by key would do.
    let records = vec![
        stored(event("a", "tma-1", 3, 30, 0, submitted())),
        stored(event("b", "tma-2", 1, 5, 0, submitted())),
        stored(event("c", "tma-1", 1, 10, 0, submitted())),
        stored(event("d", "tma-1", 4, 40, 0, graded(70.0))),
        stored(event("e", "tma-1", 2, 20, 0, submitted())),
    ];
    let history = events_for(records, "tma-1");
    assert_eq!(ids(&history), vec!["c", "e", "a", "d"]);
    let versions: Vec<u64> = history.iter().map(|e| e.version).collect();
    assert_eq!(versions, vec![1, 2, 3, 4]);
    assert_eq!(current_version(&history), 4);
    assert_eq!(current_version(&Vec::new()), 0);
}

#[test]
fn events_that_tie_keep_the_order_of_the_store() {
    let records = vec![
        stored(event("x", "t", 2, 0, 0, submitted())),
        stored(event("y", "t", 1, 0, 0, submitted())),
        stored(event("z", "t", 2, 0, 0, submitted())),
        stored(event("w", "t", 1, 0, 0, submitted())),
    ];
    assert_eq!(ids(&events_for(records, "t")), vec!["y", "w", "x", "z"]);
}

#[test]
fn history_holds_the_events_of_one_aggregate() {
    let records = vec![
        stored(event("a", "tma", 1, 0, 0, submitted())),
        stored(event("b", "tma-1", 1, 0, 0, submitted())),
        stored(event("c", "tma::sub", 2, 0, 0, submitted())),
        StoredEvent { key: "other::d".to_string(), event: event("d", "tma", 3, 0, 0, submitted()) },
    ];
    // The aggregate of the event decides, whatever the key and whatever
    // other identifiers start with.
    assert_eq!(ids(&events_for(records.clone(), "tma")), vec!["a", "d"]);
    assert_eq!(ids(&events_for(records.clone(), "tma::sub")), vec!["c"]);
    assert!(events_for(records, "tm").is_empty());
}

#[test]
fn the_whole_log_is_read_by_time() {
    let records = vec![
        stored(event("a", "tma-2", 1, 50, 0, submitted())),
        stored(event("b", "tma-1", 2, 10, 500, graded(1.0))),
        stored(event("c", "tma-3", 1, 10, 499, submitted())),
        stored(event("d", "tma-1", 1, -5, 999_999_999, submitted())),
        stored(event("e", "tma-2", 2, 10, 500, submitted())),
    ];
    let log = all_events(records);
    assert_eq!(ids(&log), vec!["d", "c", "b", "e", "a"]);
    assert_eq!(ids(&events_of_type(log, "GradeAssigned")), vec!["b"]);
}

#[test]
fn sorting_by_either_order() {
    let events = vec![
        event("a", "t", 3, 1, 0, submitted()),
        event("b", "t", 1, 3, 0, submitted()),
        event("c", "t", 2, 2, 0, submitted()),
    ];
    assert_eq!(ids(&sort_events(events.clone(), Order::ByVersion)), vec!["b", "c", "a"]);
    assert_eq!(ids(&sort_events(events, Order::ByTime)), vec!["a", "c", "b"]);
    assert!(sort_events(Vec::new(), Order::ByTime).is_empty());
}

#[test]
fn kinds_by_name() {
    assert_eq!(parse_kind("TMASubmitted"), Some(EventKind::TMASubmitted));
    assert_eq!(parse_kind("FeedbackGenerated"), Some(EventKind::FeedbackGenerated));
    assert_eq!(parse_kind("GradeAssigned"), Some(EventKind::GradeAssigned));
    assert_eq!(parse_kind("StudentAnonymized"), Some(EventKind::StudentAnonymized));
    assert_eq!(parse_kind("tmasubmitted"), None);
    let events = vec![event("a", "t", 1, 0, 0, submitted()), event("b", "t", 2, 0, 0, graded(2.0))];
    assert!(events_of_type(events.clone(), "Unknown").is_empty());
    assert_eq!(ids(&events_of_type(events, "TMASubmitted")), vec!["a"]);
    assert_eq!(submitted().kind(), EventKind::TMASubmitted);
}

#[test]
fn the_memory_store_loses_nothing() {
    let mut store = MemoryEventStore::new();
    store.append(event("a", "t", 1, 9, 0, submitted())).unwrap();
    store.append(event("b", "t", 2, 8, 0, submitted())).unwrap();
    store.append(event("a", "t", 3, 7, 0, graded(3.0))).unwrap();
    store.append(event("a", "u", 1, 6, 0, submitted())).unwrap();
    store.append(event(":x", "a", 1, 5, 0, submitted())).unwrap();
    store.append(event("x", "a:", 1, 4, 0, submitted())).unwrap();
    store.append(event("y", "a::b", 1, 3, 0, submitted())).unwrap();
    assert_eq!(store.stored.len(), 7);
    let history = store.get_events("t").unwrap();
    assert_eq!(ids(&history), vec!["a", "b", "a"]);
    assert_eq!(history[2].version, 3);
    assert_eq!(ids(&store.get_events("a").unwrap()), vec![":x"]);
    assert_eq!(ids(&store.get_events("a:").unwrap()), vec!["x"]);
    assert_eq!(ids(&store.get_events("a::b").unwrap()), vec!["y"]);
    let log = store.get_all_events().unwrap();
    let versions: Vec<(&str, u64)> = log.iter().map(|e| (e.aggregate_id.as_str(), e.version)).collect();
    assert_eq!(
        versions,
        vec![("a::b", 1), ("a:", 1), ("a", 1), ("u", 1), ("t", 3), ("t", 2), ("t", 1)]
    );
    let projection = EventProjection::new(store);
    assert_eq!(projection.get_version("t").unwrap(), 3);
    assert_eq!(projection.get_version("none").unwrap(), 0);
    assert_eq!(ids(&projection.replay("u").unwrap()), vec!["a"]);
}

#[test]
fn appended_in_rising_versions_and_read_back_in_that_order() {
    let mut store = MemoryEventStore::new();
    let appended = [("e1", "a", 1u64), ("o1", "a::b", 7), ("e2", "a", 2), ("o2", "b", 1), ("e3", "a", 5)];
    for (id, aggregate, version) in appended {
        store.append(event(id, aggregate, version, 100 - version as i64, 0, submitted())).unwrap();
    }
    let history = store.get_events("a").unwrap();
    assert_eq!(ids(&history), vec!["e1", "e2", "e3"]);
    let versions: Vec<u64> = history.iter().map(|e| e.version).collect();
    assert_eq!(versions, vec![1, 2, 5]);
    assert!(store.get_events("missing").unwrap().is_empty());
}

#[test]
fn copies_keep_the_content() {
    let e = event(
        "a",
        "t",
        1,
        2,
        3,
        EventType::FeedbackGenerated {
            tma_id: "tma".to_string(),
            feedback: "fine".to_string(),
            rubric_scores: vec![RubricScore {
                criterion: "c".to_string(),
                score: 1.5f32.to_bits(),
                max_score: 2.0f32.to_bits(),
                comment: "ok".to_string(),
            }],
        },
    );
    let copy = e.duplicate();
    assert_eq!(format!("{:?}", copy), format!("{:?}", e));
    assert_eq!(StoreError::Storage("disk full".to_string()).to_string(), "Storage error: disk full");
}

#[test]
fn the_version_follows_the_answer_of_the_store() {
    let history = vec![event("a", "t", 1, 0, 0, submitted()), event("b", "t", 5, 0, 0, submitted())];
    assert!(matches!(version_from(Ok(history)), Ok(5)));
    assert!(matches!(version_from(Ok(Vec::new())), Ok(0)));
    assert!(matches!(
        version_from(Err(StoreError::Storage("map full".to_string()))),
        Err(StoreError::Storage(m)) if m == "map full"
    ));
}
