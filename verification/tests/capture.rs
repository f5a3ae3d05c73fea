use sqlite_instrument::capture::{capture, capture_message, Event};
use sqlite_instrument::worker::{initialize, LogMessage};

#[test]
fn statement_event_carries_its_text() {
    match capture_message(Event::Stmt("SELECT 1".to_string())) {
        Some(LogMessage::Sql(text)) => assert_eq!(text, "SELECT 1"),
        other => panic!("unexpected {:?}", other),
    }
}

#[test]
fn profile_event_carries_text_and_duration() {
    match capture_message(Event::Profile("SELECT 1".to_string(), 1_234_567)) {
        Some(LogMessage::Sql(text)) => assert_eq!(text, "SELECT 1 -- 1234567 ns"),
        other => panic!("unexpected {:?}", other),
    }
    match capture_message(Event::Profile(String::new(), 0)) {
        Some(LogMessage::Sql(text)) => assert_eq!(text, " -- 0 ns"),
        other => panic!("unexpected {:?}", other),
    }
}

#[test]
fn other_events_send_nothing() {
    assert!(capture_message(Event::Other).is_none());
}

#[test]
fn hook_queues_statements_and_profiles() {
    let mut system = initialize();
    capture(&mut system, Event::Stmt("UPDATE t SET x = 1".to_string()));
    capture(&mut system, Event::Other);
    capture(&mut system, Event::Profile("UPDATE t SET x = 1".to_string(), 42));
    assert_eq!(system.pending(), 2);
    system.shutdown();
    assert_eq!(
        system.records(),
        &vec!["UPDATE t SET x = 1\n".to_string(), "UPDATE t SET x = 1 -- 42 ns\n".to_string()]
    );
    assert_eq!(system.durable(), 2);
}

#[test]
fn hook_after_shutdown_changes_nothing() {
    let mut system = initialize();
    system.shutdown();
    capture(&mut system, Event::Stmt("SELECT 1".to_string()));
    capture(&mut system, Event::Profile("SELECT 1".to_string(), 5));
    assert_eq!(system.pending(), 0);
    assert!(system.records().is_empty());
}
