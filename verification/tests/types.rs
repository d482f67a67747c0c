use log_monitor::types::{LogEntry, LogPriority, LogType};

#[test]
fn priorities_are_ordered_from_low_to_very_high() {
    assert!(LogPriority::VeryHigh.at_least(LogPriority::High));
    assert!(LogPriority::High.at_least(LogPriority::High));
    assert!(!LogPriority::Medium.at_least(LogPriority::High));
    assert!(!LogPriority::Low.at_least(LogPriority::Medium));
    assert!(LogPriority::Low < LogPriority::Medium);
    assert!(LogPriority::Medium < LogPriority::High);
    assert!(LogPriority::High < LogPriority::VeryHigh);
}

#[test]
fn type_and_priority_names_round_trip() {
    for t in [LogType::Error, LogType::Critical, LogType::Warning, LogType::Info] {
        assert_eq!(LogType::from_name(t.as_str()), Some(t));
    }
    for p in [LogPriority::Low, LogPriority::Medium, LogPriority::High, LogPriority::VeryHigh] {
        assert_eq!(LogPriority::from_name(p.as_str()), Some(p));
    }
    assert_eq!(LogPriority::VeryHigh.as_str(), "very high");
    assert_eq!(LogType::Critical.as_str(), "CRITICAL");
    assert_eq!(LogType::from_name("critical"), None);
    assert_eq!(LogPriority::from_name("urgent"), None);
}

#[test]
fn entries_are_equal_field_for_field() {
    let entry = LogEntry {
        timestamp: 1,
        log_type: LogType::Error,
        priority: LogPriority::High,
        message: "m".to_string(),
        notified: None,
    };
    assert_eq!(entry.clone(), entry);
    assert_ne!(LogEntry { timestamp: 2, ..entry.clone() }, entry);
    assert_ne!(LogEntry { log_type: LogType::Critical, ..entry.clone() }, entry);
    assert_ne!(LogEntry { priority: LogPriority::Low, ..entry.clone() }, entry);
    assert_ne!(LogEntry { message: "n".to_string(), ..entry.clone() }, entry);
    assert_ne!(LogEntry { notified: Some(false), ..entry.clone() }, entry);
}
