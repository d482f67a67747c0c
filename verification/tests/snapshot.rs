use log_monitor::snapshot::{
    append_entry, create_log_entry, entries_from_objects, entry_object, read_snapshot,
    snapshot_objects, update_log_file, write_snapshot, EntryError, JsonScalar, JsonValue,
    ReadObject,
};
use log_monitor::types::{LogEntry, LogPriority, LogType};

fn entry(n: u64, log_type: LogType, priority: LogPriority, notified: Option<bool>) -> LogEntry {
    LogEntry {
        timestamp: n,
        log_type,
        priority,
        message: format!("message \"{}\" \\ \u{e9}\n", n),
        notified,
    }
}

fn sample() -> Vec<LogEntry> {
    vec![
        entry(0, LogType::Critical, LogPriority::VeryHigh, Some(true)),
        entry(1_704_067_200, LogType::Error, LogPriority::High, Some(false)),
        entry(u64::MAX, LogType::Warning, LogPriority::Medium, None),
        entry(3, LogType::Info, LogPriority::Low, None),
        entry(3, LogType::Info, LogPriority::Low, None),
    ]
}

fn object(members: Vec<(&str, JsonValue)>) -> ReadObject {
    members.into_iter().map(|(name, value)| (name.to_string(), value)).collect()
}

fn as_read(value: JsonScalar) -> JsonValue {
    match value {
        JsonScalar::Null => JsonValue::Null,
        JsonScalar::Bool(b) => JsonValue::Bool(b),
        JsonScalar::Number(n) => JsonValue::Number(Some(n)),
        JsonScalar::Text(s) => JsonValue::Text(s),
    }
}

fn text(s: &str) -> JsonValue {
    JsonValue::Text(s.to_string())
}

fn good() -> Vec<(&'static str, JsonValue)> {
    vec![
        ("timestamp", JsonValue::Number(Some(5))),
        ("type", text("ERROR")),
        ("priority", text("high")),
        ("message", text("m")),
        ("notified", JsonValue::Bool(true)),
    ]
}

fn without(name: &str) -> ReadObject {
    object(good().into_iter().filter(|(n, _)| *n != name).collect())
}

fn with(name: &str, value: JsonValue) -> ReadObject {
    let mut members: Vec<(&str, JsonValue)> =
        good().into_iter().filter(|(n, _)| *n != name).collect();
    members.push((name, value));
    object(members)
}

#[test]
fn snapshot_round_trip_keeps_entries_and_order() {
    let entries = sample();
    let text = write_snapshot(&entries).expect("entries can be written");
    let back = read_snapshot(&text);
    assert_eq!(back.len(), entries.len());
    for (a, b) in entries.iter().zip(back.iter()) {
        assert_eq!(a.timestamp, b.timestamp);
        assert_eq!(a.log_type, b.log_type);
        assert_eq!(a.priority, b.priority);
        assert_eq!(a.message, b.message);
        assert_eq!(a.notified, b.notified);
    }
    assert_eq!(back, entries);
}

#[test]
fn empty_snapshot_round_trips() {
    let text = write_snapshot(&Vec::new()).unwrap();
    assert_eq!(text, "[]");
    assert!(read_snapshot(&text).is_empty());
}

#[test]
fn snapshot_is_a_pretty_printed_array_of_objects() {
    let entries = vec![LogEntry {
        timestamp: 1_704_067_200,
        log_type: LogType::Critical,
        priority: LogPriority::VeryHigh,
        message: "CRITICAL disk full".to_string(),
        notified: None,
    }];
    let text = write_snapshot(&entries).unwrap();
    let expected = "[\n  {\n    \"timestamp\": 1704067200,\n    \"type\": \"CRITICAL\",\n    \"priority\": \"very high\",\n    \"message\": \"CRITICAL disk full\",\n    \"notified\": null\n  }\n]";
    assert_eq!(text, expected);
}

#[test]
fn snapshot_is_read_from_any_layout_of_the_same_json() {
    let text = r#"[{"message":"m","notified":true,"extra":[1,{"a":2}],"priority":"low","type":"INFO","timestamp":9},
        {"timestamp":10,"type":"WARNING","priority":"medium","message":"","nested":{"timestamp":1}}]"#;
    let entries = read_snapshot(text);
    assert_eq!(entries.len(), 2);
    assert_eq!(entries[0], LogEntry {
        timestamp: 9,
        log_type: LogType::Info,
        priority: LogPriority::Low,
        message: "m".to_string(),
        notified: Some(true),
    });
    assert_eq!(entries[1], LogEntry {
        timestamp: 10,
        log_type: LogType::Warning,
        priority: LogPriority::Medium,
        message: String::new(),
        notified: None,
    });
}

#[test]
fn unreadable_snapshot_counts_as_empty() {
    for text in [
        "",
        "not json",
        "{}",
        "[1, 2]",
        "[{\"timestamp\": 1}]",
        "[{\"timestamp\":-1,\"type\":\"ERROR\",\"priority\":\"high\",\"message\":\"m\"}]",
        "[{\"timestamp\":1.5,\"type\":\"ERROR\",\"priority\":\"high\",\"message\":\"m\"}]",
        "[{\"timestamp\":1,\"type\":\"ERROR\",\"priority\":\"high\",\"message\":\"m\"},{\"timestamp\":2}]",
        "[{\"timestamp\":1,\"type\":\"ERROR\",\"priority\":\"high\",\"message\":\"m\"}",
    ] {
        assert!(read_snapshot(text).is_empty(), "{:?}", text);
    }
    assert!(entries_from_objects(None).is_empty());
    assert!(entries_from_objects(Some(Vec::new())).is_empty());
    assert!(entries_from_objects(Some(vec![object(good()), without("message")])).is_empty());
    assert_eq!(entries_from_objects(Some(vec![object(good()), object(good())])).len(), 2);
}

#[test]
fn update_appends_to_what_the_snapshot_holds() {
    let first = entry(1, LogType::Error, LogPriority::High, None);
    let second = entry(2, LogType::Critical, LogPriority::VeryHigh, Some(true));
    let text = update_log_file(None, &first).unwrap();
    assert_eq!(read_snapshot(&text), vec![first.clone()]);
    let text = update_log_file(Some(&text), &second).unwrap();
    assert_eq!(read_snapshot(&text), vec![first.clone(), second.clone()]);
    let text = update_log_file(Some("garbage"), &second).unwrap();
    assert_eq!(read_snapshot(&text), vec![second.clone()]);
    assert_eq!(append_entry(Some("[]"), &first), vec![first.clone()]);
    assert_eq!(append_entry(None, &first), vec![first]);
}

#[test]
fn object_without_valid_timestamp_is_refused() {
    assert_eq!(create_log_entry(&without("timestamp")), Err(EntryError::InvalidTimestamp));
    assert_eq!(create_log_entry(&with("timestamp", text("5"))), Err(EntryError::InvalidTimestamp));
    assert_eq!(
        create_log_entry(&with("timestamp", JsonValue::Number(None))),
        Err(EntryError::InvalidTimestamp)
    );
    assert_eq!(
        create_log_entry(&with("timestamp", JsonValue::Array)),
        Err(EntryError::InvalidTimestamp)
    );
    assert_eq!(create_log_entry(&object(Vec::new())), Err(EntryError::InvalidTimestamp));
    assert_eq!(EntryError::InvalidTimestamp.message(), "Invalid timestamp");
}

#[test]
fn object_without_valid_type_is_refused() {
    assert_eq!(create_log_entry(&without("type")), Err(EntryError::InvalidType));
    assert_eq!(create_log_entry(&with("type", text("error"))), Err(EntryError::InvalidType));
    assert_eq!(
        create_log_entry(&with("type", JsonValue::Number(Some(1)))),
        Err(EntryError::InvalidType)
    );
    assert_eq!(EntryError::InvalidType.message(), "Invalid type");
}

#[test]
fn object_without_valid_priority_is_refused() {
    assert_eq!(create_log_entry(&without("priority")), Err(EntryError::InvalidPriority));
    assert_eq!(create_log_entry(&with("priority", text("HIGH"))), Err(EntryError::InvalidPriority));
    assert_eq!(
        create_log_entry(&with("priority", JsonValue::Null)),
        Err(EntryError::InvalidPriority)
    );
    assert_eq!(EntryError::InvalidPriority.message(), "Invalid priority");
}

#[test]
fn object_without_valid_message_is_refused() {
    assert_eq!(create_log_entry(&without("message")), Err(EntryError::InvalidMessage));
    assert_eq!(
        create_log_entry(&with("message", JsonValue::Bool(true))),
        Err(EntryError::InvalidMessage)
    );
    assert_eq!(EntryError::InvalidMessage.message(), "Invalid message");
}

#[test]
fn object_with_invalid_notified_is_refused() {
    assert_eq!(create_log_entry(&with("notified", text("yes"))), Err(EntryError::InvalidNotified));
    assert_eq!(
        create_log_entry(&with("notified", JsonValue::Object)),
        Err(EntryError::InvalidNotified)
    );
    assert_eq!(
        create_log_entry(&with("notified", JsonValue::Number(Some(1)))),
        Err(EntryError::InvalidNotified)
    );
    assert_eq!(EntryError::InvalidNotified.message(), "Invalid notified");
}

#[test]
fn object_with_all_members_is_an_entry() {
    let expected = LogEntry {
        timestamp: 5,
        log_type: LogType::Error,
        priority: LogPriority::High,
        message: "m".to_string(),
        notified: Some(true),
    };
    assert_eq!(create_log_entry(&object(good())), Ok(expected.clone()));
    let mut missing = expected.clone();
    missing.notified = None;
    assert_eq!(create_log_entry(&without("notified")), Ok(missing.clone()));
    assert_eq!(create_log_entry(&with("notified", JsonValue::Null)), Ok(missing));
    let mut first_wins = good();
    first_wins.push(("timestamp", JsonValue::Number(Some(6))));
    first_wins.push(("unknown", JsonValue::Array));
    assert_eq!(create_log_entry(&object(first_wins)), Ok(expected));
}

#[test]
fn errors_are_reported_in_member_order() {
    let all_wrong = object(vec![("notified", text("x"))]);
    assert_eq!(create_log_entry(&all_wrong), Err(EntryError::InvalidTimestamp));
    let no_type_no_message =
        object(vec![("timestamp", JsonValue::Number(Some(1))), ("priority", text("low"))]);
    assert_eq!(create_log_entry(&no_type_no_message), Err(EntryError::InvalidType));
}

#[test]
fn entry_object_lists_the_members_in_order() {
    let e = LogEntry {
        timestamp: 77,
        log_type: LogType::Warning,
        priority: LogPriority::Medium,
        message: "careful".to_string(),
        notified: Some(false),
    };
    let object = entry_object(&e);
    let names: Vec<&str> = object.iter().map(|(name, _)| name.as_str()).collect();
    assert_eq!(names, vec!["timestamp", "type", "priority", "message", "notified"]);
    assert!(matches!(object[0].1, JsonScalar::Number(77)));
    assert!(matches!(&object[1].1, JsonScalar::Text(t) if t == "WARNING"));
    assert!(matches!(&object[2].1, JsonScalar::Text(t) if t == "medium"));
    assert!(matches!(&object[3].1, JsonScalar::Text(t) if t == "careful"));
    assert!(matches!(object[4].1, JsonScalar::Bool(false)));
    assert_eq!(snapshot_objects(&vec![e.clone(), e]).len(), 2);
}

#[test]
fn entries_are_read_back_from_their_own_objects() {
    let entries = sample();
    let objects: Vec<ReadObject> = snapshot_objects(&entries)
        .into_iter()
        .map(|object| object.into_iter().map(|(name, value)| (name, as_read(value))).collect())
        .collect();
    for (object, entry) in objects.iter().zip(entries.iter()) {
        assert_eq!(create_log_entry(object), Ok(entry.clone()));
    }
    assert_eq!(entries_from_objects(Some(objects)), entries);
}

#[test]
fn successive_updates_hold_every_entry_in_order() {
    let entries = sample();
    for start in [None, Some("[]".to_string())] {
        let mut file: Option<String> = start;
        for (n, entry) in entries.iter().enumerate() {
            file = Some(update_log_file(file.as_deref(), entry).expect("the update gives a text"));
            let back = read_snapshot(file.as_deref().unwrap());
            assert_eq!(back.len(), n + 1);
            assert_eq!(back, entries[..n + 1].to_vec());
        }
    }
}

#[test]
fn null_in_place_of_an_object_is_no_entry() {
    assert!(read_snapshot("[null]").is_empty());
    assert!(read_snapshot("[{}]").is_empty());
}
