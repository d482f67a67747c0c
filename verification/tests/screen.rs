use log_monitor::screen::{get_color, instructions, table_header, timestamp_column, Color};
use log_monitor::types::{LogEntry, LogPriority, LogType};
use log_monitor::viewer::{Event, Key, KeyPress, Viewer};

fn entry(n: u64, priority: LogPriority, notified: Option<bool>) -> LogEntry {
    LogEntry {
        timestamp: n,
        log_type: LogType::Error,
        priority,
        message: format!("line {}", n),
        notified,
    }
}

fn viewer_with(count: u64, window: usize) -> Viewer {
    let mut viewer = Viewer::new(100, window);
    for n in 0..count {
        viewer.handle(Event::Received {
            entry: entry(n, LogPriority::High, None),
            stamp: "now".to_string(),
        });
    }
    viewer
}

fn down(viewer: &mut Viewer, times: usize) {
    for _ in 0..times {
        viewer.handle(Event::Key(KeyPress { key: Key::Down, control: false }));
    }
}

#[test]
fn colors_by_priority() {
    assert_eq!(get_color(LogPriority::High), Color::Red);
    assert_eq!(get_color(LogPriority::Medium), Color::Yellow);
    assert_eq!(get_color(LogPriority::Low), Color::Green);
    assert_eq!(get_color(LogPriority::VeryHigh), Color::Plain);
}

#[test]
fn empty_viewer_shows_nothing() {
    let screen = Viewer::new(10, 10).screen();
    assert!(screen.rows.is_empty());
    assert!(screen.details.is_empty());
    assert!(screen.debug.is_empty());
}

#[test]
fn row_shows_the_fields_of_its_entry() {
    let mut viewer = Viewer::new(10, 10);
    viewer.handle(Event::Received {
        entry: LogEntry {
            timestamp: 1_431_648_000,
            log_type: LogType::Critical,
            priority: LogPriority::VeryHigh,
            message: "CRITICAL disk full".to_string(),
            notified: Some(true),
        },
        stamp: "now".to_string(),
    });
    viewer.handle(Event::Received {
        entry: entry(u64::MAX, LogPriority::Low, Some(false)),
        stamp: "now".to_string(),
    });
    let screen = viewer.screen();
    assert_eq!(screen.rows.len(), 2);
    let row = &screen.rows[0];
    assert_eq!(row.timestamp, "2015-05-15 00:00:00");
    assert_eq!(row.log_type, "CRITICAL");
    assert_eq!(row.priority, "very high");
    assert_eq!(row.message, "CRITICAL disk full");
    assert_eq!(row.notification, "Alert Sent");
    assert_eq!(row.color, Color::Plain);
    assert!(row.selected);
    let row = &screen.rows[1];
    assert_eq!(row.timestamp, "18446744073709551615");
    assert_eq!(row.log_type, "ERROR");
    assert_eq!(row.priority, "low");
    assert_eq!(row.notification, "Not Sent");
    assert_eq!(row.color, Color::Green);
    assert!(!row.selected);
    assert_eq!(
        screen.details,
        vec![
            "Timestamp: 1431648000",
            "Type: CRITICAL",
            "Priority: very high",
            "Message: CRITICAL disk full",
            "telegram_notification: Alert sent to Telegram",
        ]
    );
}

#[test]
fn details_of_an_entry_that_was_not_alerted() {
    let mut viewer = viewer_with(3, 10);
    down(&mut viewer, 1);
    assert_eq!(
        viewer.screen().details,
        vec![
            "Timestamp: 1",
            "Type: ERROR",
            "Priority: high",
            "Message: line 1",
            "telegram_notification: Not sent",
        ]
    );
}

#[test]
fn table_shows_a_window_of_rows_from_the_scroll_offset() {
    let mut viewer = viewer_with(25, 10);
    let screen = viewer.screen();
    assert_eq!(screen.rows.len(), 10);
    assert_eq!(screen.rows[0].message, "line 0");
    assert_eq!(screen.rows[9].message, "line 9");
    assert_eq!(screen.rows.iter().filter(|r| r.selected).count(), 1);
    assert!(screen.rows[0].selected);

    down(&mut viewer, 13);
    assert_eq!(viewer.selected_index(), Some(13));
    assert_eq!(viewer.scroll_offset(), 4);
    let screen = viewer.screen();
    assert_eq!(screen.rows.len(), 10);
    assert_eq!(screen.rows[0].message, "line 4");
    assert_eq!(screen.rows[9].message, "line 13");
    assert!(screen.rows[9].selected);
    assert_eq!(screen.rows.iter().filter(|r| r.selected).count(), 1);
    assert_eq!(screen.details[3], "Message: line 13");

    down(&mut viewer, 30);
    let screen = viewer.screen();
    assert_eq!(viewer.scroll_offset(), 15);
    assert_eq!(screen.rows.len(), 10);
    assert_eq!(screen.rows[0].message, "line 15");
    assert_eq!(screen.rows[9].message, "line 24");
    assert!(screen.rows[9].selected);
}

#[test]
fn short_history_shows_fewer_rows_than_the_window() {
    let viewer = viewer_with(3, 10);
    assert_eq!(viewer.screen().rows.len(), 3);
    let viewer = viewer_with(3, 2);
    assert_eq!(viewer.screen().rows.len(), 2);
    let viewer = viewer_with(3, 0);
    assert_eq!(viewer.screen().rows.len(), 1);
}

#[test]
fn header_and_instructions() {
    assert_eq!(
        table_header(),
        vec!["Timestamp", "Type", "Priority", "Message", "Telegram Notification"]
    );
    assert_eq!(
        instructions(),
        vec!["Use Up/Down arrows to scroll logs", "Press Ctrl+C to quit"]
    );
}

#[test]
fn timestamp_column_falls_back_to_seconds() {
    assert_eq!(timestamp_column(5, Some("1970-01-01 00:00:05".to_string())), "1970-01-01 00:00:05");
    assert_eq!(timestamp_column(5, None), "5");
    assert_eq!(timestamp_column(u64::MAX, None), "18446744073709551615");
}
