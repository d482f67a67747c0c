use log_monitor::types::{LogEntry, LogPriority, LogType};
use log_monitor::viewer::{Action, Event, Key, KeyPress, Phase, Viewer};

fn entry(n: u64) -> LogEntry {
    LogEntry {
        timestamp: n,
        log_type: LogType::Error,
        priority: LogPriority::High,
        message: format!("ERROR {}", n),
        notified: None,
    }
}

fn received(n: u64) -> Event {
    Event::Received { entry: entry(n), stamp: format!("t{}", n) }
}

fn key(key: Key) -> Event {
    Event::Key(KeyPress { key, control: false })
}

fn timestamps(viewer: &Viewer) -> Vec<u64> {
    (0..viewer.len()).map(|i| viewer.entry(i).unwrap().timestamp).collect()
}

#[test]
fn history_keeps_the_newest_max_logs_entries() {
    let mut viewer = Viewer::new(3, 10);
    assert_eq!(viewer.max_logs(), 3);
    for n in 0..5 {
        assert_eq!(viewer.handle(received(n)), Action::Render);
    }
    assert_eq!(viewer.len(), 3);
    assert_eq!(timestamps(&viewer), vec![2, 3, 4]);
    assert!(viewer.entry(3).is_none());
}

#[test]
fn selection_follows_the_arrow_keys_within_the_history() {
    let mut viewer = Viewer::new(100, 10);
    assert_eq!(viewer.selected_index(), None);
    assert_eq!(viewer.handle(key(Key::Down)), Action::Render);
    assert_eq!(viewer.selected_index(), None);
    for n in 0..15 {
        viewer.handle(received(n));
    }
    assert_eq!(viewer.selected_index(), Some(0));
    let keys = [Key::Down, Key::Down, Key::Up, Key::Up, Key::Up, Key::Other, Key::Down];
    for _ in 0..10 {
        for k in keys {
            assert_eq!(viewer.handle(key(k)), Action::Render);
            let selected = viewer.selected_index().unwrap();
            assert!(selected < viewer.len());
            assert!(viewer.scroll_offset() <= selected);
        }
    }
    for _ in 0..40 {
        viewer.handle(key(Key::Down));
        let selected = viewer.selected_index().unwrap();
        assert!(selected < viewer.len());
        assert!(viewer.scroll_offset() <= selected);
    }
    assert_eq!(viewer.selected_index(), Some(14));
    assert_eq!(viewer.scroll_offset(), 5);
}

#[test]
fn quit_keys_start_quitting_and_ask_for_the_terminal_to_be_restored() {
    for press in [
        KeyPress { key: Key::Char('q'), control: false },
        KeyPress { key: Key::Char('q'), control: true },
        KeyPress { key: Key::Char('c'), control: true },
    ] {
        let mut viewer = Viewer::new(5, 10);
        assert!(viewer.is_running());
        assert_eq!(viewer.handle(Event::Key(press)), Action::Restore);
        assert_eq!(viewer.phase(), Phase::Quitting);
        assert!(!viewer.is_running());
        assert_eq!(viewer.handle(received(1)), Action::Restore);
        assert_eq!(viewer.len(), 0);
        assert_eq!(viewer.handle(Event::Restored), Action::Halt);
        assert_eq!(viewer.phase(), Phase::Terminated);
        assert_eq!(viewer.handle(Event::Key(press)), Action::Halt);
        assert_eq!(viewer.phase(), Phase::Terminated);
    }
}

#[test]
fn plain_c_and_other_keys_do_not_quit() {
    let mut viewer = Viewer::new(5, 10);
    for press in [
        KeyPress { key: Key::Char('c'), control: false },
        KeyPress { key: Key::Char('x'), control: true },
        KeyPress { key: Key::Other, control: true },
        KeyPress { key: Key::Up, control: true },
    ] {
        assert_eq!(viewer.handle(Event::Key(press)), Action::Render);
        assert_eq!(viewer.phase(), Phase::Running);
    }
    assert_eq!(viewer.handle(Event::Restored), Action::Render);
    assert_eq!(viewer.phase(), Phase::Running);
}

#[test]
fn failure_terminates_and_still_asks_for_the_terminal_to_be_restored() {
    let mut viewer = Viewer::new(5, 10);
    viewer.handle(received(1));
    assert_eq!(viewer.handle(Event::Failure), Action::Restore);
    assert_eq!(viewer.phase(), Phase::Terminated);
    assert_eq!(viewer.handle(Event::Restored), Action::Halt);
    assert_eq!(viewer.handle(received(2)), Action::Halt);
    assert_eq!(viewer.len(), 1);
}

#[test]
fn status_log_keeps_the_last_ten_lines() {
    let mut viewer = Viewer::new(100, 10);
    for n in 0..13 {
        viewer.handle(received(n));
    }
    viewer.handle(Event::Disconnected);
    let screen = viewer.screen();
    assert_eq!(screen.debug.len(), 10);
    assert_eq!(screen.debug[0], "New log received at t4");
    assert_eq!(screen.debug[8], "New log received at t12");
    assert_eq!(screen.debug[9], "Channel disconnected!");
}

#[test]
fn drain_takes_at_most_max_logs_entries_per_call() {
    let (tx, mut rx) = tokio::sync::mpsc::channel::<LogEntry>(16);
    for n in 0..7 {
        tx.try_send(entry(n)).unwrap();
    }
    let mut viewer = Viewer::new(3, 10);
    assert_eq!(viewer.drain(&mut rx, "12:00"), 3);
    assert_eq!(timestamps(&viewer), vec![0, 1, 2]);
    assert_eq!(viewer.drain(&mut rx, "12:00"), 3);
    assert_eq!(timestamps(&viewer), vec![3, 4, 5]);
    assert_eq!(viewer.drain(&mut rx, "12:00"), 1);
    assert_eq!(timestamps(&viewer), vec![4, 5, 6]);
    assert_eq!(viewer.drain(&mut rx, "12:00"), 0);
    assert_eq!(viewer.screen().debug.len(), 7);
    assert!(viewer.screen().debug.iter().all(|line| line == "New log received at 12:00"));
}

#[test]
fn drain_notes_a_closed_channel() {
    let (tx, mut rx) = tokio::sync::mpsc::channel::<LogEntry>(4);
    tx.try_send(entry(1)).unwrap();
    drop(tx);
    let mut viewer = Viewer::new(5, 10);
    assert_eq!(viewer.drain(&mut rx, "12:00"), 1);
    let screen = viewer.screen();
    assert_eq!(screen.debug.len(), 2);
    assert_eq!(screen.debug[1], "Channel disconnected!");
    assert_eq!(viewer.drain(&mut rx, "12:00"), 0);
    assert_eq!(viewer.screen().debug.len(), 3);
}

#[test]
fn stopped_viewer_leaves_the_channel_alone() {
    let (tx, mut rx) = tokio::sync::mpsc::channel::<LogEntry>(4);
    tx.try_send(entry(1)).unwrap();
    let mut viewer = Viewer::new(5, 10);
    viewer.handle(key(Key::Char('q')));
    assert_eq!(viewer.drain(&mut rx, "12:00"), 0);
    assert_eq!(viewer.len(), 0);
    assert_eq!(rx.try_recv().unwrap().timestamp, 1);
}

#[test]
fn viewer_without_capacity_takes_nothing_in() {
    let (tx, mut rx) = tokio::sync::mpsc::channel::<LogEntry>(4);
    tx.try_send(entry(1)).unwrap();
    let mut viewer = Viewer::new(0, 10);
    assert_eq!(viewer.drain(&mut rx, "12:00"), 0);
    viewer.handle(received(2));
    assert_eq!(viewer.len(), 0);
    assert_eq!(viewer.selected_index(), None);
}
