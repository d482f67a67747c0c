use log_monitor::cursor::{Cursor, Move};

#[test]
fn cursor_stays_inside_the_history_after_every_step() {
    let len = 25;
    let window = 10;
    let mut cursor = Cursor::new();
    let steps = [
        Move::Up, Move::Down, Move::Down, Move::Down, Move::Down, Move::Down, Move::Down,
        Move::Down, Move::Down, Move::Down, Move::Down, Move::Down, Move::Down, Move::Up,
        Move::Up, Move::Up, Move::Up, Move::Up, Move::Up, Move::Up, Move::Up, Move::Up, Move::Up,
        Move::Up, Move::Up, Move::Up, Move::Up, Move::Down,
    ];
    for _ in 0..3 {
        for step in steps {
            cursor.step(step, len, window);
            assert!(cursor.selected_index() < len);
            assert!(cursor.scroll_offset() <= cursor.selected_index());
            assert!(cursor.selected_index() < cursor.scroll_offset() + window);
        }
    }
    for _ in 0..60 {
        cursor.down(len, window);
        assert!(cursor.selected_index() < len);
        assert!(cursor.scroll_offset() <= cursor.selected_index());
    }
    assert_eq!(cursor.selected_index(), 24);
    assert_eq!(cursor.scroll_offset(), 15);
}

#[test]
fn down_scrolls_when_the_selection_leaves_the_window() {
    let mut cursor = Cursor::new();
    for expected in 1..10 {
        cursor.down(30, 10);
        assert_eq!(cursor.selected_index(), expected);
        assert_eq!(cursor.scroll_offset(), 0);
    }
    cursor.down(30, 10);
    assert_eq!(cursor.selected_index(), 10);
    assert_eq!(cursor.scroll_offset(), 1);
    cursor.down(30, 10);
    assert_eq!(cursor.selected_index(), 11);
    assert_eq!(cursor.scroll_offset(), 2);
}

#[test]
fn up_scrolls_back_and_stops_at_the_first_entry() {
    let mut cursor = Cursor::new();
    for _ in 0..12 {
        cursor.down(30, 10);
    }
    assert_eq!((cursor.selected_index(), cursor.scroll_offset()), (12, 3));
    for _ in 0..9 {
        cursor.up(30, 10);
    }
    assert_eq!((cursor.selected_index(), cursor.scroll_offset()), (3, 3));
    cursor.up(30, 10);
    assert_eq!((cursor.selected_index(), cursor.scroll_offset()), (2, 2));
    cursor.up(30, 10);
    cursor.up(30, 10);
    cursor.up(30, 10);
    assert_eq!((cursor.selected_index(), cursor.scroll_offset()), (0, 0));
}

#[test]
fn down_stops_at_the_last_entry() {
    let mut cursor = Cursor::new();
    cursor.down(1, 10);
    assert_eq!(cursor.selected_index(), 0);
    cursor.down(2, 10);
    assert_eq!(cursor.selected_index(), 1);
    cursor.down(2, 10);
    assert_eq!(cursor.selected_index(), 1);
}

#[test]
fn empty_history_has_no_selection() {
    let mut cursor = Cursor::new();
    assert_eq!(cursor.selection(0), None);
    cursor.down(0, 10);
    cursor.up(0, 10);
    assert_eq!(cursor.selection(0), None);
    assert_eq!((cursor.selected_index(), cursor.scroll_offset()), (0, 0));
    assert_eq!(cursor.selection(3), Some(0));
}

#[test]
fn clamp_pulls_the_cursor_back_into_a_shorter_history() {
    let mut cursor = Cursor::new();
    for _ in 0..20 {
        cursor.down(30, 10);
    }
    assert_eq!((cursor.selected_index(), cursor.scroll_offset()), (20, 11));
    assert_eq!(cursor.selection(5), Some(4));
    cursor.clamp(5, 10);
    assert_eq!((cursor.selected_index(), cursor.scroll_offset()), (4, 4));
    cursor.clamp(0, 10);
    assert_eq!((cursor.selected_index(), cursor.scroll_offset()), (0, 0));
}

#[test]
fn window_without_rows_counts_as_one_row() {
    let mut cursor = Cursor::new();
    cursor.down(5, 0);
    assert_eq!((cursor.selected_index(), cursor.scroll_offset()), (1, 1));
    cursor.down(5, 0);
    assert_eq!((cursor.selected_index(), cursor.scroll_offset()), (2, 2));
    cursor.up(5, 0);
    assert_eq!((cursor.selected_index(), cursor.scroll_offset()), (1, 1));
}
