//! What the viewer shows, computed from its state: the rows of the log
//! table, the details of the selected entry, the status lines.

use crate::cursor::{rows, Cursor, Position};
use crate::ring::Ring;
use crate::text::{decimal, decimal_text, texts};
use crate::types::{entry_views, LogEntry, LogEntryView, LogPriority};
use crate::utils::{format_timestamp, timestamp_text};
use vstd::prelude::*;

verus! {

/// Colour of a row of the log table.
#[derive(Debug, Clone, Copy, PartialEq, Eq, Structural)]
pub enum Color {
    Red,
    Yellow,
    Green,
    Plain,
}

/// High is red, medium yellow, low green; very high is left plain.
pub open spec fn color_of(priority: LogPriority) -> Color {
    match priority {
        LogPriority::High => Color::Red,
        LogPriority::Medium => Color::Yellow,
        LogPriority::Low => Color::Green,
        LogPriority::VeryHigh => Color::Plain,
    }
}

/// The colour in which an entry of `priority` is shown.
pub fn get_color(priority: LogPriority) -> (color: Color)
    ensures
        color == color_of(priority),
{
    match priority {
        LogPriority::High => Color::Red,
        LogPriority::Medium => Color::Yellow,
        LogPriority::Low => Color::Green,
        LogPriority::VeryHigh => Color::Plain,
    }
}

/// One row of the log table.
#[derive(Debug)]
pub struct Row {
    pub timestamp: String,
    pub log_type: String,
    pub priority: String,
    pub message: String,
    pub notification: String,
    pub color: Color,
    /// Whether this is the row of the selected entry.
    pub selected: bool,
}

/// A row, as plain values.
pub struct RowView {
    pub timestamp: Seq<char>,
    pub log_type: Seq<char>,
    pub priority: Seq<char>,
    pub message: Seq<char>,
    pub notification: Seq<char>,
    pub color: Color,
    pub selected: bool,
}

impl View for Row {
    type V = RowView;

    open spec fn view(&self) -> RowView {
        RowView {
            timestamp: self.timestamp@,
            log_type: self.log_type@,
            priority: self.priority@,
            message: self.message@,
            notification: self.notification@,
            color: self.color,
            selected: self.selected,
        }
    }
}

/// The timestamp column: the calendar date where there is one, else the
/// bare number of seconds.
pub open spec fn timestamp_cell(timestamp: u64) -> Seq<char> {
    match timestamp_text(timestamp) {
        Some(text) => text,
        None => decimal(timestamp as nat),
    }
}

/// The notification column.
pub open spec fn notification_cell(notified: Option<bool>) -> Seq<char> {
    if notified == Some(true) {
        "Alert Sent"@
    } else {
        "Not Sent"@
    }
}

/// The row that shows `entry`.
pub open spec fn row_of(entry: LogEntryView, selected: bool) -> RowView {
    RowView {
        timestamp: timestamp_cell(entry.timestamp),
        log_type: entry.log_type.name(),
        priority: entry.priority.name(),
        message: entry.message,
        notification: notification_cell(entry.notified),
        color: color_of(entry.priority),
        selected,
    }
}

/// The lines of the detail pane for `entry`.
pub open spec fn detail_lines(entry: LogEntryView) -> Seq<Seq<char>> {
    seq![
        "Timestamp: "@ + decimal(entry.timestamp as nat),
        "Type: "@ + entry.log_type.name(),
        "Priority: "@ + entry.priority.name(),
        "Message: "@ + entry.message,
        "telegram_notification: "@ + (if entry.notified == Some(true) {
            "Alert sent to Telegram"@
        } else {
            "Not sent"@
        }),
    ]
}

/// Number of table rows over a history of `len` entries: as many as the
/// window shows, or as many as are left from `scroll` on.
pub open spec fn visible_rows(len: nat, scroll: nat, window: nat) -> nat {
    if scroll >= len {
        0
    } else if len - scroll < rows(window) {
        (len - scroll) as nat
    } else {
        rows(window)
    }
}

/// One frame of the viewer.
#[derive(Debug)]
pub struct Screen {
    /// The visible part of the log table, top row first.
    pub rows: Vec<Row>,
    /// The detail pane; empty where nothing is selected.
    pub details: Vec<String>,
    /// The status pane.
    pub debug: Vec<String>,
}

/// A frame, as plain values.
pub struct ScreenView {
    pub rows: Seq<RowView>,
    pub details: Seq<Seq<char>>,
    pub debug: Seq<Seq<char>>,
}

impl View for Screen {
    type V = ScreenView;

    open spec fn view(&self) -> ScreenView {
        ScreenView {
            rows: self.rows@.map_values(|r: Row| r@),
            details: texts(self.details@),
            debug: texts(self.debug@),
        }
    }
}

/// The frame for a history `logs` with the selection at `at`: the entries
/// from the first visible row on, the selected one marked; the details of
/// the selected entry; the status lines as they are.
pub open spec fn screen_of(
    logs: Seq<LogEntryView>,
    at: Position,
    window: nat,
    debug: Seq<Seq<char>>,
) -> ScreenView {
    ScreenView {
        rows: Seq::new(
            visible_rows(logs.len(), at.scroll, window),
            |i: int| row_of(logs[at.scroll + i], at.scroll + i == at.selected),
        ),
        details: if at.selected < logs.len() {
            detail_lines(logs[at.selected as int])
        } else {
            seq![]
        },
        debug,
    }
}

/// The timestamp column for `timestamp`, given its calendar date `date` if
/// it has one: the date, else the bare number of seconds.
pub fn timestamp_column(timestamp: u64, date: Option<String>) -> (cell: String)
    ensures
        cell@ == (match date {
            Some(text) => text@,
            None => decimal(timestamp as nat),
        }),
{
    match date {
        Some(text) => text,
        None => decimal_text(timestamp),
    }
}

fn make_row(entry: &LogEntry, selected: bool) -> (row: Row)
    ensures
        row@ == row_of(entry@, selected),
{
    Row {
        timestamp: timestamp_column(entry.timestamp, format_timestamp(entry.timestamp)),
        log_type: entry.log_type.as_str().to_owned(),
        priority: entry.priority.as_str().to_owned(),
        message: entry.message.clone(),
        notification: match entry.notified {
            Some(true) => "Alert Sent".to_owned(),
            _ => "Not Sent".to_owned(),
        },
        color: get_color(entry.priority),
        selected,
    }
}

fn labelled(label: &str, value: &str) -> (line: String)
    ensures
        line@ == label@ + value@,
{
    label.to_owned().concat(value)
}

fn make_details(entry: &LogEntry) -> (lines: Vec<String>)
    ensures
        texts(lines@) == detail_lines(entry@),
{
    let mut lines: Vec<String> = Vec::new();
    lines.push(labelled("Timestamp: ", decimal_text(entry.timestamp).as_str()));
    lines.push(labelled("Type: ", entry.log_type.as_str()));
    lines.push(labelled("Priority: ", entry.priority.as_str()));
    lines.push(labelled("Message: ", entry.message.as_str()));
    lines.push(
        labelled(
            "telegram_notification: ",
            match entry.notified {
                Some(true) => "Alert sent to Telegram",
                _ => "Not sent",
            },
        ),
    );
    assert(texts(lines@) =~= detail_lines(entry@));
    lines
}

/// The frame to draw for the history `logs`, the selection `cursor` and the
/// status lines `debug`, with `window` table rows.
pub fn ui(logs: &Ring<LogEntry>, cursor: &Cursor, window: usize, debug: &Ring<String>) -> (screen:
    Screen)
    ensures
        screen@ == screen_of(entry_views(logs@), cursor@, window as nat, texts(debug@)),
{
    let len = logs.len();
    let scroll = cursor.scroll_offset();
    let selected = cursor.selected_index();
    let shown: usize = if window == 0 {
        1
    } else {
        window
    };
    let mut table: Vec<Row> = Vec::new();
    let mut index: usize = scroll;
    while index < len && index - scroll < shown
        invariant
            len == logs@.len(),
            scroll == cursor@.scroll,
            selected == cursor@.selected,
            shown == rows(window as nat),
            scroll <= index,
            index <= len || index == scroll,
            index - scroll <= shown,
            table@.len() == index - scroll,
            forall|k: int|
                0 <= k < table@.len() ==> (#[trigger] table@[k])@ == row_of(
                    logs@[scroll + k]@,
                    scroll + k == selected,
                ),
        decreases len - index,
    {
        match logs.get(index) {
            Some(entry) => {
                table.push(make_row(entry, index == selected));
            },
            None => {},
        }
        index = index + 1;
    }
    let details = match logs.get(selected) {
        Some(entry) => make_details(entry),
        None => Vec::new(),
    };
    let mut status: Vec<String> = Vec::new();
    let mut i: usize = 0;
    while i < debug.len()
        invariant
            i <= debug@.len(),
            status@.len() == i,
            forall|k: int| 0 <= k < i ==> status@[k]@ == debug@[k]@,
        decreases debug@.len() - i,
    {
        match debug.get(i) {
            Some(line) => {
                status.push(line.clone());
            },
            None => {},
        }
        i = i + 1;
    }
    let screen = Screen { rows: table, details, debug: status };
    proof {
        let want = screen_of(entry_views(logs@), cursor@, window as nat, texts(debug@));
        assert(screen@.rows =~= want.rows);
        assert(screen@.details =~= want.details);
        assert(screen@.debug =~= want.debug);
    }
    screen
}

/// The column titles of the log table.
pub fn table_header() -> (titles: Vec<String>)
    ensures
        texts(titles@) == seq![
            "Timestamp"@,
            "Type"@,
            "Priority"@,
            "Message"@,
            "Telegram Notification"@,
        ],
{
    let mut titles: Vec<String> = Vec::new();
    titles.push("Timestamp".to_owned());
    titles.push("Type".to_owned());
    titles.push("Priority".to_owned());
    titles.push("Message".to_owned());
    titles.push("Telegram Notification".to_owned());
    assert(texts(titles@) =~= seq![
        "Timestamp"@,
        "Type"@,
        "Priority"@,
        "Message"@,
        "Telegram Notification"@,
    ]);
    titles
}

/// The lines of the help pane.
pub fn instructions() -> (lines: Vec<String>)
    ensures
        texts(lines@) == seq!["Use Up/Down arrows to scroll logs"@, "Press Ctrl+C to quit"@],
{
    let mut lines: Vec<String> = Vec::new();
    lines.push("Use Up/Down arrows to scroll logs".to_owned());
    lines.push("Press Ctrl+C to quit".to_owned());
    assert(texts(lines@) =~= seq!["Use Up/Down arrows to scroll logs"@, "Press Ctrl+C to quit"@]);
    lines
}

} // verus!
