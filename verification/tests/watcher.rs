use log_monitor::watcher::{
    decode_lines, severity, split_lines, Severity, WatchFailure, Watcher,
};

#[test]
fn complete_lines_are_yielded_once() {
    let mut watcher = Watcher::new();
    let mut file: Vec<u8> = Vec::new();
    file.extend_from_slice(b"ERROR one\nINFO two\n");
    let from = watcher.resume(file.len() as u64) as usize;
    assert_eq!(from, 0);
    assert_eq!(watcher.next_lines(&file[from..]), vec!["ERROR one", "INFO two"]);
    assert_eq!(watcher.offset(), 19);

    let from = watcher.resume(file.len() as u64) as usize;
    assert_eq!(from, 19);
    assert!(watcher.next_lines(&file[from..]).is_empty());

    file.extend_from_slice(b"CRITICAL three\n");
    let from = watcher.resume(file.len() as u64) as usize;
    assert_eq!(watcher.next_lines(&file[from..]), vec!["CRITICAL three"]);
    assert_eq!(watcher.offset(), file.len() as u64);
}

#[test]
fn unfinished_line_waits_for_its_newline() {
    let mut watcher = Watcher::new();
    let mut file: Vec<u8> = b"ERROR one\nCRIT".to_vec();
    let from = watcher.resume(file.len() as u64) as usize;
    assert_eq!(watcher.next_lines(&file[from..]), vec!["ERROR one"]);
    assert_eq!(watcher.offset(), 10);
    file.extend_from_slice(b"ICAL two");
    let from = watcher.resume(file.len() as u64) as usize;
    assert!(watcher.next_lines(&file[from..]).is_empty());
    assert_eq!(watcher.offset(), 10);
    file.extend_from_slice(b"\n");
    let from = watcher.resume(file.len() as u64) as usize;
    assert_eq!(watcher.next_lines(&file[from..]), vec!["CRITICAL two"]);
    assert_eq!(watcher.offset(), 23);
}

#[test]
fn truncated_file_is_read_again_from_the_start() {
    let mut watcher = Watcher::new();
    let file = b"ERROR one\nERROR two\n".to_vec();
    let from = watcher.resume(file.len() as u64) as usize;
    assert_eq!(watcher.next_lines(&file[from..]).len(), 2);
    assert_eq!(watcher.offset(), 20);
    let rotated = b"ERROR new\n".to_vec();
    let from = watcher.resume(rotated.len() as u64) as usize;
    assert_eq!(from, 0);
    assert_eq!(watcher.offset(), 0);
    assert_eq!(watcher.next_lines(&rotated[from..]), vec!["ERROR new"]);
    assert_eq!(watcher.offset(), 10);
    assert_eq!(watcher.resume(10), 10);
    assert_eq!(watcher.resume(9), 0);
}

#[test]
fn split_lines_strips_one_carriage_return() {
    let (lines, taken) = split_lines(b"a\r\nb\r\r\n\n\rc\nrest");
    assert_eq!(lines, vec![b"a".to_vec(), b"b\r".to_vec(), b"".to_vec(), b"\rc".to_vec()]);
    assert_eq!(taken, 11);
    let (lines, taken) = split_lines(b"");
    assert!(lines.is_empty());
    assert_eq!(taken, 0);
    let (lines, taken) = split_lines(b"no newline");
    assert!(lines.is_empty());
    assert_eq!(taken, 0);
    let (lines, taken) = split_lines(b"\n");
    assert_eq!(lines, vec![Vec::<u8>::new()]);
    assert_eq!(taken, 1);
}

#[test]
fn lines_that_are_not_utf8_are_passed_over() {
    let lines = vec![
        b"ERROR ok".to_vec(),
        vec![0xff, 0xfe, b'x'],
        "caf\u{e9} \u{2603}".as_bytes().to_vec(),
        vec![0xc3],
        vec![0xed, 0xa0, 0x80],
        Vec::new(),
    ];
    assert_eq!(decode_lines(lines), vec!["ERROR ok", "caf\u{e9} \u{2603}", ""]);
    let mut watcher = Watcher::new();
    assert_eq!(watcher.next_lines(b"ERROR a\n\xff\xff\nERROR b\n"), vec!["ERROR a", "ERROR b"]);
    assert_eq!(watcher.offset(), 19);
}

#[test]
fn reading_in_two_steps_yields_the_same_lines_as_in_one() {
    let whole = b"one\ntwo\r\nthr\nfour\nfi";
    let (all, all_taken) = split_lines(whole);
    for cut in 0..whole.len() + 1 {
        let (first, taken) = split_lines(&whole[..cut]);
        let (second, more) = split_lines(&whole[taken..]);
        let mut joined = first.clone();
        joined.extend(second);
        assert_eq!(joined, all, "cut at {}", cut);
        assert_eq!(taken + more, all_taken);
    }
}

#[test]
fn only_a_failed_read_is_passed_over() {
    assert_eq!(severity(WatchFailure::Setup), Severity::Fatal);
    assert_eq!(severity(WatchFailure::PathRemoved), Severity::Fatal);
    assert_eq!(severity(WatchFailure::Read), Severity::Transient);
}
