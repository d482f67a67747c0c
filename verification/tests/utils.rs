use log_monitor::utils::{clock_seconds, current_timestamp, format_timestamp, timestamp_of};

#[test]
fn timestamp_is_written_as_utc_date_and_time() {
    assert_eq!(format_timestamp(0).as_deref(), Some("1970-01-01 00:00:00"));
    assert_eq!(format_timestamp(1_431_648_000).as_deref(), Some("2015-05-15 00:00:00"));
    assert_eq!(format_timestamp(1_704_067_199).as_deref(), Some("2023-12-31 23:59:59"));
    assert_eq!(format_timestamp(1_704_067_200).as_deref(), Some("2024-01-01 00:00:00"));
    assert_eq!(format_timestamp(951_782_400).as_deref(), Some("2000-02-29 00:00:00"));
}

#[test]
fn timestamp_out_of_range_has_no_date() {
    assert_eq!(format_timestamp(u64::MAX), None);
    assert_eq!(format_timestamp(i64::MAX as u64), None);
    assert_eq!(format_timestamp(i64::MAX as u64 + 1), None);
    assert_eq!(format_timestamp(u64::MAX - 60), None);
}

#[test]
fn clock_shows_a_time_after_2020() {
    let now = current_timestamp();
    assert!(now > 1_577_836_800);
    assert!(current_timestamp() >= now);
    assert!(clock_seconds().expect("the clock is set after 1970") >= now);
}

#[test]
fn clock_before_the_epoch_counts_as_zero() {
    assert_eq!(timestamp_of(None), 0);
    assert_eq!(timestamp_of(Some(0)), 0);
    assert_eq!(timestamp_of(Some(1_704_067_200)), 1_704_067_200);
    assert_eq!(timestamp_of(Some(u64::MAX)), u64::MAX);
}
