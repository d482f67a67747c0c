//! Time: reading the clock and writing a timestamp as a calendar date.

use vstd::prelude::*;

verus! {

#[verifier::external_type_specification]
#[verifier::external_body]
pub struct ExSystemTime(std::time::SystemTime);

/// Trusted: `SystemTime::now`. Nothing is promised of the value, which
/// differs from call to call.
#[verifier::external_body]
pub(crate) fn system_now() -> (now: std::time::SystemTime) {
    std::time::SystemTime::now()
}

/// Trusted: `SystemTime::duration_since`, measured against `UNIX_EPOCH`; its
/// error, a time before the epoch, is handed on as `None`. Nothing is
/// promised of the value.
#[verifier::external_body]
pub(crate) fn since_epoch(time: &std::time::SystemTime) -> (elapsed: Option<std::time::Duration>) {
    time.duration_since(std::time::UNIX_EPOCH).ok()
}

/// Trusted: `Duration::as_secs`. A duration is opaque here, so nothing is
/// promised of the value.
#[verifier::external_body]
pub(crate) fn whole_seconds(elapsed: &std::time::Duration) -> (seconds: u64) {
    elapsed.as_secs()
}

/// What the system clock shows, in whole seconds since the Unix epoch;
/// `None` for a clock set before the epoch.
pub fn clock_seconds() -> (seconds: Option<u64>) {
    match since_epoch(&system_now()) {
        Some(elapsed) => Some(whole_seconds(&elapsed)),
        None => None,
    }
}

/// Seconds since the Unix epoch by the system clock; 0 for a clock set before
/// the epoch. The value is the clock's: nothing is promised of it here, and
/// [`timestamp_of`] says what is made of each reading.
pub fn current_timestamp() -> u64 {
    timestamp_of(clock_seconds())
}

/// The timestamp for a reading of the clock: the seconds it shows, and 0 for
/// a clock set before the epoch.
pub open spec fn reading_seconds(reading: Option<u64>) -> u64 {
    match reading {
        Some(seconds) => seconds,
        None => 0,
    }
}

/// The timestamp for `reading`, where `None` stands for a clock set before
/// the epoch.
pub fn timestamp_of(reading: Option<u64>) -> (timestamp: u64)
    ensures
        timestamp == reading_seconds(reading),
{
    match reading {
        Some(seconds) => seconds,
        None => 0,
    }
}

/// What chrono writes under `%Y-%m-%d %H:%M:%S` for the UTC date and time
/// that lie `seconds` seconds after the Unix epoch; `None` where chrono has no
/// date for them.
pub uninterp spec fn utc_date_time(seconds: int) -> Option<Seq<char>>;

/// Trusted: `chrono::DateTime::from_timestamp` with no nanoseconds, written
/// through `naive_utc` and `format`. chrono answers `None` for a number of
/// seconds that is out of its range; the text itself is only given the name
/// [`utc_date_time`].
#[verifier::external_body]
pub(crate) fn write_utc(seconds: i64) -> (text: Option<String>)
    ensures
        text is Some <==> utc_date_time(seconds as int) is Some,
        text matches Some(t) ==> utc_date_time(seconds as int) == Some(t@),
{
    chrono::DateTime::from_timestamp(seconds, 0).map(
        |t| t.naive_utc().format("%Y-%m-%d %H:%M:%S").to_string(),
    )
}

/// The calendar text of `timestamp`: none for a timestamp that no signed
/// 64-bit count of seconds holds, else what chrono writes for it.
pub open spec fn timestamp_text(timestamp: u64) -> Option<Seq<char>> {
    if timestamp <= i64::MAX {
        utc_date_time(timestamp as int)
    } else {
        None
    }
}

/// `timestamp` as a UTC date and time of the form `2015-05-15 00:00:00`, or
/// `None` where the date is out of the calendar's range.
pub fn format_timestamp(timestamp: u64) -> (text: Option<String>)
    ensures
        text is Some <==> timestamp_text(timestamp) is Some,
        text matches Some(t) ==> timestamp_text(timestamp) == Some(t@),
{
    if timestamp <= i64::MAX as u64 {
        write_utc(timestamp as i64)
    } else {
        None
    }
}

} // verus!
