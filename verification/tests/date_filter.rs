use weavr::aggregate::SessionAggregate;
use weavr::dates::{
    before_day_end, cached_timestamps_match_date_range, calendar_date_start, parse_date,
    session_matches_date_range, time_not_later, timestamps_in_range, DateError, UtcTime,
};

fn t(secs: i64) -> UtcTime {
    UtcTime { secs, nanos: 0 }
}

// 2025-06-15T00:00:00Z
const JUNE_15: i64 = 1_749_945_600;
const DAY: i64 = 86_400;

fn agg(first: Option<UtcTime>, last: Option<UtcTime>) -> SessionAggregate {
    SessionAggregate {
        message_count: 3,
        total_input_tokens: 1,
        total_output_tokens: 2,
        total_cache_creation_tokens: 0,
        total_cache_read_tokens: 0,
        first_timestamp: first,
        last_timestamp: last,
        summaries: vec![],
    }
}

#[test]
fn iso_dates_start_at_midnight_utc() {
    let now = t(JUNE_15 + 5 * DAY + 3600);
    assert_eq!(parse_date("2025-06-15", now), Ok(t(JUNE_15)));
    assert_eq!(parse_date("1970-01-01", now), Ok(t(0)));
    assert_eq!(parse_date("1969-12-31", now), Ok(t(-DAY)));
}

#[test]
fn relative_dates_count_back_from_today() {
    let now = t(JUNE_15 + 3600 * 13 + 7);
    assert_eq!(parse_date("today", now), Ok(t(JUNE_15)));
    assert_eq!(parse_date("yesterday", now), Ok(t(JUNE_15 - DAY)));
    assert_eq!(parse_date("last week", now), Ok(t(JUNE_15 - 7 * DAY)));
    assert_eq!(parse_date("last month", now), Ok(t(JUNE_15 - 30 * DAY)));
}

#[test]
fn unreadable_dates_are_errors() {
    let now = t(JUNE_15);
    assert_eq!(parse_date("someday", now), Err(DateError::Unrecognized { input: "someday".into() }));
    assert_eq!(parse_date("2025-02-30", now), Err(DateError::Unrecognized { input: "2025-02-30".into() }));
    assert_eq!(calendar_date_start("x", None), Err(DateError::Unrecognized { input: "x".into() }));
    assert_eq!(calendar_date_start("x", Some((1970, 1, 2, 719164))), Ok(t(DAY)));
}

#[test]
fn day_end_bound() {
    assert!(before_day_end(t(JUNE_15 + DAY - 1), t(JUNE_15)));
    assert!(!before_day_end(UtcTime { secs: JUNE_15 + DAY - 1, nanos: 1 }, t(JUNE_15)));
    assert!(!before_day_end(t(JUNE_15 + DAY), t(JUNE_15)));
    assert!(before_day_end(t(-DAY), t(-1)));
    assert!(!before_day_end(t(0), t(-1)));
    assert!(time_not_later(t(5), t(5)));
    assert!(time_not_later(UtcTime { secs: 5, nanos: 1 }, UtcTime { secs: 5, nanos: 2 }));
    assert!(!time_not_later(t(6), t(5)));
}

#[test]
fn overlap_rules() {
    let first = Some(t(JUNE_15 + 3600));
    let last = Some(t(JUNE_15 + 2 * DAY));
    assert!(timestamps_in_range(first, last, None, None));
    assert!(timestamps_in_range(first, last, Some(t(JUNE_15 + DAY)), None));
    assert!(!timestamps_in_range(first, last, Some(t(JUNE_15 + 3 * DAY)), None));
    assert!(timestamps_in_range(first, last, None, Some(t(JUNE_15))));
    assert!(!timestamps_in_range(first, last, None, Some(t(JUNE_15 - DAY))));
    assert!(timestamps_in_range(first, last, Some(t(JUNE_15 - 3 * DAY)), Some(t(JUNE_15))));
    assert!(!timestamps_in_range(first, last, Some(t(JUNE_15 + 3 * DAY)), Some(t(JUNE_15 + 4 * DAY))));
    assert!(timestamps_in_range(None, None, Some(t(0)), Some(t(0))));
    assert!(timestamps_in_range(first, None, Some(t(JUNE_15 + 9 * DAY)), Some(t(0))));
}

#[test]
fn session_filter_reads_both_bounds() {
    let now = t(JUNE_15 + 10 * DAY);
    let a = agg(Some(t(JUNE_15 + 3600)), Some(t(JUNE_15 + 7200)));
    assert_eq!(session_matches_date_range(&a, Some("2025-06-15"), Some("2025-06-15"), now), Ok(true));
    assert_eq!(session_matches_date_range(&a, Some("2025-06-16"), None, now), Ok(false));
    assert_eq!(session_matches_date_range(&a, None, Some("2025-06-14"), now), Ok(false));
    assert_eq!(session_matches_date_range(&a, None, None, now), Ok(true));
    assert_eq!(
        session_matches_date_range(&a, Some("bad"), Some("worse"), now),
        Err(DateError::Unrecognized { input: "bad".into() })
    );
    assert_eq!(
        session_matches_date_range(&a, Some("2025-06-01"), Some("worse"), now),
        Err(DateError::Unrecognized { input: "worse".into() })
    );
    assert_eq!(session_matches_date_range(&a, Some("last week"), None, now), Ok(false));
}

#[test]
fn cached_timestamps_use_rfc3339() {
    let from = Some(t(JUNE_15));
    let to = Some(t(JUNE_15));
    assert!(cached_timestamps_match_date_range(
        Some("2025-06-15T10:00:00Z"),
        Some("2025-06-15T12:00:00+00:00"),
        from,
        to
    ));
    assert!(!cached_timestamps_match_date_range(
        Some("2025-06-16T10:00:00Z"),
        Some("2025-06-16T12:00:00Z"),
        from,
        to
    ));
    assert!(cached_timestamps_match_date_range(Some("2025-06-16T01:00:00+02:00"), None, None, to));
    assert!(cached_timestamps_match_date_range(Some("garbage"), Some("garbage"), from, to));
    assert!(!cached_timestamps_match_date_range(None, Some("2025-06-14T23:59:59Z"), from, None));
}
