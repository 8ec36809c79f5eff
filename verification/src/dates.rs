//! Instants, calendar days and the date-range filter of the exporter.

use chrono::Datelike;
use vstd::prelude::*;
use crate::text::str_equals;

verus! {

/// Seconds in a calendar day.
pub const SECS_PER_DAY: i64 = 86400;

/// Days from 0001-01-01 (day 1 of the common era) to 1970-01-01.
pub const EPOCH_DAYS_FROM_CE: i64 = 719163;

/// Bound on the seconds of the instants handled here. It lies beyond the
/// range of dates that chrono represents (years -262143 to 262142).
pub const MAX_ABS_SECS: i64 = 10_000_000_000_000;

/// An instant in UTC: whole seconds since 1970-01-01T00:00:00Z and the
/// nanoseconds within that second, as chrono's `timestamp` and
/// `timestamp_subsec_nanos` report them.
#[derive(Debug, Clone, Copy, PartialEq, Eq)]
pub struct UtcTime {
    pub secs: i64,
    pub nanos: u32,
}

/// Whether an instant lies within the range handled here.
pub open spec fn in_range(t: UtcTime) -> bool {
    -MAX_ABS_SECS <= t.secs <= MAX_ABS_SECS
}

/// Instant order: `a` is not later than `b`.
pub open spec fn not_later(a: UtcTime, b: UtcTime) -> bool {
    a.secs < b.secs || (a.secs == b.secs && a.nanos <= b.nanos)
}

/// The day, counted from 1970-01-01, that holds second `secs`.
pub open spec fn day_of(secs: int) -> int {
    secs / 86400
}

/// The last whole second (23:59:59) of the day that holds `t`.
pub open spec fn day_end_secs(t: UtcTime) -> int {
    day_of(t.secs as int) * 86400 + 86399
}

/// `a` is not later than 23:59:59.000 of the day of `t`.
pub open spec fn not_after_day_end(a: UtcTime, t: UtcTime) -> bool {
    a.secs < day_end_secs(t) || (a.secs == day_end_secs(t) && a.nanos == 0)
}

/// Whether a session whose first and last timestamps are `first` and
/// `last` is kept by a filter from `from` to the end of the day of `to`.
/// A session is kept unless a bound is given and the timestamp it needs is
/// known and lies outside it.
pub open spec fn range_admits(
    first: Option<UtcTime>,
    last: Option<UtcTime>,
    from: Option<UtcTime>,
    to: Option<UtcTime>,
) -> bool {
    match (from, to) {
        (None, None) => true,
        (Some(f), None) => match last {
            Some(l) => not_later(f, l),
            None => true,
        },
        (None, Some(t)) => match first {
            Some(fs) => not_after_day_end(fs, t),
            None => true,
        },
        (Some(f), Some(t)) => match (first, last) {
            (Some(fs), Some(ls)) => not_later(f, ls) && not_after_day_end(fs, t),
            _ => true,
        },
    }
}

/// Whether instant `a` is not later than instant `b`.
pub fn time_not_later(a: UtcTime, b: UtcTime) -> (r: bool)
    ensures
        r == not_later(a, b),
{
    a.secs < b.secs || (a.secs == b.secs && a.nanos <= b.nanos)
}

/// A multiple of a day above every `i64`, used to floor-divide negative
/// seconds with unsigned-style division.
const DAY_SHIFT_DAYS: i128 = 120_000_000_000_000;

proof fn lemma_shifted_day(s: int, m: int)
    requires
        m == 120_000_000_000_000,
        s + 86400 * m >= 0,
    ensures
        (s + 86400 * m) / 86400 == s / 86400 + m,
{
    vstd::arithmetic::div_mod::lemma_fundamental_div_mod(s, 86400);
    let q = s / 86400;
    let r = s % 86400;
    assert(s + 86400 * m == (q + m) * 86400 + r) by (nonlinear_arith)
        requires
            s == 86400 * q + r,
    ;
    vstd::arithmetic::div_mod::lemma_fundamental_div_mod_converse(s + 86400 * m, 86400, q + m, r);
}

/// The day of `secs`, counted from 1970-01-01 (floor division).
fn day_index(secs: i64) -> (d: i128)
    ensures
        d == day_of(secs as int),
{
    let shifted: i128 = (secs as i128) + 86400 * DAY_SHIFT_DAYS;
    proof {
        lemma_shifted_day(secs as int, DAY_SHIFT_DAYS as int);
    }
    shifted / 86400 - DAY_SHIFT_DAYS
}

/// Whether `a` is not later than the end (23:59:59) of the day of `t`,
/// the test that an upper date bound applies.
pub fn before_day_end(a: UtcTime, t: UtcTime) -> (r: bool)
    ensures
        r == not_after_day_end(a, t),
{
    let end: i128 = day_index(t.secs) * 86400 + 86399;
    let s: i128 = a.secs as i128;
    s < end || (s == end && a.nanos == 0)
}

/// Decides the date-range filter for a session's first and last
/// timestamps, as the batch and single-file exports both apply it.
pub fn timestamps_in_range(
    first: Option<UtcTime>,
    last: Option<UtcTime>,
    from: Option<UtcTime>,
    to: Option<UtcTime>,
) -> (r: bool)
    ensures
        r == range_admits(first, last, from, to),
{
    match (from, to) {
        (None, None) => true,
        (Some(f), None) => match last {
            Some(l) => time_not_later(f, l),
            None => true,
        },
        (None, Some(t)) => match first {
            Some(fs) => before_day_end(fs, t),
            None => true,
        },
        (Some(f), Some(t)) => match (first, last) {
            (Some(fs), Some(ls)) => time_not_later(f, ls) && before_day_end(fs, t),
            _ => true,
        },
    }
}

} // verus!

verus! {

/// What chrono's `NaiveDate::parse_from_str(text, "%Y-%m-%d")` gives for
/// `text`: the year, month, day and `num_days_from_ce` of the date, or
/// nothing when the text is refused.
pub uninterp spec fn chrono_ymd(text: Seq<char>) -> Option<(i32, u32, u32, i32)>;

/// Parses `text` as `YYYY-MM-DD` with chrono's `NaiveDate::parse_from_str`
/// and reads the parsed date's year, month, day and day number. The result
/// is named by `chrono_ymd`; chrono's documentation promises a month in
/// 1..=12 and a day in 1..=31, and its date range (years -262143 to 262142)
/// bounds the day number, which the contract states.
#[verifier::external_body]
pub(crate) fn parse_ymd(text: &str) -> (r: Option<(i32, u32, u32, i32)>)
    ensures
        r == chrono_ymd(text@),
        r matches Some((y, m, d, ce)) ==> 1 <= m <= 12 && 1 <= d <= 31 && -100_000_000 <= ce
            <= 100_000_000,
{
    match chrono::NaiveDate::parse_from_str(text, "%Y-%m-%d") {
        Ok(d) => Some((d.year(), d.month(), d.day(), d.num_days_from_ce())),
        Err(_) => None,
    }
}

/// What chrono's `DateTime::parse_from_rfc3339` gives for `text`: the
/// instant as UTC seconds and subsecond nanoseconds, or nothing when the
/// text is refused.
pub uninterp spec fn chrono_rfc3339(text: Seq<char>) -> Option<(i64, u32)>;

/// Parses an RFC 3339 timestamp with chrono's `DateTime::parse_from_rfc3339`
/// and reads its instant (`timestamp`, `timestamp_subsec_nanos`). The result
/// is named by `chrono_rfc3339`; nothing more is stated of it.
#[verifier::external_body]
fn parse_rfc3339(text: &str) -> (r: Option<UtcTime>)
    ensures
        r == (match chrono_rfc3339(text@) {
            Some(p) => Some(UtcTime { secs: p.0, nanos: p.1 }),
            None => None,
        }),
{
    match chrono::DateTime::parse_from_rfc3339(text) {
        Ok(d) => Some(UtcTime { secs: d.timestamp(), nanos: d.timestamp_subsec_nanos() }),
        Err(_) => None,
    }
}

/// What chrono gives as the RFC 3339 text of the instant `secs`, `nanos`
/// (`DateTime::<Utc>::from_timestamp`, then `to_rfc3339`), or nothing when
/// chrono cannot represent that instant.
pub uninterp spec fn chrono_rfc3339_text(secs: i64, nanos: u32) -> Option<Seq<char>>;

/// Writes an instant as RFC 3339 text with chrono: `DateTime::from_timestamp`
/// turns the seconds and nanoseconds back into chrono's UTC date-time (its
/// documentation shows this round trip), and `to_rfc3339` writes it. The
/// result is named by `chrono_rfc3339_text`.
#[verifier::external_body]
pub(crate) fn rfc3339_text(t: UtcTime) -> (r: Option<String>)
    ensures
        match r {
            Some(s) => chrono_rfc3339_text(t.secs, t.nanos) == Some(s@),
            None => chrono_rfc3339_text(t.secs, t.nanos) is None,
        },
{
    chrono::DateTime::from_timestamp(t.secs, t.nanos).map(|d| d.to_rfc3339())
}

/// A date filter that could not be read.
#[derive(Debug, Clone, PartialEq, Eq)]
pub enum DateError {
    /// The text is neither a known relative day nor a `YYYY-MM-DD` date.
    Unrecognized { input: String },
}

/// Days back from today that a relative date word names: `today`,
/// `yesterday`, `last week` (seven days) and `last month` (thirty days).
pub open spec fn relative_days_back(text: Seq<char>) -> Option<int> {
    if text == "today"@ {
        Some(0)
    } else if text == "yesterday"@ {
        Some(1)
    } else if text == "last week"@ {
        Some(7)
    } else if text == "last month"@ {
        Some(30)
    } else {
        None
    }
}

/// The start (00:00:00 UTC) of day `day`, counted from 1970-01-01.
pub open spec fn day_start(day: int) -> UtcTime {
    UtcTime { secs: (day * 86400) as i64, nanos: 0 }
}

/// The day a date filter names, given the current day `today`: a relative
/// word counts back from today, anything else is read as a calendar date.
pub open spec fn filter_day(text: Seq<char>, today: int) -> Option<int> {
    match relative_days_back(text) {
        Some(back) => Some(today - back),
        None => match chrono_ymd(text) {
            Some(p) => Some(p.3 - EPOCH_DAYS_FROM_CE),
            None => None,
        },
    }
}

/// The instant a date filter stands for: the start of the day it names.
pub open spec fn filter_instant(text: Seq<char>, now: UtcTime) -> Option<UtcTime> {
    match filter_day(text, day_of(now.secs as int)) {
        Some(d) => Some(day_start(d)),
        None => None,
    }
}

/// The start of a calendar date, given chrono's reading of `text`: the day
/// of a parsed date, or a refusal naming the text when chrono refused it.
pub fn calendar_date_start(text: &str, parsed: Option<(i32, u32, u32, i32)>) -> (r: Result<
    UtcTime,
    DateError,
>)
    requires
        parsed matches Some(p) ==> -100_000_000 <= p.3 <= 100_000_000,
    ensures
        match parsed {
            Some(p) => r == Ok::<UtcTime, DateError>(day_start(p.3 - EPOCH_DAYS_FROM_CE)),
            None => r matches Err(DateError::Unrecognized { input }) && input@ == text@,
        },
{
    match parsed {
        Some((_, _, _, ce)) => {
            let day: i64 = (ce as i64) - EPOCH_DAYS_FROM_CE;
            Ok(UtcTime { secs: day * SECS_PER_DAY, nanos: 0 })
        },
        None => Err(DateError::Unrecognized { input: crate::text::to_owned_string(text) }),
    }
}

/// Reads a date filter: `today`, `yesterday`, `last week`, `last month`
/// or a `YYYY-MM-DD` date, as the start of that day in UTC, relative to
/// the current instant `now`.
pub fn parse_date(text: &str, now: UtcTime) -> (r: Result<UtcTime, DateError>)
    requires
        in_range(now),
    ensures
        match filter_instant(text@, now) {
            Some(t) => r == Ok::<UtcTime, DateError>(t),
            None => r matches Err(DateError::Unrecognized { input }) && input@ == text@,
        },
{
    let back: i64 = if str_equals(text, "today") {
        0
    } else if str_equals(text, "yesterday") {
        1
    } else if str_equals(text, "last week") {
        7
    } else if str_equals(text, "last month") {
        30
    } else {
        -1
    };
    if back >= 0 {
        let today = day_index(now.secs);
        let day: i128 = today - (back as i128);
        assert(-200_000_000_000 <= day <= 200_000_000_000);
        let secs: i128 = day * 86400;
        return Ok(UtcTime { secs: secs as i64, nanos: 0 });
    }
    let parsed = parse_ymd(text);
    calendar_date_start(text, parsed)
}

/// Applies the date filter to a session's aggregate. Both bounds are read
/// first (`from_date`, then `to_date`), and a bound that cannot be read is
/// the error.
pub fn session_matches_date_range(
    agg: &crate::aggregate::SessionAggregate,
    from_date: Option<&str>,
    to_date: Option<&str>,
    now: UtcTime,
) -> (r: Result<bool, DateError>)
    requires
        in_range(now),
    ensures
        ({
            let from = match from_date {
                Some(s) => filter_instant(s@, now),
                None => None,
            };
            let to = match to_date {
                Some(s) => filter_instant(s@, now),
                None => None,
            };
            let from_bad = from_date is Some && from is None;
            let to_bad = to_date is Some && to is None;
            &&& from_bad ==> (r matches Err(DateError::Unrecognized { input }) && input@
                == from_date.unwrap()@)
            &&& !from_bad && to_bad ==> (r matches Err(DateError::Unrecognized { input })
                && input@ == to_date.unwrap()@)
            &&& !from_bad && !to_bad ==> r == Ok::<bool, DateError>(
                range_admits(agg.first_timestamp, agg.last_timestamp, from, to),
            )
        }),
{
    let from_dt = match from_date {
        Some(s) => Some(parse_date(s, now)?),
        None => None,
    };
    let to_dt = match to_date {
        Some(s) => Some(parse_date(s, now)?),
        None => None,
    };
    Ok(timestamps_in_range(agg.first_timestamp, agg.last_timestamp, from_dt, to_dt))
}

/// A stored RFC 3339 timestamp as an instant, when chrono reads it.
pub open spec fn stored_instant(text: Option<&str>) -> Option<UtcTime> {
    match text {
        Some(s) => match chrono_rfc3339(s@) {
            Some(p) => Some(UtcTime { secs: p.0, nanos: p.1 }),
            None => None,
        },
        None => None,
    }
}

/// Applies the date filter to a cached session, whose timestamps are
/// stored as RFC 3339 text. A timestamp that cannot be read counts as
/// unknown, so it never filters the session out.
pub fn cached_timestamps_match_date_range(
    first_ts: Option<&str>,
    last_ts: Option<&str>,
    from_dt: Option<UtcTime>,
    to_dt: Option<UtcTime>,
) -> (r: bool)
    ensures
        r == range_admits(stored_instant(first_ts), stored_instant(last_ts), from_dt, to_dt),
{
    let first = match first_ts {
        Some(s) => parse_rfc3339(s),
        None => None,
    };
    let last = match last_ts {
        Some(s) => parse_rfc3339(s),
        None => None,
    };
    timestamps_in_range(first, last, from_dt, to_dt)
}

/// With no date bound every session is kept.
pub proof fn no_bounds_keep_every_session(first: Option<UtcTime>, last: Option<UtcTime>)
    ensures
        range_admits(first, last, None, None),
{
}

/// A session whose timestamps are unknown cannot be filtered, so it is
/// kept whatever the bounds.
pub proof fn sessions_without_timestamps_are_kept(from: Option<UtcTime>, to: Option<UtcTime>)
    ensures
        range_admits(None, None, from, to),
{
}

/// Every whole-second instant lies no later than the end (23:59:59) of
/// its own day.
pub proof fn instant_within_own_day(t: UtcTime)
    requires
        t.nanos == 0,
    ensures
        not_after_day_end(t, t),
{
    vstd::arithmetic::div_mod::lemma_fundamental_div_mod(t.secs as int, 86400);
}

/// `new` drops the lower bound `old` or moves it no later.
pub open spec fn looser_from(new: Option<UtcTime>, old: Option<UtcTime>) -> bool {
    match (new, old) {
        (None, _) => true,
        (Some(n), Some(o)) => not_later(n, o),
        (Some(_), None) => false,
    }
}

/// `new` drops the upper bound `old` or moves it to the same or a later day.
pub open spec fn looser_to(new: Option<UtcTime>, old: Option<UtcTime>) -> bool {
    match (new, old) {
        (None, _) => true,
        (Some(n), Some(o)) => day_of(o.secs as int) <= day_of(n.secs as int),
        (Some(_), None) => false,
    }
}

/// Widening the date window never drops a session whose first and last
/// timestamps are both known.
pub proof fn widening_keeps_sessions(
    first: UtcTime,
    last: UtcTime,
    from: Option<UtcTime>,
    to: Option<UtcTime>,
    wider_from: Option<UtcTime>,
    wider_to: Option<UtcTime>,
)
    requires
        range_admits(Some(first), Some(last), from, to),
        looser_from(wider_from, from),
        looser_to(wider_to, to),
    ensures
        range_admits(Some(first), Some(last), wider_from, wider_to),
{
    match (to, wider_to) {
        (Some(o), Some(n)) => {
            assert(day_end_secs(o) <= day_end_secs(n));
        },
        _ => {},
    }
}

/// `yesterday` is the day before `today`.
pub proof fn yesterday_precedes_today(now: UtcTime)
    requires
        in_range(now),
    ensures
        filter_instant("yesterday"@, now) is Some,
        filter_instant("today"@, now) is Some,
        filter_instant("yesterday"@, now)->0.secs + 86400 == filter_instant("today"@, now)->0.secs,
{
    reveal_strlit("yesterday");
    reveal_strlit("today");
    assert("yesterday"@ != "today"@) by {
        assert("yesterday"@.len() != "today"@.len());
    }
    vstd::arithmetic::div_mod::lemma_fundamental_div_mod(now.secs as int, 86400);
}

/// With both timestamps known, the filter keeps a session exactly when its
/// last timestamp is not before the lower bound and its first timestamp is
/// not after the end of the upper bound's day: the session overlaps the
/// window. Each bound is tested on its own, and with both bounds the session
/// must pass both one-bound tests; the first timestamp is never held against
/// the lower bound, nor the last against the upper one.
pub proof fn filter_keeps_overlapping_sessions(
    first: UtcTime,
    last: UtcTime,
    from: UtcTime,
    to: UtcTime,
)
    ensures
        range_admits(Some(first), Some(last), Some(from), None) == (from.secs < last.secs || (
        from.secs == last.secs && from.nanos <= last.nanos)),
        range_admits(Some(first), Some(last), None, Some(to)) == (first.secs < (to.secs / 86400)
            * 86400 + 86399 || (first.secs == (to.secs / 86400) * 86400 + 86399 && first.nanos
            == 0)),
        range_admits(Some(first), Some(last), Some(from), Some(to)) == (range_admits(
            Some(first),
            Some(last),
            Some(from),
            None,
        ) && range_admits(Some(first), Some(last), None, Some(to))),
{
}

} // verus!
