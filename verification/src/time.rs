//! Moments and days, as integers.
//!
//! A moment is a number of seconds since the start of 1970 and the nanoseconds
//! on top of them. A day is its number in the Gregorian calendar, where the
//! first of January of the year 1 is day 1. Text is `chrono`'s work.

use vstd::prelude::*;

pub mod laws;

verus! {

/// A moment in UTC. The nanoseconds pass one second within a leap second.
#[derive(Debug, Clone, Copy, PartialEq, Eq, Structural)]
pub struct Timestamp {
    pub secs: i64,
    pub nanos: u32,
}

/// `a` is not later than `b`.
pub open spec fn not_later(a: Timestamp, b: Timestamp) -> bool {
    a.secs < b.secs || (a.secs == b.secs && a.nanos <= b.nanos)
}

/// Whether `a` is not later than `b`.
pub fn is_not_later(a: &Timestamp, b: &Timestamp) -> (r: bool)
    ensures
        r == not_later(*a, *b),
{
    a.secs < b.secs || (a.secs == b.secs && a.nanos <= b.nanos)
}

/// The day on which a moment falls.
pub open spec fn day_of(t: Timestamp) -> int {
    t.secs as int / 86_400 + 719_163
}

/// The second of its day in which a moment falls.
pub open spec fn second_of_day(t: Timestamp) -> int {
    t.secs as int % 86_400
}

/// The whole days in a number of seconds, rounded down, and what is left.
fn split_days(secs: i64) -> (r: (i64, i64))
    ensures
        r.0 == secs as int / 86_400,
        r.1 == secs as int % 86_400,
{
    if secs >= 0 {
        (secs / 86_400, secs % 86_400)
    } else {
        let n: i64 = -(secs + 1);
        let q: i64 = n / 86_400;
        let m: i64 = n % 86_400;
        assert(secs as int == -(q as int + 1) * 86_400 + (86_399 - m as int));
        (-q - 1, 86_399 - m)
    }
}

/// The day on which a moment falls.
pub fn date_of(t: &Timestamp) -> (r: i64)
    ensures
        r == day_of(*t),
{
    let d = split_days(t.secs);
    assert(d.0 <= i64::MAX / 86_400);
    d.0 + 719_163
}

/// The hour, the minute and the second of its day in which a moment falls. A leap
/// second is the one after the last.
pub fn time_of_day(t: &Timestamp) -> (r: (i64, i64, i64))
    ensures
        r.0 == second_of_day(*t) / 3600,
        r.1 == second_of_day(*t) % 3600 / 60,
        r.2 == shown_second(*t),
        0 <= r.0 < 24,
        0 <= r.1 < 60,
{
    let s = split_days(t.secs).1;
    let leap: i64 = if t.nanos >= 1_000_000_000 {
        1
    } else {
        0
    };
    (s / 3600, s % 3600 / 60, s % 60 + leap)
}

/// The second of its minute in which a moment falls. A leap second is the one after
/// the last.
pub open spec fn shown_second(t: Timestamp) -> int {
    second_of_day(t) % 60 + if t.nanos >= 1_000_000_000 {
        1int
    } else {
        0int
    }
}

/// The nanoseconds from `start` to `end`. A leap second that has begun at the
/// earlier time of day counts as one more.
pub open spec fn nanos_between(start: Timestamp, end: Timestamp) -> int {
    let extra: int = if second_of_day(end) > second_of_day(start) && start.nanos >= 1_000_000_000 {
        1
    } else if second_of_day(end) < second_of_day(start) && end.nanos >= 1_000_000_000 {
        -1
    } else {
        0
    };
    (end.secs - start.secs + extra) * 1_000_000_000 + (end.nanos - start.nanos)
}

/// The whole milliseconds from `start` to `end`, where they are not negative and
/// fit.
pub open spec fn millis_between(start: Timestamp, end: Timestamp) -> Option<u64> {
    let n = nanos_between(start, end);
    if n <= -1_000_000 {
        None
    } else if n < 0 {
        Some(0)
    } else if n / 1_000_000 <= u64::MAX {
        Some((n / 1_000_000) as u64)
    } else {
        None
    }
}

/// The nanoseconds from `start` to `end`.
fn elapsed_nanos(start: &Timestamp, end: &Timestamp) -> (r: i128)
    ensures
        r == nanos_between(*start, *end),
{
    let s = split_days(start.secs).1;
    let e = split_days(end.secs).1;
    let extra: i128 = if e > s && start.nanos >= 1_000_000_000 {
        1
    } else if e < s && end.nanos >= 1_000_000_000 {
        -1
    } else {
        0
    };
    let secs: i128 = end.secs as i128 - start.secs as i128 + extra;
    secs * 1_000_000_000 + (end.nanos as i128 - start.nanos as i128)
}

/// The whole milliseconds from `start` to `end`, where they are not negative.
pub fn elapsed_millis(start: &Timestamp, end: &Timestamp) -> (r: Option<u64>)
    ensures
        r == millis_between(*start, *end),
{
    let n = elapsed_nanos(start, end);
    if n <= -1_000_000 {
        None
    } else if n < 0 {
        Some(0)
    } else {
        let ms: i128 = n / 1_000_000;
        if ms <= 0xffff_ffff_ffff_ffff {
            Some(ms as u64)
        } else {
            None
        }
    }
}

/// The whole milliseconds in a number of nanoseconds, rounded towards zero.
pub open spec fn whole_millis(nanos: int) -> int {
    if nanos >= 0 {
        nanos / 1_000_000
    } else {
        -((-nanos) / 1_000_000)
    }
}

/// The whole milliseconds from `start` to `end`, which may be negative.
pub fn signed_millis(start: &Timestamp, end: &Timestamp) -> (r: i64)
    requires
        in_calendar(day_of(*start)),
        in_calendar(day_of(*end)),
    ensures
        r == whole_millis(nanos_between(*start, *end)),
{
    let n = elapsed_nanos(start, end);
    assert(-17_000_000_000_000 * 1_000_000_000 <= n <= 17_000_000_000_000 * 1_000_000_000);
    if n >= 0 {
        (n / 1_000_000) as i64
    } else {
        -(((-n) / 1_000_000) as i64)
    }
}

// ---------------------------------------------------------------------------
// Days
// ---------------------------------------------------------------------------

/// The first day that the calendar has.
pub const FIRST_DAY: i64 = -95_746_129;

/// The last day that the calendar has.
pub const LAST_DAY: i64 = 95_745_399;

/// The day is one that the calendar has.
pub open spec fn in_calendar(day: int) -> bool {
    FIRST_DAY <= day <= LAST_DAY
}

/// The days since the last Monday: none on a Monday.
pub open spec fn days_from_monday(day: int) -> int {
    (day - 1) % 7
}

/// The days since the last Monday.
pub fn weekday_from_monday(day: i64) -> (r: i64)
    requires
        in_calendar(day as int),
    ensures
        r == days_from_monday(day as int),
        0 <= r < 7,
{
    if day >= 1 {
        (day - 1) % 7
    } else {
        6 - (-day) % 7
    }
}

// ---------------------------------------------------------------------------
// Text
// ---------------------------------------------------------------------------

pub uninterp spec fn timestamp_parsed(s: Seq<char>) -> Option<Timestamp>;

pub uninterp spec fn timestamp_rendered(t: Timestamp) -> Option<Seq<char>>;

pub uninterp spec fn offset_rendered(t: Timestamp) -> Option<Seq<char>>;

pub uninterp spec fn date_parsed(s: Seq<char>) -> Option<i64>;

pub uninterp spec fn date_rendered(day: int) -> Option<Seq<char>>;

pub uninterp spec fn calendar_date(day: int) -> Option<(i32, u32, u32)>;

/// The moment falls within the years of four digits, and not in a leap second.
pub open spec fn ordinary(t: Timestamp) -> bool {
    -62_167_219_200 <= t.secs <= 253_402_300_799 && t.nanos < 1_000_000_000
}

/// Reads a moment: `chrono`'s `FromStr` of `DateTime<Utc>`, which accepts
/// RFC 3339. The result is a function of the text.
#[verifier::external_body]
pub(crate) fn parse_timestamp(s: &str) -> (r: Option<Timestamp>)
    ensures
        r == timestamp_parsed(s@),
{
    let moment = s.parse::<chrono::DateTime<chrono::Utc>>().ok()?;
    Some(Timestamp { secs: moment.timestamp(), nanos: moment.timestamp_subsec_nanos() })
}

/// Writes a moment: `chrono`'s `to_rfc3339_opts` in UTC, with as many decimals
/// as the moment has. The result is a function of the moment; there is none
/// where `DateTime::from_timestamp` refuses it. Ordinary moments are written,
/// and reading what was written gives the moment back.
#[verifier::external_body]
pub(crate) fn render_timestamp(t: &Timestamp) -> (r: Option<String>)
    ensures
        crate::text::opt_view(r) == timestamp_rendered(*t),
        ordinary(*t) ==> r is Some && timestamp_parsed(r->0@) == Some(*t),
{
    let moment = chrono::DateTime::<chrono::Utc>::from_timestamp(t.secs, t.nanos)?;
    Some(moment.to_rfc3339_opts(chrono::SecondsFormat::AutoSi, true))
}

/// Writes a moment with the offset of UTC: `chrono`'s `to_rfc3339`. The result is
/// a function of the moment; there is none where `DateTime::from_timestamp`
/// refuses it.
#[verifier::external_body]
pub(crate) fn render_with_offset(t: &Timestamp) -> (r: Option<String>)
    ensures
        crate::text::opt_view(r) == offset_rendered(*t),
        ordinary(*t) ==> r is Some,
{
    chrono::DateTime::<chrono::Utc>::from_timestamp(t.secs, t.nanos).map(|m| m.to_rfc3339())
}

/// Reads a day: `chrono::NaiveDate::parse_from_str` with the format that is a
/// year, a month and a day with dashes between them. The result is a function of
/// the text, and a day of the calendar.
#[verifier::external_body]
pub(crate) fn parse_date(s: &str) -> (r: Option<i64>)
    ensures
        r == date_parsed(s@),
        r matches Some(d) ==> in_calendar(d as int),
{
    let date = chrono::NaiveDate::parse_from_str(s, "%Y-%m-%d").ok()?;
    Some(i64::from(chrono::Datelike::num_days_from_ce(&date)))
}

/// Writes a day: `chrono::NaiveDate`'s `to_string`. The result is a function of
/// the day, and there is one for every day of the calendar.
#[verifier::external_body]
pub(crate) fn render_date(day: i64) -> (r: Option<String>)
    ensures
        crate::text::opt_view(r) == date_rendered(day as int),
        in_calendar(day as int) ==> r is Some,
{
    let number = i32::try_from(day).ok()?;
    chrono::NaiveDate::from_num_days_from_ce_opt(number).map(|d| d.to_string())
}

/// The year, the month and the day of the month of a day: the accessors of
/// `chrono::NaiveDate`. The result is a function of the day, and there is one
/// for every day of the calendar.
#[verifier::external_body]
pub(crate) fn date_parts(day: i64) -> (r: Option<(i32, u32, u32)>)
    ensures
        r == calendar_date(day as int),
        in_calendar(day as int) ==> r is Some,
{
    let number = i32::try_from(day).ok()?;
    let date = chrono::NaiveDate::from_num_days_from_ce_opt(number)?;
    Some((chrono::Datelike::year(&date), chrono::Datelike::month(&date), chrono::Datelike::day(&date)))
}

} // verus!
