//! `knack runs`: the log of runs.
//!
//! The same window of days and the same reports, whether the runs come from the
//! day files of a repository or from the server.

use vstd::prelude::*;

use crate::errors::{user_error_hint, CliError, ErrorView};
use crate::github::runs::DEFAULT_LOOKBACK_DAYS;
use crate::json::{
    member_views, no_members, text_or_null, with_member, Json, JsonView,
};
use crate::numbers::{parse_i64, signed_value};
use crate::text::{concat3, concat5, opt_str, opt_str_view, strip_suffix, without_suffix};
use crate::time::{date_parsed, date_rendered, in_calendar, parse_date, render_date, Timestamp};

pub mod diff;
pub mod flow;
pub mod laws;
pub mod list;
pub mod overview;
pub mod show;
pub mod stats;
pub mod trend;

verus! {

/// The commands on runs.
#[derive(Debug)]
pub enum RunsCmd {
    List(list::ListArgs),
    Show(show::ShowArgs),
    Stats(stats::StatsArgs),
    Diff(diff::DiffArgs),
    Trend(trend::TrendArgs),
    Overview(overview::OverviewArgs),
}

// ---------------------------------------------------------------------------
// The window
// ---------------------------------------------------------------------------

/// The number of days that a text like `7d` speaks of.
pub open spec fn offset_of(s: Seq<char>) -> Option<int> {
    match without_suffix(s, "d"@) {
        Some(n) => signed_value(n),
        None => None,
    }
}

/// The day that so many days before `today` is one of the calendar's.
pub open spec fn reachable(s: Option<Seq<char>>, today: int) -> bool {
    s matches Some(s) ==> offset_of(s) matches Some(n) ==> in_calendar(today - n)
}

/// The day of which a text speaks, where `parsed` is the text read as a date.
pub open spec fn day_meant(parsed: Option<i64>, s: Seq<char>, today: int) -> Option<int> {
    match parsed {
        Some(d) => Some(d as int),
        None => match offset_of(s) {
            Some(n) => Some(today - n),
            None => None,
        },
    }
}

fn read_offset(s: &str) -> (r: Option<i64>)
    ensures
        match r {
            Some(n) => offset_of(s@) == Some(n as int),
            None => offset_of(s@) is None,
        },
{
    match strip_suffix(s, "d") {
        Some(n) => parse_i64(n),
        None => None,
    }
}

/// Whether the day of which a text speaks can be counted back to from `today`.
pub fn is_reachable(s: Option<&str>, today: i64) -> (r: bool)
    requires
        in_calendar(today as int),
    ensures
        r == reachable(opt_str_view(s), today as int),
{
    match s {
        Some(s) => match read_offset(s) {
            Some(n) => {
                let d: i128 = today as i128 - n as i128;
                crate::time::FIRST_DAY as i128 <= d && d <= crate::time::LAST_DAY as i128
            },
            None => true,
        },
        None => true,
    }
}

/// The day of which a text speaks, where `parsed` is the text read as a date.
pub fn date_or_offset(parsed: Option<i64>, s: &str, today: i64) -> (r: Result<i64, String>)
    requires
        in_calendar(today as int),
        reachable(Some(s@), today as int),
    ensures
        match r {
            Ok(d) => day_meant(parsed, s@, today as int) == Some(d as int),
            Err(e) => day_meant(parsed, s@, today as int) is None && e@ == "can't parse `"@ + s@
                + "` as date or offset"@,
        },
{
    match parsed {
        Some(d) => Ok(d),
        None => match read_offset(s) {
            Some(n) => Ok((today as i128 - n as i128) as i64),
            None => Err(concat3("can't parse `", s, "` as date or offset")),
        },
    }
}

/// The day of which a text speaks: a date, or a number of days back from `today`.
pub fn parse_date_or_offset(s: &str, today: i64) -> (r: Result<i64, String>)
    requires
        in_calendar(today as int),
        reachable(Some(s@), today as int),
    ensures
        match r {
            Ok(d) => day_meant(date_parsed(s@), s@, today as int) == Some(d as int) && in_calendar(
                d as int,
            ),
            Err(e) => day_meant(date_parsed(s@), s@, today as int) is None && e@
                == "can't parse `"@ + s@ + "` as date or offset"@,
        },
{
    let parsed = parse_date(s);
    date_or_offset(parsed, s, today)
}

/// A day as text. Every day of the calendar has one.
pub open spec fn day_text(day: int) -> Seq<char> {
    match date_rendered(day) {
        Some(s) => s,
        None => seq![],
    }
}

/// A day as text.
pub fn show_day(day: i64) -> (r: String)
    ensures
        r@ == day_text(day as int),
{
    match render_date(day) {
        Some(s) => s,
        None => {
            let s = String::new();
            assert(s@ =~= seq![]);
            s
        },
    }
}

/// The first and the last day: no window ends before it starts.
pub fn window(since: i64, until: i64) -> (r: Result<(i64, i64), String>)
    ensures
        match r {
            Ok(w) => since <= until && w == (since, until),
            Err(e) => since > until && e@ == "since ("@ + day_text(since as int)
                + ") is after until ("@ + day_text(until as int) + ")"@,
        },
{
    if since > until {
        let a = show_day(since);
        let b = show_day(until);
        return Err(concat5("since (", a.as_str(), ") is after until (", b.as_str(), ")"));
    }
    Ok((since, until))
}

/// The day that is given, or one that stands in for it where none is.
pub open spec fn day_or(s: Option<Seq<char>>, today: int, otherwise: int) -> Option<int> {
    match s {
        Some(s) => day_meant(date_parsed(s), s, today),
        None => Some(otherwise),
    }
}

/// The first and the last day of a window: by default the last thirty days up to
/// today.
pub fn parse_window(since: Option<&str>, until: Option<&str>, today: i64) -> (r: Result<
    (i64, i64),
    String,
>)
    requires
        in_calendar(today as int),
        in_calendar(today - DEFAULT_LOOKBACK_DAYS),
        reachable(opt_str_view(since), today as int),
        reachable(opt_str_view(until), today as int),
    ensures
        ({
            let a = day_or(
                opt_str_view(since),
                today as int,
                today - DEFAULT_LOOKBACK_DAYS,
            );
            let b = day_or(opt_str_view(until), today as int, today as int);
            match r {
                Ok(w) => a == Some(w.0 as int) && b == Some(w.1 as int) && w.0 <= w.1
                    && in_calendar(w.0 as int) && in_calendar(w.1 as int),
                Err(e) => if a is None {
                    e@ == "can't parse `"@ + since->0@ + "` as date or offset"@
                } else if b is None {
                    e@ == "can't parse `"@ + until->0@ + "` as date or offset"@
                } else {
                    a->0 > b->0 && e@ == "since ("@ + day_text(a->0) + ") is after until ("@
                        + day_text(b->0) + ")"@
                },
            }
        }),
{
    let first = match since {
        Some(s) => match parse_date_or_offset(s, today) {
            Ok(d) => d,
            Err(e) => {
                return Err(e);
            },
        },
        None => today - DEFAULT_LOOKBACK_DAYS,
    };
    let last = match until {
        Some(s) => match parse_date_or_offset(s, today) {
            Ok(d) => d,
            Err(e) => {
                return Err(e);
            },
        },
        None => today,
    };
    window(first, last)
}

/// The error of a window that cannot be read.
pub fn bad_date(e: String) -> (r: CliError)
    ensures
        r@ == (ErrorView::User {
            code: "BAD_DATE"@,
            message: e@,
            hint: Some("use YYYY-MM-DD or `<N>d` (e.g. `7d`)"@),
        }),
{
    user_error_hint("BAD_DATE", e, "use YYYY-MM-DD or `<N>d` (e.g. `7d`)")
}

/// The start of a day, or its last second.
pub fn naive_to_utc(d: i64, end_of_day: bool) -> (r: Timestamp)
    requires
        in_calendar(d as int),
    ensures
        crate::time::day_of(r) == d,
        crate::time::second_of_day(r) == (if end_of_day {
            86_399int
        } else {
            0
        }),
        r.nanos == 0,
{
    let start: i64 = (d - 719_163) * 86_400;
    if end_of_day {
        Timestamp { secs: start + 86_399, nanos: 0 }
    } else {
        Timestamp { secs: start, nanos: 0 }
    }
}

/// Every moment of a day lies between its start and the moment before its last
/// second is over.
pub proof fn law_day_has_its_moments(t: Timestamp, start: Timestamp, end: Timestamp)
    requires
        crate::time::day_of(start) == crate::time::day_of(t),
        crate::time::second_of_day(start) == 0,
        crate::time::day_of(end) == crate::time::day_of(t),
        crate::time::second_of_day(end) == 86_399,
    ensures
        start.secs <= t.secs <= end.secs,
{
}

/// A window as it is reported.
pub open spec fn window_report(since: int, until: int) -> JsonView {
    JsonView::Object(
        seq![
            ("since"@, text_or_null(date_rendered(since))),
            ("until"@, text_or_null(date_rendered(until))),
        ],
    )
}

/// A window as it is reported.
pub fn window_json(since: i64, until: i64) -> (r: Json)
    ensures
        r.value() == window_report(since as int, until as int),
{
    let a = render_date(since);
    let b = render_date(until);
    let m = with_member(no_members(), "since", Json::opt_text(opt_str(&a)));
    let m = with_member(m, "until", Json::opt_text(opt_str(&b)));
    assert(member_views(m@) =~= window_report(since as int, until as int)->Object_0);
    Json::object(m)
}

/// The error of runs that could not be read.
pub fn scan_failed(e: &str) -> (r: CliError)
    ensures
        r@ == ErrorView::Internal("scan runs: "@ + e@),
{
    CliError::Internal(crate::errors::prefixed("scan runs: ", e))
}

} // verus!
