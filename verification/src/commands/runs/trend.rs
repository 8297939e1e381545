//! `knack runs trend`: how the runs of a skill went over time.
//!
//! Every slice of the window is told of, also one without runs.

use vstd::prelude::*;

use crate::commands::runs::stats::{
    ends_day, key_label, label_of, parse_dimensions, percentiles, starts_day, RatedBucket,
};
use crate::commands::runs::{day_text, naive_to_utc, show_day, window_json, window_report};
use crate::errors::{user_error_hint, CliError, ErrorView};
use crate::github::aggregate::{
    group_time_buckets, key_contents, keyed, series, TrendInterval, TrendPoint,
};
use crate::github::runs::RunSnapshot;
use crate::json::{
    forms, json_list, member_views, no_members, text_or_null, text_values, with_member, Json,
    JsonForm, JsonView,
};
use crate::numbers::{decimal, u64_text};
use crate::order::{viewed, TextMap};
use crate::output::Told;
use crate::slug::{parse_slug_at_version, slug_parts};
use crate::text::{
    concat4, concat7, join_strings, joined, opt_str, opt_view, pad_left, pad_right, padded_left,
    padded_right, push_line, slices, views,
};
use crate::time::{date_rendered, in_calendar, render_date, Timestamp};

verus! {

/// The arguments of `knack runs trend`.
#[derive(Debug, Clone)]
pub struct TrendArgs {
    pub slug: String,
    /// `day` or `week`.
    pub interval: String,
    /// What the runs of a slice are grouped by.
    pub group_by: Option<String>,
    pub since: Option<String>,
    pub until: Option<String>,
}

/// The interval that a text names.
pub fn interval_of(s: &str) -> (r: Result<TrendInterval, CliError>)
    ensures
        match crate::github::aggregate::interval_named(s@) {
            Some(i) => r == Ok::<TrendInterval, CliError>(i),
            None => r is Err && r->Err_0@ == (ErrorView::User {
                code: "BAD_INTERVAL"@,
                message: "unknown interval `"@ + s@ + "` (try: day, week)"@,
                hint: Some("supported: day, week"@),
            }),
        },
{
    match TrendInterval::from_str(s) {
        Ok(i) => Ok(i),
        Err(e) => Err(user_error_hint("BAD_INTERVAL", e, "supported: day, week")),
    }
}

/// What the runs of a slice are grouped by: nothing where nothing is said.
pub fn dimensions(group_by: Option<&str>) -> (r: Result<Vec<String>, CliError>)
    ensures
        match group_by {
            Some(raw) => match crate::commands::runs::stats::dimensions_of(raw@) {
                Ok(d) => r is Ok && views(r->Ok_0@) == d,
                Err(e) => r is Err && r->Err_0@ == (ErrorView::User {
                    code: "BAD_GROUP_BY"@,
                    message: e,
                    hint: Some("dimensions: version, agent"@),
                }),
            },
            None => r is Ok && r->Ok_0@.len() == 0,
        },
{
    match group_by {
        Some(raw) => match parse_dimensions(raw) {
            Ok(d) => Ok(d),
            Err(e) => Err(crate::commands::runs::stats::bad_group_by(e)),
        },
        None => Ok(Vec::new()),
    }
}

/// What an interval is called.
pub open spec fn interval_name(i: TrendInterval) -> Seq<char> {
    match i {
        TrendInterval::Day => "day"@,
        TrendInterval::Week => "week"@,
    }
}

/// What an interval is called.
pub fn interval_str(i: TrendInterval) -> (r: &'static str)
    ensures
        r@ == interval_name(i),
{
    match i {
        TrendInterval::Day => "day",
        TrendInterval::Week => "week",
    }
}

/// An interval is read back from what it is called.
pub proof fn law_interval_name_reads_back(i: TrendInterval)
    ensures
        crate::github::aggregate::interval_named(interval_name(i)) == Some(i),
{
    reveal_strlit("day");
    reveal_strlit("daily");
    reveal_strlit("d");
    reveal_strlit("week");
    assert("week"@[0] == 'w');
    assert("day"@[0] == 'd' && "daily"@[0] == 'd' && "d"@[0] == 'd');
}

/// The slices of a repository's runs.
pub fn github_series(
    dims: &Vec<String>,
    interval: TrendInterval,
    runs: &Vec<RunSnapshot>,
    since: i64,
    until: i64,
) -> (r: Vec<TrendPoint>)
    requires
        in_calendar(since as int),
        in_calendar(until as int),
    ensures
        viewed(r@) == series(
            viewed(runs@),
            interval,
            views(dims@),
            since as int,
            until as int,
        ),
        forall|i: int| 0 <= i < r@.len() ==> keyed((#[trigger] r@[i]).buckets@),
{
    let names = slices(dims);
    group_time_buckets(runs, interval, names.as_slice(), since, until)
}

/// What the server is asked for.
#[derive(Debug)]
pub struct TrendQuery {
    pub interval: String,
    pub group_by: Option<String>,
    pub durations: Vec<String>,
    pub since: Option<Timestamp>,
    pub until: Option<Timestamp>,
}

/// What the server is asked for.
pub fn trend_query(interval: &str, dims: &Vec<String>, since: i64, until: i64) -> (r: TrendQuery)
    requires
        in_calendar(since as int),
        in_calendar(until as int),
    ensures
        r.interval@ == interval@,
        opt_view(r.group_by) == (if dims@.len() == 0 {
            None
        } else {
            Some(joined(views(dims@), ","@))
        }),
        views(r.durations@) == seq!["p50"@, "p95"@],
        starts_day(r.since, since as int),
        ends_day(r.until, until as int),
{
    TrendQuery {
        interval: interval.to_owned(),
        group_by: if dims.len() == 0 {
            None
        } else {
            Some(join_strings(dims, ","))
        },
        durations: percentiles(),
        since: Some(naive_to_utc(since, false)),
        until: Some(naive_to_utc(until, true)),
    }
}

// ---------------------------------------------------------------------------
// What is told of slices
// ---------------------------------------------------------------------------

/// A slice of time, with the rates of its cohorts as they are written.
#[derive(Debug)]
pub struct RatedPoint {
    pub bucket_start: i64,
    pub bucket_end: i64,
    pub buckets: Vec<RatedBucket>,
}

impl JsonForm for RatedPoint {
    open spec fn json(&self) -> JsonView {
        JsonView::Object(
            seq![
                ("bucket_start"@, text_or_null(date_rendered(self.bucket_start as int))),
                ("bucket_end"@, text_or_null(date_rendered(self.bucket_end as int))),
                ("buckets"@, JsonView::Array(forms(self.buckets@))),
            ],
        )
    }

    fn to_json(&self) -> (r: Json) {
        let a = render_date(self.bucket_start);
        let b = render_date(self.bucket_end);
        let m = with_member(no_members(), "bucket_start", Json::opt_text(opt_str(&a)));
        let m = with_member(m, "bucket_end", Json::opt_text(opt_str(&b)));
        let m = with_member(m, "buckets", json_list(&self.buckets));
        assert(member_views(m@) =~= self.json()->Object_0);
        Json::object(m)
    }
}

/// What is reported of slices.
pub open spec fn trend_report(
    backend: Seq<char>,
    slug: Seq<char>,
    interval: Seq<char>,
    dims: Seq<Seq<char>>,
    points: Seq<RatedPoint>,
    since: int,
    until: int,
) -> JsonView {
    JsonView::Object(
        seq![
            ("backend"@, JsonView::Text(backend)),
            ("slug"@, JsonView::Text(slug)),
            ("interval"@, JsonView::Text(interval)),
            ("dimensions"@, JsonView::Array(text_values(dims))),
            ("window"@, window_report(since, until)),
            ("series"@, JsonView::Array(forms(points))),
        ],
    )
}

/// What a cohort of a slice is called.
pub open spec fn cohort_label(dims: Seq<Seq<char>>, key: Map<Seq<char>, Option<Seq<char>>>) -> Seq<
    char,
> {
    if dims.len() == 0 {
        "(all)"@
    } else {
        label_of(dims, key)
    }
}

/// What a cohort of a slice is called.
pub fn cohort(dims: &Vec<String>, key: &TextMap<Option<String>>) -> (r: String)
    requires
        key.wf(),
    ensures
        r@ == cohort_label(views(dims@), key_contents(*key)),
{
    assert(views(dims@).len() == dims@.len());
    if dims.len() == 0 {
        "(all)".to_owned()
    } else {
        key_label(dims, key)
    }
}

/// The line of a table of slices. Only the heading of the first column is padded:
/// a day has its width.
pub open spec fn trend_row(
    date: Seq<char>,
    cohort: Seq<char>,
    total: Seq<char>,
    ok: Seq<char>,
    fail: Seq<char>,
    rate: Seq<char>,
) -> Seq<char> {
    date + " "@ + padded_right(cohort, 24) + " "@ + padded_left(total, 5) + " "@ + padded_left(ok, 5)
        + " "@ + padded_left(fail, 5) + " "@ + padded_left(rate, 8)
}

fn row(date: &str, cohort: &str, total: &str, ok: &str, fail: &str, rate: &str) -> (r: String)
    ensures
        r@ == trend_row(date@, cohort@, total@, ok@, fail@, rate@),
{
    let cohort = pad_right(cohort, 24);
    let total = pad_left(total, 5);
    let ok = pad_left(ok, 5);
    let fail = pad_left(fail, 5);
    let rate = pad_left(rate, 8);
    let mut r = concat7(date, " ", cohort.as_str(), " ", total.as_str(), " ", ok.as_str());
    r.append(" ");
    r.append(fail.as_str());
    r.append(" ");
    r.append(rate.as_str());
    r
}

/// The line of a cohort of a slice.
pub open spec fn cohort_row(dims: Seq<Seq<char>>, start: int, b: RatedBucket) -> Seq<char> {
    trend_row(
        day_text(start),
        cohort_label(dims, key_contents(b.bucket.key)),
        decimal(b.bucket.total as nat),
        decimal(b.bucket.succeeded as nat),
        decimal(b.bucket.failed as nat),
        b.rate_text@,
    )
}

/// What people are told of a slice.
pub open spec fn point_text(dims: Seq<Seq<char>>, p: RatedPoint) -> Seq<Seq<char>> {
    if p.buckets@.len() == 0 {
        seq![
            trend_row(day_text(p.bucket_start as int), "(no runs)"@, "0"@, "0"@, "0"@, "-"@),
        ]
    } else {
        Seq::new(
            p.buckets@.len(),
            |i: int| cohort_row(dims, p.bucket_start as int, p.buckets@[i]),
        )
    }
}

/// The keys of a slice's cohorts are in order.
pub open spec fn point_keyed(p: RatedPoint) -> bool {
    forall|i: int| 0 <= i < p.buckets@.len() ==> (#[trigger] p.buckets@[i]).bucket.key.wf()
}

fn push_point(out: &mut Vec<String>, dims: &Vec<String>, p: &RatedPoint)
    requires
        point_keyed(*p),
    ensures
        views(final(out)@) == views(old(out)@) + point_text(views(dims@), *p),
{
    let ghost start = views(out@);
    let ghost d = views(dims@);
    let day = show_day(p.bucket_start);
    if p.buckets.len() == 0 {
        push_line(out, row(day.as_str(), "(no runs)", "0", "0", "0", "-"));
        assert(views(out@) =~= start + point_text(d, *p));
        return;
    }
    let mut i: usize = 0;
    assert(views(out@) =~= start + Seq::new(
        0,
        |j: int| cohort_row(d, p.bucket_start as int, p.buckets@[j]),
    ));
    while i < p.buckets.len()
        invariant
            i <= p.buckets.len(),
            d == views(dims@),
            day@ == day_text(p.bucket_start as int),
            point_keyed(*p),
            views(out@) == start + Seq::new(
                i as nat,
                |j: int| cohort_row(d, p.bucket_start as int, p.buckets@[j]),
            ),
        decreases p.buckets.len() - i,
    {
        let b = &p.buckets[i];
        let label = cohort(dims, &b.bucket.key);
        let total = u64_text(b.bucket.total);
        let ok = u64_text(b.bucket.succeeded);
        let fail = u64_text(b.bucket.failed);
        push_line(
            out,
            row(
                day.as_str(),
                label.as_str(),
                total.as_str(),
                ok.as_str(),
                fail.as_str(),
                b.rate_text.as_str(),
            ),
        );
        i += 1;
        assert(views(out@) =~= start + Seq::new(
            i as nat,
            |j: int| cohort_row(d, p.bucket_start as int, p.buckets@[j]),
        ));
    }
    assert(views(out@) =~= start + point_text(d, *p));
}

/// What people are told of the first `n` slices.
pub open spec fn points_text(
    dims: Seq<Seq<char>>,
    points: Seq<RatedPoint>,
    n: int,
) -> Seq<Seq<char>>
    decreases n,
{
    if n <= 0 {
        seq![]
    } else {
        points_text(dims, points, n - 1) + point_text(dims, points[n - 1])
    }
}

/// What people are told of slices.
pub open spec fn trend_text(
    slug: Seq<char>,
    interval: Seq<char>,
    dims: Seq<Seq<char>>,
    points: Seq<RatedPoint>,
) -> Seq<Seq<char>> {
    seq![
        "trend `"@ + slug + "`  interval="@ + interval,
        ""@,
        trend_row(padded_right("date"@, 12), "cohort"@, "total"@, "ok"@, "fail"@, "rate"@),
    ] + points_text(dims, points, points.len() as int)
}

/// Tells people of slices.
pub fn render_series(
    slug: &str,
    interval: &str,
    dims: &Vec<String>,
    points: &Vec<RatedPoint>,
) -> (r: Vec<String>)
    requires
        forall|i: int| 0 <= i < points@.len() ==> point_keyed(#[trigger] points@[i]),
    ensures
        views(r@) == trend_text(slug@, interval@, views(dims@), points@),
{
    let ghost d = views(dims@);
    let mut out: Vec<String> = Vec::new();
    assert(views(out@) =~= seq![]);
    push_line(&mut out, concat4("trend `", slug, "`  interval=", interval));
    push_line(&mut out, "".to_owned());
    let date = pad_right("date", 12);
    push_line(&mut out, row(date.as_str(), "cohort", "total", "ok", "fail", "rate"));
    let ghost start = views(out@);
    let mut i: usize = 0;
    assert(start + points_text(d, points@, 0) =~= start);
    while i < points.len()
        invariant
            i <= points.len(),
            d == views(dims@),
            forall|i: int| 0 <= i < points@.len() ==> point_keyed(#[trigger] points@[i]),
            views(out@) == start + points_text(d, points@, i as int),
        decreases points.len() - i,
    {
        push_point(&mut out, dims, &points[i]);
        i += 1;
        assert(views(out@) =~= start + points_text(d, points@, i as int));
    }
    assert(views(out@) =~= trend_text(slug@, interval@, d, points@));
    out
}

/// Tells of slices.
pub fn trend_told(
    backend: &str,
    slug: &str,
    interval: &str,
    dims: &Vec<String>,
    points: &Vec<RatedPoint>,
    since: i64,
    until: i64,
) -> (r: Told)
    requires
        forall|i: int| 0 <= i < points@.len() ==> point_keyed(#[trigger] points@[i]),
    ensures
        r.report.value() == trend_report(
            backend@,
            slug_parts(slug@).0,
            interval@,
            views(dims@),
            points@,
            since as int,
            until as int,
        ),
        views(r.lines@) == trend_text(slug_parts(slug@).0, interval@, views(dims@), points@),
{
    let (name, _) = parse_slug_at_version(slug);
    let m = with_member(no_members(), "backend", Json::text(backend));
    let m = with_member(m, "slug", Json::text(name));
    let m = with_member(m, "interval", Json::text(interval));
    let m = with_member(m, "dimensions", Json::texts(dims));
    let m = with_member(m, "window", window_json(since, until));
    let m = with_member(m, "series", json_list(points));
    assert(member_views(m@) =~= trend_report(
        backend@,
        slug_parts(slug@).0,
        interval@,
        views(dims@),
        points@,
        since as int,
        until as int,
    )->Object_0);
    Told { report: Json::object(m), lines: render_series(name, interval, dims, points) }
}

/// There is a line for every slice, also for one without runs.
pub proof fn law_every_slice_is_told_of(dims: Seq<Seq<char>>, points: Seq<RatedPoint>, n: int)
    requires
        0 <= n <= points.len(),
    ensures
        points_text(dims, points, n).len() >= n,
    decreases n,
{
    if n > 0 {
        law_every_slice_is_told_of(dims, points, n - 1);
    }
}

} // verus!
