//! `knack runs diff`: two versions of a skill side by side.

use vstd::prelude::*;

use crate::commands::runs::list::{number_or_dash, opt_u64};
use crate::commands::runs::stats::{
    ends_day, notes_text, percentiles, push_notes, starts_day, RatedBucket, StatsQuery,
};
use crate::commands::runs::{day_text, naive_to_utc, show_day, window_json, window_report};
use crate::errors::{user_error_hint, CliError, ErrorView};
use crate::github::aggregate::{bucket_version, version_of, NoteCount};
use crate::json::{
    copy, forms, json_list, member_views, nat_or_null, no_members, opt_nat, with_member, Json,
    JsonForm, JsonView,
};
use crate::numbers::{decimal, signed_decimal, u64_text};
use crate::order::viewed;
use crate::output::Told;
use crate::text::{
    concat3, concat7, pad_left, pad_right, padded_left, padded_right, push_line, same_opt, views,
};
use crate::time::in_calendar;

verus! {

/// The arguments of `knack runs diff`.
#[derive(Debug, Clone)]
pub struct DiffArgs {
    pub slug: String,
    /// What is compared with.
    pub version_a: String,
    /// What is compared.
    pub version_b: String,
    pub since: Option<String>,
    pub until: Option<String>,
}

/// The runs of a version.
#[derive(Debug)]
pub struct Bucket {
    pub version: String,
    /// There are such runs in the window.
    pub present: bool,
    pub total: u64,
    pub succeeded: u64,
    pub failed: u64,
    /// The rate of success, as it is reported and as people read it.
    pub rate: Json,
    pub rate_text: String,
    pub p50_ms: Option<u64>,
    pub p95_ms: Option<u64>,
    pub top_notes: Vec<NoteCount>,
}

/// The place of the first cohort of a version among the first ones from `i` on.
pub open spec fn place_of(version: Seq<char>, rows: Seq<RatedBucket>, i: int) -> Option<int>
    decreases rows.len() - i,
{
    if i >= rows.len() {
        None
    } else if version_of(rows[i].bucket@) == Some(version) {
        Some(i)
    } else {
        place_of(version, rows, i + 1)
    }
}

/// The notes of cohorts, with nothing else said of them.
pub open spec fn same_notes(a: Seq<NoteCount>, b: Seq<NoteCount>) -> bool {
    viewed(a) == viewed(b)
}

/// What there is to say of a version.
pub open spec fn is_bucket_of(b: Bucket, version: Seq<char>, rows: Seq<RatedBucket>) -> bool {
    b.version@ == version && match place_of(version, rows, 0) {
        Some(i) => {
            let x = rows[i];
            &&& b.present == (x.bucket.total > 0)
            &&& b.total == x.bucket.total
            &&& b.succeeded == x.bucket.succeeded
            &&& b.failed == x.bucket.failed
            &&& b.rate.value() == x.rate.value()
            &&& b.rate_text@ == x.rate_text@
            &&& b.p50_ms == x.bucket.p50_ms
            &&& b.p95_ms == x.bucket.p95_ms
            &&& same_notes(b.top_notes@, x.bucket.top_notes@)
        },
        None => {
            &&& !b.present
            &&& b.total == 0
            &&& b.succeeded == 0
            &&& b.failed == 0
            &&& b.rate.value() == JsonView::Null
            &&& b.rate_text@ == "-"@
            &&& b.p50_ms is None
            &&& b.p95_ms is None
            &&& b.top_notes@.len() == 0
        },
    }
}

fn copy_notes(v: &Vec<NoteCount>) -> (r: Vec<NoteCount>)
    ensures
        same_notes(r@, v@),
{
    let mut out: Vec<NoteCount> = Vec::new();
    let mut i: usize = 0;
    while i < v.len()
        invariant
            i <= v.len(),
            out@.len() == i,
            forall|j: int| 0 <= j < i ==> (#[trigger] out@[j])@ == v@[j]@,
        decreases v.len() - i,
    {
        out.push(NoteCount { note: v[i].note.clone(), count: v[i].count });
        i += 1;
    }
    assert(viewed(out@) =~= viewed(v@));
    out
}

/// What there is to say of a version.
pub fn bucket_from(version: &str, rows: &Vec<RatedBucket>) -> (r: Bucket)
    requires
        forall|i: int| 0 <= i < rows@.len() ==> (#[trigger] rows@[i]).bucket.key.wf(),
    ensures
        is_bucket_of(r, version@, rows@),
{
    let mut i: usize = 0;
    while i < rows.len()
        invariant
            i <= rows.len(),
            forall|i: int| 0 <= i < rows@.len() ==> (#[trigger] rows@[i]).bucket.key.wf(),
            place_of(version@, rows@, 0) == place_of(version@, rows@, i as int),
        decreases rows.len() - i,
    {
        if same_opt(bucket_version(&rows[i].bucket), Some(version)) {
            let b = &rows[i].bucket;
            return Bucket {
                version: version.to_owned(),
                present: b.total > 0,
                total: b.total,
                succeeded: b.succeeded,
                failed: b.failed,
                rate: copy(&rows[i].rate),
                rate_text: rows[i].rate_text.clone(),
                p50_ms: b.p50_ms,
                p95_ms: b.p95_ms,
                top_notes: copy_notes(&b.top_notes),
            };
        }
        i += 1;
    }
    Bucket {
        version: version.to_owned(),
        present: false,
        total: 0,
        succeeded: 0,
        failed: 0,
        rate: Json::Null,
        rate_text: "-".to_owned(),
        p50_ms: None,
        p95_ms: None,
        top_notes: Vec::new(),
    }
}

/// What the server is asked for.
pub fn diff_query(since: i64, until: i64) -> (r: StatsQuery)
    requires
        in_calendar(since as int),
        in_calendar(until as int),
    ensures
        crate::text::opt_view(r.group_by) == Some("version"@),
        views(r.durations@) == seq!["p50"@, "p95"@],
        starts_day(r.since, since as int),
        ends_day(r.until, until as int),
{
    StatsQuery {
        group_by: Some("version".to_owned()),
        durations: percentiles(),
        since: Some(naive_to_utc(since, false)),
        until: Some(naive_to_utc(until, true)),
    }
}

/// The error of a server that cannot group by version.
pub fn stats_unsupported() -> (r: CliError)
    ensures
        r@ == (ErrorView::User {
            code: "STATS_UNSUPPORTED"@,
            message: "server does not yet support per-version stats"@,
            hint: Some(
                "upgrade the API to a build that accepts `?group_by=version`, or use self-host mode where the CLI does the rollup locally"@,
            ),
        }),
{
    user_error_hint(
        "STATS_UNSUPPORTED",
        "server does not yet support per-version stats".to_owned(),
        "upgrade the API to a build that accepts `?group_by=version`, or use self-host mode where the CLI does the rollup locally",
    )
}

// ---------------------------------------------------------------------------
// The difference
// ---------------------------------------------------------------------------

/// How much more one number is than another, where both are there.
pub open spec fn more_by(a: Option<u64>, b: Option<u64>) -> Option<int> {
    match (a, b) {
        (Some(x), Some(y)) => Some(y - x),
        _ => None,
    }
}

/// A difference of durations as it is reported: a number with a decimal.
pub open spec fn decimal_json(n: Option<int>) -> JsonView {
    match n {
        Some(n) => JsonView::Float(signed_decimal(n) + ".0"@),
        None => JsonView::Null,
    }
}

/// What is reported of the difference between two versions: nothing where one of
/// them has no runs.
pub open spec fn delta_report(a: Bucket, b: Bucket, rate: JsonView) -> JsonView {
    if a.present && b.present {
        JsonView::Object(
            seq![
                ("success_rate"@, rate),
                ("p50_ms"@, decimal_json(more_by(a.p50_ms, b.p50_ms))),
                ("p95_ms"@, decimal_json(more_by(a.p95_ms, b.p95_ms))),
                ("runs_total"@, JsonView::Int(b.total - a.total)),
            ],
        )
    } else {
        JsonView::Null
    }
}

/// How many runs there are fits a number of 64 bits with a sign.
pub open spec fn fits_signed(b: Bucket) -> bool {
    b.total <= i64::MAX
}

fn difference_text(a: u64, b: u64) -> (r: String)
    ensures
        r@ == signed_decimal(b - a),
{
    if b >= a {
        u64_text(b - a)
    } else {
        let s = u64_text(a - b);
        proof {
            reveal_strlit("-");
            assert("-"@ =~= seq!['-']);
        }
        crate::errors::prefixed("-", s.as_str())
    }
}

fn decimal_difference(a: Option<u64>, b: Option<u64>) -> (r: Json)
    ensures
        r.value() == decimal_json(more_by(a, b)),
{
    match (a, b) {
        (Some(x), Some(y)) => {
            let mut s = difference_text(x, y);
            s.append(".0");
            Json::Float(s)
        },
        _ => Json::Null,
    }
}

fn delta_json(a: &Bucket, b: &Bucket, rate: Json) -> (r: Json)
    requires
        fits_signed(*a),
        fits_signed(*b),
    ensures
        r.value() == delta_report(*a, *b, rate.value()),
{
    if a.present && b.present {
        let ghost v = rate.value();
        let total: i64 = b.total as i64 - a.total as i64;
        let m = with_member(no_members(), "success_rate", rate);
        let m = with_member(m, "p50_ms", decimal_difference(a.p50_ms, b.p50_ms));
        let m = with_member(m, "p95_ms", decimal_difference(a.p95_ms, b.p95_ms));
        let m = with_member(
            m,
            "runs_total",
            if total >= 0 {
                Json::Nat(total as u64)
            } else {
                Json::Neg(total)
            },
        );
        assert(member_views(m@) =~= delta_report(*a, *b, v)->Object_0);
        Json::object(m)
    } else {
        Json::Null
    }
}

impl JsonForm for Bucket {
    open spec fn json(&self) -> JsonView {
        JsonView::Object(
            seq![
                ("version"@, JsonView::Text(self.version@)),
                ("present"@, JsonView::Bool(self.present)),
                ("runs_total"@, JsonView::Int(self.total as int)),
                ("runs_succeeded"@, JsonView::Int(self.succeeded as int)),
                ("runs_failed"@, JsonView::Int(self.failed as int)),
                ("success_rate"@, self.rate.value()),
                ("p50_ms"@, nat_or_null(self.p50_ms)),
                ("p95_ms"@, nat_or_null(self.p95_ms)),
                ("top_notes"@, JsonView::Array(forms(self.top_notes@))),
            ],
        )
    }

    fn to_json(&self) -> (r: Json) {
        let m = with_member(no_members(), "version", Json::text(self.version.as_str()));
        let m = with_member(m, "present", Json::Bool(self.present));
        let m = with_member(m, "runs_total", Json::Nat(self.total));
        let m = with_member(m, "runs_succeeded", Json::Nat(self.succeeded));
        let m = with_member(m, "runs_failed", Json::Nat(self.failed));
        let m = with_member(m, "success_rate", copy(&self.rate));
        let m = with_member(m, "p50_ms", opt_nat(self.p50_ms));
        let m = with_member(m, "p95_ms", opt_nat(self.p95_ms));
        let m = with_member(m, "top_notes", json_list(&self.top_notes));
        assert(member_views(m@) =~= self.json()->Object_0);
        Json::object(m)
    }
}

/// What is reported of two versions.
pub open spec fn diff_report(
    slug: Seq<char>,
    a: Bucket,
    b: Bucket,
    rate: JsonView,
    since: int,
    until: int,
) -> JsonView {
    JsonView::Object(
        seq![
            ("slug"@, JsonView::Text(slug)),
            ("window"@, window_report(since, until)),
            ("a"@, a.json()),
            ("b"@, b.json()),
            ("delta"@, delta_report(a, b, rate)),
        ],
    )
}

/// The line of a comparison.
pub open spec fn diff_row(
    label: Seq<char>,
    a: Seq<char>,
    b: Seq<char>,
    delta: Seq<char>,
) -> Seq<char> {
    padded_right(label, 14) + " "@ + padded_left(a, 12) + " "@ + padded_left(b, 12) + " "@
        + padded_left(delta, 12)
}

fn row(label: &str, a: &str, b: &str, delta: &str) -> (r: String)
    ensures
        r@ == diff_row(label@, a@, b@, delta@),
{
    let label = pad_right(label, 14);
    let a = pad_left(a, 12);
    let b = pad_left(b, 12);
    let delta = pad_left(delta, 12);
    concat7(label.as_str(), " ", a.as_str(), " ", b.as_str(), " ", delta.as_str())
}

/// A difference with its sign, where it is more than nothing too.
pub open spec fn plus_minus(n: int) -> Seq<char> {
    if n > 0 {
        "+"@ + signed_decimal(n)
    } else {
        signed_decimal(n)
    }
}

fn signed(a: u64, b: u64) -> (r: String)
    ensures
        r@ == plus_minus(b - a),
{
    let s = difference_text(a, b);
    if b > a {
        crate::errors::prefixed("+", s.as_str())
    } else {
        s
    }
}

/// The line of two numbers.
pub open spec fn count_row(label: Seq<char>, a: nat, b: nat) -> Seq<char> {
    diff_row(label, decimal(a), decimal(b), plus_minus(b - a))
}

fn show_counts(label: &str, a: u64, b: u64) -> (r: String)
    ensures
        r@ == count_row(label@, a as nat, b as nat),
{
    let x = u64_text(a);
    let y = u64_text(b);
    let d = signed(a, b);
    row(label, x.as_str(), y.as_str(), d.as_str())
}

/// The line of two numbers that may not be there.
pub open spec fn maybe_row(label: Seq<char>, a: Option<u64>, b: Option<u64>) -> Seq<char> {
    diff_row(
        label,
        number_or_dash(a),
        number_or_dash(b),
        match more_by(a, b) {
            Some(n) => plus_minus(n),
            None => "-"@,
        },
    )
}

fn show_maybe(label: &str, a: Option<u64>, b: Option<u64>) -> (r: String)
    ensures
        r@ == maybe_row(label@, a, b),
{
    let x = opt_u64(a);
    let y = opt_u64(b);
    let d = match (a, b) {
        (Some(p), Some(q)) => signed(p, q),
        _ => "-".to_owned(),
    };
    row(label, x.as_str(), y.as_str(), d.as_str())
}

/// What people are told where a version has no runs.
pub open spec fn absence(version: Seq<char>) -> Seq<char> {
    "note: no runs for `"@ + version + "` in this window"@
}

/// The table of two versions that both have runs.
pub open spec fn diff_table(a: Bucket, b: Bucket, rate_delta: Seq<char>) -> Seq<Seq<char>> {
    seq![
        diff_row("metric"@, a.version@, b.version@, "Δ"@),
        "------------------------------------------------------"@,
        count_row("total"@, a.total as nat, b.total as nat),
        count_row("succeeded"@, a.succeeded as nat, b.succeeded as nat),
        count_row("failed"@, a.failed as nat, b.failed as nat),
        diff_row("success rate"@, a.rate_text@, b.rate_text@, rate_delta),
        maybe_row("p50 (ms)"@, a.p50_ms, b.p50_ms),
        maybe_row("p95 (ms)"@, a.p95_ms, b.p95_ms),
    ] + notes_text(a.version@, viewed(a.top_notes@)) + notes_text(
        b.version@,
        viewed(b.top_notes@),
    )
}

/// What people are told of two versions: no table where one of them has no runs.
pub open spec fn diff_text(
    slug: Seq<char>,
    a: Bucket,
    b: Bucket,
    rate_delta: Seq<char>,
    since: int,
    until: int,
) -> Seq<Seq<char>> {
    let head = seq![
        "diff `"@ + slug + "`  "@ + a.version@ + " → "@ + b.version@ + "  ("@ + day_text(since)
            + " → "@ + day_text(until) + ")"@,
        ""@,
    ];
    if a.present && b.present {
        head + diff_table(a, b, rate_delta)
    } else {
        let one = if a.present {
            head
        } else {
            head.push(absence(a.version@))
        };
        if b.present {
            one
        } else {
            one.push(absence(b.version@))
        }
    }
}

fn push_table(out: &mut Vec<String>, a: &Bucket, b: &Bucket, rate_delta: &str)
    ensures
        views(final(out)@) == views(old(out)@) + diff_table(*a, *b, rate_delta@),
{
    let ghost start = views(out@);
    push_line(out, row("metric", a.version.as_str(), b.version.as_str(), "Δ"));
    push_line(out, "------------------------------------------------------".to_owned());
    push_line(out, show_counts("total", a.total, b.total));
    push_line(out, show_counts("succeeded", a.succeeded, b.succeeded));
    push_line(out, show_counts("failed", a.failed, b.failed));
    push_line(out, row("success rate", a.rate_text.as_str(), b.rate_text.as_str(), rate_delta));
    push_line(out, show_maybe("p50 (ms)", a.p50_ms, b.p50_ms));
    push_line(out, show_maybe("p95 (ms)", a.p95_ms, b.p95_ms));
    push_notes(out, a.version.as_str(), &a.top_notes);
    push_notes(out, b.version.as_str(), &b.top_notes);
    assert(views(out@) =~= start + diff_table(*a, *b, rate_delta@));
}

/// Tells people of two versions.
pub fn render_human(
    slug: &str,
    a: &Bucket,
    b: &Bucket,
    rate_delta: &str,
    since: i64,
    until: i64,
) -> (r: Vec<String>)
    ensures
        views(r@) == diff_text(slug@, *a, *b, rate_delta@, since as int, until as int),
{
    let mut out: Vec<String> = Vec::new();
    assert(views(out@) =~= seq![]);
    let x = show_day(since);
    let y = show_day(until);
    let mut title = concat7(
        "diff `",
        slug,
        "`  ",
        a.version.as_str(),
        " → ",
        b.version.as_str(),
        "  (",
    );
    title.append(x.as_str());
    title.append(" → ");
    title.append(y.as_str());
    title.append(")");
    push_line(&mut out, title);
    push_line(&mut out, "".to_owned());
    if !a.present {
        push_line(&mut out, concat3("note: no runs for `", a.version.as_str(), "` in this window"));
    }
    if !b.present {
        push_line(&mut out, concat3("note: no runs for `", b.version.as_str(), "` in this window"));
    }
    if a.present && b.present {
        push_table(&mut out, a, b, rate_delta);
    }
    assert(views(out@) =~= diff_text(slug@, *a, *b, rate_delta@, since as int, until as int));
    out
}

/// Tells of two versions, where the difference of their rates is given as it is
/// reported and as people read it.
pub fn diff_told(
    slug: &str,
    a: &Bucket,
    b: &Bucket,
    rate: Json,
    rate_delta: &str,
    since: i64,
    until: i64,
) -> (r: Told)
    requires
        fits_signed(*a),
        fits_signed(*b),
    ensures
        r.report.value() == diff_report(
            slug@,
            *a,
            *b,
            rate.value(),
            since as int,
            until as int,
        ),
        views(r.lines@) == diff_text(slug@, *a, *b, rate_delta@, since as int, until as int),
{
    let ghost v = rate.value();
    let m = with_member(no_members(), "slug", Json::text(slug));
    let m = with_member(m, "window", window_json(since, until));
    let m = with_member(m, "a", a.to_json());
    let m = with_member(m, "b", b.to_json());
    let m = with_member(m, "delta", delta_json(a, b, rate));
    assert(member_views(m@) =~= diff_report(slug@, *a, *b, v, since as int, until as int)->Object_0);
    Told { report: Json::object(m), lines: render_human(slug, a, b, rate_delta, since, until) }
}

/// A version without runs is never compared: there is no difference to report.
pub proof fn law_no_delta_without_runs(a: Bucket, b: Bucket, rate: JsonView)
    ensures
        delta_report(a, b, rate) is Null <==> !(a.present && b.present),
{
}

} // verus!
