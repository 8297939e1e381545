//! `knack runs stats`: the runs of a skill, by version, by agent or by both.

use vstd::prelude::*;

use crate::commands::mark::{moment, moment_json};
use crate::commands::runs::list::{number_or_dash, opt_u64};
use crate::commands::runs::{day_text, naive_to_utc, show_day, window_json, window_report};
use crate::errors::{prefixed, user_error_hint, CliError, ErrorView};
use crate::github::aggregate::{group_buckets, grouped, key_contents, NoteCount, StatsBucket};
use crate::github::runs::RunSnapshot;
use crate::json::{
    copy, forms, json_list, member_views, nat_or_null, no_members, opt_nat, text_or_null,
    text_values, with_member, Json, JsonForm, JsonView,
};
use crate::numbers::{decimal, u64_text};
use crate::order::{viewed, TextMap};
use crate::output::Told;
use crate::slug::{parse_slug_at_version, slug_parts};
use crate::text::{
    concat3, concat5, concat7, join_strings, joined, opt_str, opt_view, pad_left, pad_right,
    padded_left, padded_right, pieces, push_line, same, slice_views, slices, split, trim, trimmed,
    views,
};
use crate::time::{day_of, in_calendar, second_of_day, Timestamp};

verus! {

/// The arguments of `knack runs stats`.
#[derive(Debug, Clone)]
pub struct StatsArgs {
    pub slug: String,
    /// What runs are grouped by, with commas between the dimensions.
    pub group_by: String,
    pub since: Option<String>,
    pub until: Option<String>,
}

// ---------------------------------------------------------------------------
// Dimensions
// ---------------------------------------------------------------------------

/// Runs can be grouped by this.
pub open spec fn is_dimension(s: Seq<char>) -> bool {
    s == "version"@ || s == "agent"@
}

/// The dimensions among the first `n` pieces, each once, or the first piece that is
/// none. Blank pieces say nothing.
pub open spec fn dimensions_in(s: Seq<Seq<char>>, n: int) -> Result<Seq<Seq<char>>, Seq<char>>
    decreases n,
{
    if n <= 0 {
        Ok(seq![])
    } else {
        match dimensions_in(s, n - 1) {
            Ok(d) => {
                let t = trimmed(s[n - 1]);
                if t.len() == 0 {
                    Ok(d)
                } else if !is_dimension(t) {
                    Err(t)
                } else if d.contains(t) {
                    Ok(d)
                } else {
                    Ok(d.push(t))
                }
            },
            Err(bad) => Err(bad),
        }
    }
}

/// What a text says runs are grouped by.
pub open spec fn dimensions_of(s: Seq<char>) -> Result<Seq<Seq<char>>, Seq<char>> {
    match dimensions_in(pieces(s, ","@), pieces(s, ","@).len() as int) {
        Ok(d) => if d.len() == 0 {
            Err("at least one dimension required"@)
        } else {
            Ok(d)
        },
        Err(bad) => Err("unknown dimension `"@ + bad + "` (try: version, agent)"@),
    }
}

fn holds(v: &Vec<String>, s: &str) -> (r: bool)
    ensures
        r == views(v@).contains(s@),
{
    let mut i: usize = 0;
    while i < v.len()
        invariant
            i <= v.len(),
            forall|j: int| 0 <= j < i ==> (#[trigger] v@[j])@ != s@,
        decreases v.len() - i,
    {
        if same(v[i].as_str(), s) {
            assert(views(v@)[i as int] == s@);
            return true;
        }
        i += 1;
    }
    assert forall|j: int| 0 <= j < views(v@).len() implies views(v@)[j] != s@ by {
        assert(v@[j]@ != s@);
    }
    false
}

proof fn lemma_error_stays(s: Seq<Seq<char>>, i: int, n: int)
    requires
        0 <= i <= n,
        dimensions_in(s, i) is Err,
    ensures
        dimensions_in(s, n) == dimensions_in(s, i),
    decreases n - i,
{
    if i < n {
        lemma_error_stays(s, i, n - 1);
    }
}

/// What a text says runs are grouped by.
pub fn parse_dimensions(raw: &str) -> (r: Result<Vec<String>, String>)
    ensures
        match r {
            Ok(d) => dimensions_of(raw@) == Ok::<Seq<Seq<char>>, Seq<char>>(views(d@)),
            Err(e) => dimensions_of(raw@) == Err::<Seq<Seq<char>>, Seq<char>>(e@),
        },
{
    proof {
        reveal_strlit(",");
    }
    let parts = split(raw, ",");
    let ghost p = pieces(raw@, ","@);
    let mut out: Vec<String> = Vec::new();
    let mut i: usize = 0;
    assert(views(out@) =~= seq![]);
    assert(slice_views(parts@).len() == parts@.len());
    while i < parts.len()
        invariant
            i <= parts.len(),
            p == slice_views(parts@),
            p == pieces(raw@, ","@),
            p.len() == parts@.len(),
            dimensions_in(p, i as int) == Ok::<Seq<Seq<char>>, Seq<char>>(views(out@)),
        decreases parts.len() - i,
    {
        assert(p[i as int] == parts@[i as int]@);
        let t = trim(parts[i]);
        if !t.is_empty() {
            if !same(t, "version") && !same(t, "agent") {
                proof {
                    lemma_error_stays(p, i + 1, p.len() as int);
                }
                return Err(concat3("unknown dimension `", t, "` (try: version, agent)"));
            }
            if !holds(&out, t) {
                let ghost was = views(out@);
                out.push(t.to_owned());
                assert(views(out@) =~= was.push(t@));
            }
        }
        i += 1;
    }
    assert(views(out@).len() == out@.len());
    if out.len() == 0 {
        return Err("at least one dimension required".to_owned());
    }
    Ok(out)
}

/// No dimension is named twice, and all are known.
pub proof fn law_dimensions_are_distinct(s: Seq<Seq<char>>, n: int)
    requires
        dimensions_in(s, n) is Ok,
    ensures
        dimensions_in(s, n)->Ok_0.no_duplicates(),
        forall|i: int|
            0 <= i < dimensions_in(s, n)->Ok_0.len() ==> is_dimension(
                #[trigger] dimensions_in(s, n)->Ok_0[i],
            ),
    decreases n,
{
    if n > 0 {
        law_dimensions_are_distinct(s, n - 1);
    }
}

/// The error of dimensions that cannot be read.
pub fn bad_group_by(e: String) -> (r: CliError)
    ensures
        r@ == (ErrorView::User {
            code: "BAD_GROUP_BY"@,
            message: e@,
            hint: Some("dimensions: version, agent"@),
        }),
{
    user_error_hint("BAD_GROUP_BY", e, "dimensions: version, agent")
}

/// The part of a label that one dimension gives.
pub open spec fn label_part(key: Map<Seq<char>, Option<Seq<char>>>, dim: Seq<char>) -> Seq<char> {
    if key.dom().contains(dim) && key[dim] is Some {
        key[dim]->0
    } else {
        "-"@
    }
}

/// What a cohort is called: what its runs have in common, in the order of the
/// dimensions.
pub open spec fn label_of(dims: Seq<Seq<char>>, key: Map<Seq<char>, Option<Seq<char>>>) -> Seq<
    char,
> {
    joined(Seq::new(dims.len(), |i: int| label_part(key, dims[i])), "/"@)
}

/// What a cohort is called.
pub fn key_label(dims: &Vec<String>, key: &TextMap<Option<String>>) -> (r: String)
    requires
        key.wf(),
    ensures
        r@ == label_of(views(dims@), key_contents(*key)),
{
    let mut parts: Vec<String> = Vec::new();
    let mut i: usize = 0;
    while i < dims.len()
        invariant
            i <= dims.len(),
            key.wf(),
            parts@.len() == i,
            forall|j: int|
                0 <= j < i ==> (#[trigger] parts@[j])@ == label_part(
                    key_contents(*key),
                    dims@[j]@,
                ),
        decreases dims.len() - i,
    {
        let part = match key.get(dims[i].as_str()) {
            Some(v) => match v {
                Some(s) => s.clone(),
                None => "-".to_owned(),
            },
            None => "-".to_owned(),
        };
        parts.push(part);
        i += 1;
    }
    assert(views(parts@) =~= Seq::new(
        views(dims@).len(),
        |j: int| label_part(key_contents(*key), views(dims@)[j]),
    ));
    join_strings(&parts, "/")
}

// ---------------------------------------------------------------------------
// Cohorts
// ---------------------------------------------------------------------------

impl JsonForm for NoteCount {
    open spec fn json(&self) -> JsonView {
        JsonView::Object(
            seq![
                ("note"@, JsonView::Text(self.note@)),
                ("count"@, JsonView::Int(self.count as int)),
            ],
        )
    }

    fn to_json(&self) -> (r: Json) {
        let m = with_member(no_members(), "note", Json::text(self.note.as_str()));
        let m = with_member(m, "count", Json::Nat(self.count));
        assert(member_views(m@) =~= self.json()->Object_0);
        Json::object(m)
    }
}

/// A cohort with its rate of success as it is written: in a report, and for people.
#[derive(Debug)]
pub struct RatedBucket {
    pub bucket: StatsBucket,
    pub rate: Json,
    pub rate_text: String,
}

/// What the runs of a cohort have in common, as it is reported.
pub open spec fn key_object(entries: Seq<(String, Option<String>)>) -> JsonView {
    JsonView::Object(
        Seq::new(
            entries.len(),
            |i: int| (entries[i].0@, text_or_null(opt_view(entries[i].1))),
        ),
    )
}

fn key_json(key: &TextMap<Option<String>>) -> (r: Json)
    ensures
        r.value() == key_object(key.entries@),
{
    let mut m = no_members();
    let mut i: usize = 0;
    assert(member_views(m@) =~= key_object(key.entries@.take(0))->Object_0);
    while i < key.entries.len()
        invariant
            i <= key.entries.len(),
            member_views(m@) == key_object(key.entries@.take(i as int))->Object_0,
        decreases key.entries.len() - i,
    {
        let ghost was = member_views(m@);
        m = with_member(m, key.entries[i].0.as_str(), Json::opt_text(opt_str(&key.entries[i].1)));
        i += 1;
        assert(member_views(m@) =~= key_object(key.entries@.take(i as int))->Object_0);
    }
    assert(key.entries@.take(i as int) =~= key.entries@);
    Json::object(m)
}

impl JsonForm for RatedBucket {
    open spec fn json(&self) -> JsonView {
        JsonView::Object(
            seq![
                ("key"@, key_object(self.bucket.key.entries@)),
                ("runs_total"@, JsonView::Int(self.bucket.total as int)),
                ("runs_succeeded"@, JsonView::Int(self.bucket.succeeded as int)),
                ("runs_failed"@, JsonView::Int(self.bucket.failed as int)),
                ("runs_unmarked"@, JsonView::Int(self.bucket.unmarked as int)),
                ("success_rate"@, self.rate.value()),
                ("p50_ms"@, nat_or_null(self.bucket.p50_ms)),
                ("p95_ms"@, nat_or_null(self.bucket.p95_ms)),
                ("last_run_at"@, moment_json(self.bucket.last_run_at)),
                ("top_notes"@, JsonView::Array(forms(self.bucket.top_notes@))),
            ],
        )
    }

    fn to_json(&self) -> (r: Json) {
        let m = with_member(no_members(), "key", key_json(&self.bucket.key));
        let m = with_member(m, "runs_total", Json::Nat(self.bucket.total));
        let m = with_member(m, "runs_succeeded", Json::Nat(self.bucket.succeeded));
        let m = with_member(m, "runs_failed", Json::Nat(self.bucket.failed));
        let m = with_member(m, "runs_unmarked", Json::Nat(self.bucket.unmarked));
        let m = with_member(m, "success_rate", copy(&self.rate));
        let m = with_member(m, "p50_ms", opt_nat(self.bucket.p50_ms));
        let m = with_member(m, "p95_ms", opt_nat(self.bucket.p95_ms));
        let m = with_member(m, "last_run_at", moment(&self.bucket.last_run_at));
        let m = with_member(m, "top_notes", json_list(&self.bucket.top_notes));
        assert(member_views(m@) =~= self.json()->Object_0);
        Json::object(m)
    }
}

/// The cohorts of a repository's runs.
pub fn github_buckets(dims: &Vec<String>, runs: &Vec<RunSnapshot>) -> (r: Vec<StatsBucket>)
    ensures
        viewed(r@) == grouped(viewed(runs@), views(dims@)),
        forall|i: int| 0 <= i < r@.len() ==> (#[trigger] r@[i]).key.wf(),
{
    let names = slices(dims);
    group_buckets(runs, names.as_slice())
}

/// What a server that cannot group says of all runs.
#[derive(Debug, Clone)]
pub struct FlatStats {
    pub runs_total: u64,
    pub runs_succeeded: u64,
    pub runs_failed: u64,
    pub runs_unmarked: u64,
    pub last_run_at: Option<Timestamp>,
}

/// One cohort for all runs, with nothing in common by any dimension.
pub fn flat_bucket(dims: &Vec<String>, flat: &FlatStats) -> (r: StatsBucket)
    ensures
        r.key.wf(),
        key_contents(r.key) == Map::new(
            |k: Seq<char>| views(dims@).contains(k),
            |k: Seq<char>| None::<Seq<char>>,
        ),
        r.total == flat.runs_total,
        r.succeeded == flat.runs_succeeded,
        r.failed == flat.runs_failed,
        r.unmarked == flat.runs_unmarked,
        r.success_rate is None,
        r.p50_ms is None,
        r.p95_ms is None,
        r.last_run_at == flat.last_run_at,
        r.top_notes@.len() == 0,
{
    let mut key: TextMap<Option<String>> = TextMap::new();
    let mut i: usize = 0;
    assert(key_contents(key) =~= Map::empty());
    while i < dims.len()
        invariant
            i <= dims.len(),
            key.wf(),
            forall|k: Seq<char>|
                key_contents(key).dom().contains(k) <==> views(dims@).take(i as int).contains(k),
            forall|k: Seq<char>|
                key_contents(key).dom().contains(k) ==> (#[trigger] key_contents(key)[k]) is None,
        decreases dims.len() - i,
    {
        let ghost was = key_contents(key);
        let ghost before = views(dims@).take(i as int);
        key.insert(dims[i].clone(), None);
        i += 1;
        let ghost now = views(dims@).take(i as int);
        assert(now =~= before.push(dims@[i - 1]@));
        assert(key_contents(key) =~= was.insert(dims@[i - 1]@, None));
        assert forall|k: Seq<char>|
            key_contents(key).dom().contains(k) <==> now.contains(k) by {
            if before.contains(k) {
                let j = choose|j: int| 0 <= j < before.len() && before[j] == k;
                assert(now[j] == k);
            }
            if k == dims@[i - 1]@ {
                assert(now[i - 1] == k);
            }
        }
    }
    assert(views(dims@).take(i as int) =~= views(dims@));
    assert(key_contents(key) =~= Map::new(
        |k: Seq<char>| views(dims@).contains(k),
        |k: Seq<char>| None::<Seq<char>>,
    ));
    StatsBucket {
        key,
        total: flat.runs_total,
        succeeded: flat.runs_succeeded,
        failed: flat.runs_failed,
        unmarked: flat.runs_unmarked,
        success_rate: None,
        p50_ms: None,
        p95_ms: None,
        last_run_at: flat.last_run_at,
        top_notes: Vec::new(),
    }
}

/// What the server is asked for.
#[derive(Debug)]
pub struct StatsQuery {
    pub group_by: Option<String>,
    pub durations: Vec<String>,
    pub since: Option<Timestamp>,
    pub until: Option<Timestamp>,
}

/// The moment is the start of a day.
pub open spec fn starts_day(t: Option<Timestamp>, day: int) -> bool {
    t matches Some(t) && day_of(t) == day && second_of_day(t) == 0 && t.nanos == 0
}

/// The moment is the last second of a day.
pub open spec fn ends_day(t: Option<Timestamp>, day: int) -> bool {
    t matches Some(t) && day_of(t) == day && second_of_day(t) == 86_399 && t.nanos == 0
}

/// The durations that the server is asked for.
pub fn percentiles() -> (r: Vec<String>)
    ensures
        views(r@) == seq!["p50"@, "p95"@],
{
    let mut v: Vec<String> = Vec::new();
    v.push("p50".to_owned());
    v.push("p95".to_owned());
    assert(views(v@) =~= seq!["p50"@, "p95"@]);
    v
}

/// What the server is asked for.
pub fn stats_query(dims: &Vec<String>, since: i64, until: i64) -> (r: StatsQuery)
    requires
        in_calendar(since as int),
        in_calendar(until as int),
    ensures
        opt_view(r.group_by) == Some(joined(views(dims@), ","@)),
        views(r.durations@) == seq!["p50"@, "p95"@],
        starts_day(r.since, since as int),
        ends_day(r.until, until as int),
{
    StatsQuery {
        group_by: Some(join_strings(dims, ",")),
        durations: percentiles(),
        since: Some(naive_to_utc(since, false)),
        until: Some(naive_to_utc(until, true)),
    }
}

// ---------------------------------------------------------------------------
// What is told of cohorts
// ---------------------------------------------------------------------------

/// What is reported of cohorts.
pub open spec fn stats_report(
    backend: Seq<char>,
    slug: Seq<char>,
    dims: Seq<Seq<char>>,
    rows: Seq<RatedBucket>,
    since: int,
    until: int,
) -> JsonView {
    JsonView::Object(
        seq![
            ("backend"@, JsonView::Text(backend)),
            ("slug"@, JsonView::Text(slug)),
            ("dimensions"@, JsonView::Array(text_values(dims))),
            ("window"@, window_report(since, until)),
            ("buckets"@, JsonView::Array(forms(rows))),
        ],
    )
}

/// The line of a table of cohorts.
pub open spec fn stats_row(
    label: Seq<char>,
    total: Seq<char>,
    ok: Seq<char>,
    fail: Seq<char>,
    rate: Seq<char>,
    p50: Seq<char>,
    p95: Seq<char>,
) -> Seq<char> {
    padded_right(label, 24) + " "@ + padded_left(total, 7) + " "@ + padded_left(ok, 7) + " "@
        + padded_left(fail, 7) + " "@ + padded_left(rate, 9) + " "@ + padded_left(p50, 9) + " "@
        + padded_left(p95, 9)
}

fn row(
    label: &str,
    total: &str,
    ok: &str,
    fail: &str,
    rate: &str,
    p50: &str,
    p95: &str,
) -> (r: String)
    ensures
        r@ == stats_row(label@, total@, ok@, fail@, rate@, p50@, p95@),
{
    let label = pad_right(label, 24);
    let total = pad_left(total, 7);
    let ok = pad_left(ok, 7);
    let fail = pad_left(fail, 7);
    let rate = pad_left(rate, 9);
    let p50 = pad_left(p50, 9);
    let p95 = pad_left(p95, 9);
    let mut r = concat7(label.as_str(), " ", total.as_str(), " ", ok.as_str(), " ", fail.as_str());
    r.append(" ");
    r.append(rate.as_str());
    r.append(" ");
    r.append(p50.as_str());
    r.append(" ");
    r.append(p95.as_str());
    r
}

/// The line of a cohort.
pub open spec fn bucket_row(dims: Seq<Seq<char>>, b: RatedBucket) -> Seq<char> {
    stats_row(
        label_of(dims, key_contents(b.bucket.key)),
        decimal(b.bucket.total as nat),
        decimal(b.bucket.succeeded as nat),
        decimal(b.bucket.failed as nat),
        b.rate_text@,
        number_or_dash(b.bucket.p50_ms),
        number_or_dash(b.bucket.p95_ms),
    )
}

fn show_bucket(dims: &Vec<String>, b: &RatedBucket) -> (r: String)
    requires
        b.bucket.key.wf(),
    ensures
        r@ == bucket_row(views(dims@), *b),
{
    let label = key_label(dims, &b.bucket.key);
    let total = u64_text(b.bucket.total);
    let ok = u64_text(b.bucket.succeeded);
    let fail = u64_text(b.bucket.failed);
    let p50 = opt_u64(b.bucket.p50_ms);
    let p95 = opt_u64(b.bucket.p95_ms);
    row(
        label.as_str(),
        total.as_str(),
        ok.as_str(),
        fail.as_str(),
        b.rate_text.as_str(),
        p50.as_str(),
        p95.as_str(),
    )
}

/// What people are told of a note.
pub open spec fn note_line(note: (Seq<char>, nat)) -> Seq<char> {
    "  "@ + padded_left(decimal(note.1), 3) + "× "@ + note.0
}

/// What people are told of the notes of a cohort: nothing where there are none.
pub open spec fn notes_text(label: Seq<char>, notes: Seq<(Seq<char>, nat)>) -> Seq<Seq<char>> {
    if notes.len() == 0 {
        seq![]
    } else {
        seq![""@, "top failure notes · "@ + label] + Seq::new(
            notes.len(),
            |i: int| note_line(notes[i]),
        )
    }
}

/// Tells of the notes of a cohort.
pub fn push_notes(out: &mut Vec<String>, label: &str, notes: &Vec<NoteCount>)
    ensures
        views(final(out)@) == views(old(out)@) + notes_text(label@, viewed(notes@)),
{
    let ghost start = views(out@);
    let ghost v = viewed(notes@);
    assert(v.len() == notes@.len());
    if notes.len() > 0 {
        push_line(out, "".to_owned());
        push_line(out, prefixed("top failure notes · ", label));
        let mut i: usize = 0;
        assert(views(out@) =~= start + seq![""@, "top failure notes · "@ + label@] + Seq::new(
            0,
            |j: int| note_line(v[j]),
        ));
        while i < notes.len()
            invariant
                i <= notes.len(),
                v == viewed(notes@),
                views(out@) == start + seq![""@, "top failure notes · "@ + label@] + Seq::new(
                    i as nat,
                    |j: int| note_line(v[j]),
                ),
            decreases notes.len() - i,
        {
            let n = u64_text(notes[i].count);
            let n = pad_left(n.as_str(), 3);
            assert(v[i as int] == notes@[i as int]@);
            push_line(
                out,
                crate::text::concat4("  ", n.as_str(), "× ", notes[i].note.as_str()),
            );
            i += 1;
            assert(views(out@) =~= start + seq![""@, "top failure notes · "@ + label@]
                + Seq::new(i as nat, |j: int| note_line(v[j])));
        }
        assert(views(out@) =~= start + notes_text(label@, v));
    } else {
        assert(views(out@) =~= start + notes_text(label@, v));
    }
}

/// What people are told of the notes of the first `n` cohorts.
pub open spec fn all_notes(dims: Seq<Seq<char>>, rows: Seq<RatedBucket>, n: int) -> Seq<Seq<char>>
    decreases n,
{
    if n <= 0 {
        seq![]
    } else {
        all_notes(dims, rows, n - 1) + notes_text(
            label_of(dims, key_contents(rows[n - 1].bucket.key)),
            viewed(rows[n - 1].bucket.top_notes@),
        )
    }
}

/// What people are told of cohorts.
pub open spec fn stats_text(
    slug: Seq<char>,
    dims: Seq<Seq<char>>,
    rows: Seq<RatedBucket>,
    since: int,
    until: int,
) -> Seq<Seq<char>> {
    if rows.len() == 0 {
        seq!["no runs for `"@ + slug + "` in window "@ + day_text(since) + " → "@ + day_text(until)]
    } else {
        seq![
            "stats for `"@ + slug + "`  by "@ + joined(dims, "/"@) + "  ("@ + day_text(since) + " → "@
                + day_text(until) + ")"@,
            ""@,
            stats_row(
                joined(dims, "/"@),
                "total"@,
                "ok"@,
                "fail"@,
                "rate"@,
                "p50(ms)"@,
                "p95(ms)"@,
            ),
        ] + Seq::new(rows.len(), |i: int| bucket_row(dims, rows[i])) + all_notes(
            dims,
            rows,
            rows.len() as int,
        )
    }
}

/// Tells people of cohorts.
pub fn render_buckets(
    slug: &str,
    dims: &Vec<String>,
    rows: &Vec<RatedBucket>,
    since: i64,
    until: i64,
) -> (r: Vec<String>)
    requires
        forall|i: int| 0 <= i < rows@.len() ==> (#[trigger] rows@[i]).bucket.key.wf(),
    ensures
        views(r@) == stats_text(slug@, views(dims@), rows@, since as int, until as int),
{
    let a = show_day(since);
    let b = show_day(until);
    let mut out: Vec<String> = Vec::new();
    assert(views(out@) =~= seq![]);
    if rows.len() == 0 {
        let mut line = concat5("no runs for `", slug, "` in window ", a.as_str(), " → ");
        line.append(b.as_str());
        push_line(&mut out, line);
        assert(views(out@) =~= stats_text(
            slug@,
            views(dims@),
            rows@,
            since as int,
            until as int,
        ));
        return out;
    }
    let names = join_strings(dims, "/");
    let mut title = concat7("stats for `", slug, "`  by ", names.as_str(), "  (", a.as_str(), " → ");
    title.append(b.as_str());
    title.append(")");
    push_line(&mut out, title);
    push_line(&mut out, "".to_owned());
    push_line(
        &mut out,
        row(names.as_str(), "total", "ok", "fail", "rate", "p50(ms)", "p95(ms)"),
    );
    let ghost d = views(dims@);
    let ghost start = views(out@);
    let mut i: usize = 0;
    assert(views(out@) =~= start + Seq::new(0, |j: int| bucket_row(d, rows@[j])));
    while i < rows.len()
        invariant
            i <= rows.len(),
            d == views(dims@),
            forall|i: int| 0 <= i < rows@.len() ==> (#[trigger] rows@[i]).bucket.key.wf(),
            views(out@) == start + Seq::new(i as nat, |j: int| bucket_row(d, rows@[j])),
        decreases rows.len() - i,
    {
        push_line(&mut out, show_bucket(dims, &rows[i]));
        i += 1;
        assert(views(out@) =~= start + Seq::new(i as nat, |j: int| bucket_row(d, rows@[j])));
    }
    let ghost table = views(out@);
    let mut k: usize = 0;
    assert(table + all_notes(d, rows@, 0) =~= table);
    while k < rows.len()
        invariant
            k <= rows.len(),
            d == views(dims@),
            forall|i: int| 0 <= i < rows@.len() ==> (#[trigger] rows@[i]).bucket.key.wf(),
            views(out@) == table + all_notes(d, rows@, k as int),
        decreases rows.len() - k,
    {
        let label = key_label(dims, &rows[k].bucket.key);
        push_notes(&mut out, label.as_str(), &rows[k].bucket.top_notes);
        k += 1;
        assert(views(out@) =~= table + all_notes(d, rows@, k as int));
    }
    assert(views(out@) =~= stats_text(slug@, d, rows@, since as int, until as int));
    out
}

/// Tells of cohorts.
pub fn stats_told(
    backend: &str,
    slug: &str,
    dims: &Vec<String>,
    rows: &Vec<RatedBucket>,
    since: i64,
    until: i64,
) -> (r: Told)
    requires
        forall|i: int| 0 <= i < rows@.len() ==> (#[trigger] rows@[i]).bucket.key.wf(),
    ensures
        r.report.value() == stats_report(
            backend@,
            slug_parts(slug@).0,
            views(dims@),
            rows@,
            since as int,
            until as int,
        ),
        views(r.lines@) == stats_text(
            slug_parts(slug@).0,
            views(dims@),
            rows@,
            since as int,
            until as int,
        ),
{
    let (name, _) = parse_slug_at_version(slug);
    let m = with_member(no_members(), "backend", Json::text(backend));
    let m = with_member(m, "slug", Json::text(name));
    let m = with_member(m, "dimensions", Json::texts(dims));
    let m = with_member(m, "window", window_json(since, until));
    let m = with_member(m, "buckets", json_list(rows));
    assert(member_views(m@) =~= stats_report(
        backend@,
        slug_parts(slug@).0,
        views(dims@),
        rows@,
        since as int,
        until as int,
    )->Object_0);
    Told { report: Json::object(m), lines: render_buckets(name, dims, rows, since, until) }
}

} // verus!
