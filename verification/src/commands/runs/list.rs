//! `knack runs list`: the runs of a skill, newest first.

use vstd::prelude::*;
use vstd::utf8::{decode_utf8, encode_utf8, is_char_boundary};

use crate::commands::mark::{moment, moment_json};
use crate::commands::runs::{day_text, show_day, window_json, window_report};
use crate::errors::prefixed;
use crate::github::runs::{RunSnapshot, SnapshotView};
use crate::json::{
    copy, forms, lemma_array_value, member_views, nat_or_null, no_members, opt_nat, text_field,
    text_or_null, text_values, values, with_member, Json, JsonForm, JsonView,
};
use crate::numbers::{decimal, i64_text, signed_decimal, u64_text, usize_text};
use crate::order::viewed;
use crate::output::Told;
use crate::slug::{parse_slug_at_version, slug_parts};
use crate::text::{
    ascii_lower, concat4, concat7, contains, ellipsized, find_first, lowercased, opt_str,
    opt_str_view, opt_view, pad_right, padded_right, push_line, same_ignoring_case, same_opt,
    to_lowercase, truncate, views,
};
use crate::time::{day_of, in_calendar, nanos_between, signed_millis, whole_millis, Timestamp};

verus! {

/// The arguments of `knack runs list`.
#[derive(Debug, Clone)]
pub struct ListArgs {
    pub slug: String,
    pub status: Option<String>,
    pub version: Option<String>,
    pub agent: Option<String>,
    /// A part of the note, in either case of letters.
    pub note_contains: Option<String>,
    pub since: Option<String>,
    pub until: Option<String>,
    pub limit: u32,
    /// Where the server goes on from an earlier page.
    pub cursor: Option<String>,
}

// ---------------------------------------------------------------------------
// Which runs are listed
// ---------------------------------------------------------------------------

/// What is there is what is wanted, where something is.
pub open spec fn fits(want: Option<Seq<char>>, have: Option<Seq<char>>) -> bool {
    want is Some ==> have == want
}

/// The note, in small letters, holds what is looked for, in small letters.
pub open spec fn note_holds(note: Option<Seq<char>>, needle: Option<Seq<char>>) -> bool {
    match needle {
        Some(n) => note is Some && find_first(note->0, n) is Some,
        None => true,
    }
}

/// A text in small letters.
pub open spec fn small(s: Option<Seq<char>>) -> Option<Seq<char>> {
    match s {
        Some(s) => Some(lowercased(s)),
        None => None,
    }
}

/// A run in a repository is listed.
pub open spec fn is_listed(args: ListArgs, s: SnapshotView) -> bool {
    &&& (args.status matches Some(want) ==> ascii_lower(s.status) == ascii_lower(want@))
    &&& fits(opt_view(args.version), s.version)
    &&& fits(opt_view(args.agent), s.agent)
    &&& note_holds(small(s.note), small(opt_view(args.note_contains)))
}

/// The runs that are listed among the first `n`.
pub open spec fn listed(args: ListArgs, s: Seq<SnapshotView>, n: int) -> Seq<SnapshotView>
    decreases n,
{
    if n <= 0 {
        seq![]
    } else if is_listed(args, s[n - 1]) {
        listed(args, s, n - 1).push(s[n - 1])
    } else {
        listed(args, s, n - 1)
    }
}

/// No more than the first `limit`.
pub open spec fn at_most<T>(s: Seq<T>, limit: int) -> Seq<T> {
    if s.len() <= limit {
        s
    } else {
        s.take(limit)
    }
}

/// The views of references.
pub open spec fn run_views(s: Seq<&RunSnapshot>) -> Seq<SnapshotView> {
    Seq::new(s.len(), |i: int| s[i]@)
}

/// Whether a note, in small letters, holds what is looked for, in small letters.
pub fn holds_note(note: Option<&str>, needle: Option<&str>) -> (r: bool)
    ensures
        r == note_holds(opt_str_view(note), opt_str_view(needle)),
{
    match needle {
        Some(n) => match note {
            Some(s) => contains(s, n),
            None => false,
        },
        None => true,
    }
}

fn lower_opt(s: &Option<String>) -> (r: Option<String>)
    ensures
        opt_view(r) == small(opt_view(*s)),
{
    match s {
        Some(s) => Some(to_lowercase(s.as_str())),
        None => None,
    }
}

fn fits_opt(want: &Option<String>, have: &Option<String>) -> (r: bool)
    ensures
        r == fits(opt_view(*want), opt_view(*have)),
{
    match want {
        Some(_) => same_opt(opt_str(want), opt_str(have)),
        None => true,
    }
}

fn lists(args: &ListArgs, needle: &Option<String>, s: &RunSnapshot) -> (r: bool)
    requires
        opt_view(*needle) == small(opt_view(args.note_contains)),
    ensures
        r == is_listed(*args, s@),
{
    let status = match &args.status {
        Some(want) => same_ignoring_case(s.status.as_str(), want.as_str()),
        None => true,
    };
    let note = lower_opt(&s.note);
    status && fits_opt(&args.version, &s.version) && fits_opt(&args.agent, &s.agent) && holds_note(
        opt_str(&note),
        opt_str(needle),
    )
}

proof fn lemma_listed_grows(args: ListArgs, s: Seq<SnapshotView>, i: int, n: int)
    requires
        0 <= i <= n,
    ensures
        listed(args, s, i).len() <= listed(args, s, n).len(),
        listed(args, s, n).take(listed(args, s, i).len() as int) == listed(args, s, i),
    decreases n - i,
{
    let a = listed(args, s, i);
    if i < n {
        lemma_listed_grows(args, s, i, n - 1);
        assert(listed(args, s, n).take(a.len() as int) =~= listed(args, s, n - 1).take(
            a.len() as int,
        ));
    } else {
        assert(a.take(a.len() as int) =~= a);
    }
}

/// The runs in a repository that are listed, no more than the limit says.
pub fn select<'a>(args: &ListArgs, runs: &'a Vec<RunSnapshot>) -> (r: Vec<&'a RunSnapshot>)
    ensures
        run_views(r@) == at_most(
            listed(*args, viewed(runs@), runs@.len() as int),
            args.limit as int,
        ),
{
    let needle = lower_opt(&args.note_contains);
    let limit: usize = args.limit as usize;
    let mut out: Vec<&'a RunSnapshot> = Vec::new();
    let mut i: usize = 0;
    assert(run_views(out@) =~= seq![]);
    while i < runs.len() && out.len() < limit
        invariant
            i <= runs.len(),
            limit == args.limit,
            opt_view(needle) == small(opt_view(args.note_contains)),
            out@.len() <= limit,
            run_views(out@) == listed(*args, viewed(runs@), i as int),
        decreases runs.len() - i,
    {
        if lists(args, &needle, &runs[i]) {
            let ghost was = run_views(out@);
            out.push(&runs[i]);
            assert(run_views(out@) =~= was.push(runs@[i as int]@));
        }
        i += 1;
    }
    proof {
        lemma_listed_grows(*args, viewed(runs@), i as int, runs@.len() as int);
        assert(run_views(out@).len() == out@.len());
    }
    out
}

/// Every run that is listed is among those in the window, and fits what was asked
/// for.
pub proof fn law_listed_runs_fit(args: ListArgs, s: Seq<SnapshotView>, n: int, i: int)
    requires
        0 <= n <= s.len(),
        0 <= i < listed(args, s, n).len(),
    ensures
        s.contains(listed(args, s, n)[i]),
        is_listed(args, listed(args, s, n)[i]),
    decreases n,
{
    if is_listed(args, s[n - 1]) && i == listed(args, s, n - 1).len() {
        assert(s[n - 1] == listed(args, s, n)[i]);
    } else {
        law_listed_runs_fit(args, s, n - 1, i);
    }
}

/// A run in the window that fits what was asked for is listed, up to the limit.
pub proof fn law_fitting_runs_are_listed(args: ListArgs, s: Seq<SnapshotView>, n: int, j: int)
    requires
        0 <= j < n <= s.len(),
        is_listed(args, s[j]),
    ensures
        listed(args, s, n).contains(s[j]),
    decreases n,
{
    let l = listed(args, s, n);
    if j == n - 1 {
        assert(l[l.len() - 1] == s[j]);
    } else {
        law_fitting_runs_are_listed(args, s, n - 1, j);
        let m = listed(args, s, n - 1);
        let k = choose|k: int| 0 <= k < m.len() && m[k] == s[j];
        assert(l[k] == s[j]);
    }
}

// ---------------------------------------------------------------------------
// What is told of runs in a repository
// ---------------------------------------------------------------------------

/// A run in a repository as it is reported.
pub open spec fn run_members(s: SnapshotView) -> Seq<(Seq<char>, JsonView)> {
    seq![
        ("run_id"@, JsonView::Text(s.run_id)),
        ("skill"@, text_or_null(s.skill)),
        ("version"@, text_or_null(s.version)),
        ("agent"@, text_or_null(s.agent)),
        ("status"@, JsonView::Text(s.status)),
        ("note"@, text_or_null(s.note)),
        ("inputs"@, JsonView::Array(text_values(s.inputs))),
        ("outputs"@, JsonView::Array(text_values(s.outputs))),
        ("started_at"@, moment_json(s.started_at)),
        ("completed_at"@, moment_json(s.completed_at)),
        ("duration_ms"@, nat_or_null(s.duration_ms)),
    ]
}

/// Adds what is reported of a run.
pub fn with_run(members: Vec<(String, Json)>, s: &RunSnapshot) -> (r: Vec<(String, Json)>)
    ensures
        member_views(r@) == member_views(members@) + run_members(s@),
{
    let ghost was = member_views(members@);
    let m = with_member(members, "run_id", Json::text(s.run_id.as_str()));
    let m = with_member(m, "skill", Json::opt_text(opt_str(&s.skill)));
    let m = with_member(m, "version", Json::opt_text(opt_str(&s.version)));
    let m = with_member(m, "agent", Json::opt_text(opt_str(&s.agent)));
    let m = with_member(m, "status", Json::text(s.status.as_str()));
    let m = with_member(m, "note", Json::opt_text(opt_str(&s.note)));
    let m = with_member(m, "inputs", Json::texts(&s.inputs));
    let m = with_member(m, "outputs", Json::texts(&s.outputs));
    let m = with_member(m, "started_at", moment(&s.started_at));
    let m = with_member(m, "completed_at", moment(&s.completed_at));
    let m = with_member(m, "duration_ms", opt_nat(s.duration_ms));
    assert(member_views(m@) =~= was + run_members(s@));
    m
}

/// The runs of a listing as they are reported.
pub open spec fn run_objects(s: Seq<SnapshotView>) -> Seq<JsonView> {
    Seq::new(s.len(), |i: int| JsonView::Object(run_members(s[i])))
}

fn runs_json(runs: &Vec<&RunSnapshot>) -> (r: Json)
    ensures
        r.value() == JsonView::Array(run_objects(run_views(runs@))),
{
    let mut a: Vec<Json> = Vec::new();
    let mut i: usize = 0;
    while i < runs.len()
        invariant
            i <= runs.len(),
            a@.len() == i,
            forall|j: int|
                0 <= j < i ==> (#[trigger] a@[j]).value() == JsonView::Object(
                    run_members(runs@[j]@),
                ),
        decreases runs.len() - i,
    {
        let m = with_run(no_members(), runs[i]);
        assert(member_views(m@) =~= run_members(runs@[i as int]@));
        a.push(Json::object(m));
        i += 1;
    }
    proof {
        lemma_array_value(a);
        assert(values(a@) =~= run_objects(run_views(runs@)));
    }
    Json::Array(a)
}

/// What is reported of a listing.
pub open spec fn list_report(
    backend: Seq<char>,
    slug: Seq<char>,
    items: Seq<JsonView>,
    since: int,
    until: int,
    next_cursor: Option<Seq<char>>,
) -> JsonView {
    JsonView::Object(
        seq![
            ("backend"@, JsonView::Text(backend)),
            ("slug"@, JsonView::Text(slug)),
            ("items"@, JsonView::Array(items)),
            ("count"@, JsonView::Int(items.len() as int)),
            ("window"@, window_report(since, until)),
            ("next_cursor"@, text_or_null(next_cursor)),
        ],
    )
}

/// What is reported of a listing.
fn list_json(
    backend: &str,
    slug: &str,
    items: Json,
    count: usize,
    since: i64,
    until: i64,
    next_cursor: Option<&str>,
) -> (r: Json)
    requires
        items.value() matches JsonView::Array(a) && a.len() == count,
    ensures
        r.value() == list_report(
            backend@,
            slug@,
            items.value()->Array_0,
            since as int,
            until as int,
            opt_str_view(next_cursor),
        ),
{
    let ghost v = items.value();
    let m = with_member(no_members(), "backend", Json::text(backend));
    let m = with_member(m, "slug", Json::text(slug));
    let m = with_member(m, "items", items);
    let m = with_member(m, "count", Json::Nat(count as u64));
    let m = with_member(m, "window", window_json(since, until));
    let m = with_member(m, "next_cursor", Json::opt_text(next_cursor));
    assert(member_views(m@) =~= list_report(
        backend@,
        slug@,
        v->Array_0,
        since as int,
        until as int,
        opt_str_view(next_cursor),
    )->Object_0);
    Json::object(m)
}

/// The first twelve bytes of an id, or all of it where they are no text.
pub open spec fn id_start(id: Seq<char>) -> Seq<char> {
    if encode_utf8(id).len() >= 12 && is_char_boundary(encode_utf8(id), 12) {
        decode_utf8(encode_utf8(id).subrange(0, 12))
    } else {
        id
    }
}

/// The first twelve bytes of an id.
pub fn short_run_id(id: &str) -> (r: String)
    ensures
        r@ == id_start(id@),
{
    if id.as_bytes().len() >= 12 && id.is_char_boundary(12) {
        let (start, _) = id.split_at(12);
        proof {
            vstd::utf8::encode_utf8_decode_utf8(start@);
        }
        start.to_owned()
    } else {
        id.to_owned()
    }
}

/// A text, or a dash.
pub open spec fn or_dash(s: Option<Seq<char>>) -> Seq<char> {
    match s {
        Some(s) => s,
        None => "-"@,
    }
}

/// A text, or a dash.
pub fn dash_for_none<'a>(s: &'a Option<String>) -> (r: &'a str)
    ensures
        r@ == or_dash(opt_view(*s)),
{
    match s {
        Some(s) => s.as_str(),
        None => "-",
    }
}

/// A number, or a dash.
pub open spec fn number_or_dash(n: Option<u64>) -> Seq<char> {
    match n {
        Some(n) => decimal(n as nat),
        None => "-"@,
    }
}

/// A number, or a dash.
pub fn opt_u64(n: Option<u64>) -> (r: String)
    ensures
        r@ == number_or_dash(n),
{
    match n {
        Some(n) => u64_text(n),
        None => "-".to_owned(),
    }
}

/// What people are told of a run in a repository.
pub open spec fn run_line(s: SnapshotView) -> Seq<char> {
    padded_right(id_start(s.run_id), 13) + " "@ + padded_right(ellipsized(s.status, 8), 8) + " "@
        + padded_right(ellipsized(or_dash(s.version), 10), 10) + " "@ + padded_right(
        ellipsized(or_dash(s.agent), 10),
        10,
    ) + " "@ + padded_right(number_or_dash(s.duration_ms), 8) + " "@ + ellipsized(
        match s.note {
            Some(n) => n,
            None => ""@,
        },
        60,
    )
}

fn cell(s: &str, n: usize) -> (r: String)
    ensures
        r@ == padded_right(ellipsized(s@, n as int), n as int),
{
    let t = truncate(s, n);
    pad_right(t.as_str(), n)
}

/// What people are told of a run in a repository.
pub fn show_run(s: &RunSnapshot) -> (r: String)
    ensures
        r@ == run_line(s@),
{
    let id = short_run_id(s.run_id.as_str());
    let id = pad_right(id.as_str(), 13);
    let status = cell(s.status.as_str(), 8);
    let version = cell(dash_for_none(&s.version), 10);
    let agent = cell(dash_for_none(&s.agent), 10);
    let ms = opt_u64(s.duration_ms);
    let ms = pad_right(ms.as_str(), 8);
    let note = match &s.note {
        Some(n) => n.as_str(),
        None => "",
    };
    let note = truncate(note, 60);
    let mut r = concat7(id.as_str(), " ", status.as_str(), " ", version.as_str(), " ", agent.as_str());
    r.append(" ");
    r.append(ms.as_str());
    r.append(" ");
    r.append(note.as_str());
    r
}

/// What people are told where there is no run.
pub open spec fn no_runs(since: int, until: int) -> Seq<char> {
    "no runs in window "@ + day_text(since) + " → "@ + day_text(until)
}

fn say_no_runs(since: i64, until: i64) -> (r: Vec<String>)
    ensures
        views(r@) == seq![no_runs(since as int, until as int)],
{
    let a = show_day(since);
    let b = show_day(until);
    let mut out: Vec<String> = Vec::new();
    out.push(concat4("no runs in window ", a.as_str(), " → ", b.as_str()));
    assert(views(out@) =~= seq![no_runs(since as int, until as int)]);
    out
}

/// What people are told of a listing of runs in a repository.
pub open spec fn list_text(s: Seq<SnapshotView>, since: int, until: int) -> Seq<Seq<char>> {
    if s.len() == 0 {
        seq![no_runs(since, until)]
    } else {
        seq!["run-id        status   version    agent      dur(ms)  note"@] + Seq::new(
            s.len(),
            |i: int| run_line(s[i]),
        )
    }
}

fn list_lines(runs: &Vec<&RunSnapshot>, since: i64, until: i64) -> (r: Vec<String>)
    ensures
        views(r@) == list_text(run_views(runs@), since as int, until as int),
{
    if runs.len() == 0 {
        assert(run_views(runs@).len() == 0);
        return say_no_runs(since, until);
    }
    let mut out: Vec<String> = Vec::new();
    out.push("run-id        status   version    agent      dur(ms)  note".to_owned());
    let mut i: usize = 0;
    while i < runs.len()
        invariant
            i <= runs.len(),
            out@.len() == i + 1,
            out@[0]@ == "run-id        status   version    agent      dur(ms)  note"@,
            forall|j: int| 0 <= j < i ==> (#[trigger] out@[j + 1])@ == run_line(runs@[j]@),
        decreases runs.len() - i,
    {
        out.push(show_run(runs[i]));
        i += 1;
    }
    assert(run_views(runs@).len() == runs@.len());
    assert forall|k: int| 0 < k < out@.len() implies (#[trigger] out@[k])@ == run_line(
        runs@[k - 1]@,
    ) by {
        assert(out@[(k - 1) + 1]@ == run_line(runs@[k - 1]@));
    }
    assert(views(out@) =~= list_text(run_views(runs@), since as int, until as int));
    out
}

/// Lists the runs of a repository that are in the window.
pub fn github_list(args: &ListArgs, runs: &Vec<RunSnapshot>, since: i64, until: i64) -> (r: Told)
    ensures
        ({
            let s = at_most(listed(*args, viewed(runs@), runs@.len() as int), args.limit as int);
            r.report.value() == list_report(
                "github"@,
                slug_parts(args.slug@).0,
                run_objects(s),
                since as int,
                until as int,
                None,
            ) && views(r.lines@) == list_text(s, since as int, until as int)
        }),
{
    let (slug, _) = parse_slug_at_version(args.slug.as_str());
    let items = select(args, runs);
    let j = runs_json(&items);
    assert(run_objects(run_views(items@)).len() == items@.len());
    Told {
        report: list_json("github", slug, j, items.len(), since, until, None),
        lines: list_lines(&items, since, until),
    }
}

// ---------------------------------------------------------------------------
// Runs that the server knows of
// ---------------------------------------------------------------------------

/// A run as the server knows it.
#[derive(Debug)]
pub struct CloudRun {
    pub id: String,
    pub skill_version_id: String,
    pub runtime: Option<String>,
    pub agent_id: Option<String>,
    pub status: String,
    pub started_at: Timestamp,
    pub finished_at: Option<Timestamp>,
    pub inputs_summary: Json,
    pub outputs_summary: Json,
    pub files_touched: Json,
    pub marks: Vec<Json>,
}

/// Copies of values.
pub fn copy_all(v: &Vec<Json>) -> (r: Json)
    ensures
        r.value() == JsonView::Array(values(v@)),
{
    let mut a: Vec<Json> = Vec::new();
    let mut i: usize = 0;
    while i < v.len()
        invariant
            i <= v.len(),
            a@.len() == i,
            forall|j: int| 0 <= j < i ==> (#[trigger] a@[j]).value() == v@[j].value(),
        decreases v.len() - i,
    {
        a.push(copy(&v[i]));
        i += 1;
    }
    proof {
        lemma_array_value(a);
        assert(values(a@) =~= values(v@));
    }
    Json::Array(a)
}

impl JsonForm for CloudRun {
    open spec fn json(&self) -> JsonView {
        JsonView::Object(
            seq![
                ("id"@, JsonView::Text(self.id@)),
                ("skill_version_id"@, JsonView::Text(self.skill_version_id@)),
                ("runtime"@, text_or_null(opt_view(self.runtime))),
                ("agent_id"@, text_or_null(opt_view(self.agent_id))),
                ("status"@, JsonView::Text(self.status@)),
                ("started_at"@, moment_json(Some(self.started_at))),
                ("finished_at"@, moment_json(self.finished_at)),
                ("inputs_summary"@, self.inputs_summary.value()),
                ("outputs_summary"@, self.outputs_summary.value()),
                ("files_touched"@, self.files_touched.value()),
                ("marks"@, JsonView::Array(values(self.marks@))),
            ],
        )
    }

    fn to_json(&self) -> (r: Json) {
        let m = with_member(no_members(), "id", Json::text(self.id.as_str()));
        let m = with_member(m, "skill_version_id", Json::text(self.skill_version_id.as_str()));
        let m = with_member(m, "runtime", Json::opt_text(opt_str(&self.runtime)));
        let m = with_member(m, "agent_id", Json::opt_text(opt_str(&self.agent_id)));
        let m = with_member(m, "status", Json::text(self.status.as_str()));
        let m = with_member(m, "started_at", moment(&Some(self.started_at)));
        let m = with_member(m, "finished_at", moment(&self.finished_at));
        let m = with_member(m, "inputs_summary", copy(&self.inputs_summary));
        let m = with_member(m, "outputs_summary", copy(&self.outputs_summary));
        let m = with_member(m, "files_touched", copy(&self.files_touched));
        let m = with_member(m, "marks", copy_all(&self.marks));
        assert(member_views(m@) =~= self.json()->Object_0);
        Json::object(m)
    }
}

/// One of the marks has a note that holds, in small letters, what is looked for.
pub open spec fn marks_hold(marks: Seq<JsonView>, needle: Seq<char>) -> bool {
    exists|i: int|
        0 <= i < marks.len() && note_holds(small(text_field(#[trigger] marks[i], "note"@)), Some(needle))
}

/// A run that the server knows of is listed.
pub open spec fn is_served(
    agent: Option<Seq<char>>,
    version_id: Option<Seq<char>>,
    needle: Option<Seq<char>>,
    run: CloudRun,
) -> bool {
    &&& fits(agent, opt_view(run.runtime))
    &&& fits(version_id, Some(run.skill_version_id@))
    &&& (needle matches Some(n) ==> marks_hold(values(run.marks@), lowercased(n)))
}

/// The runs that are listed among the first `n`.
pub open spec fn served(
    agent: Option<Seq<char>>,
    version_id: Option<Seq<char>>,
    needle: Option<Seq<char>>,
    runs: Seq<CloudRun>,
    n: int,
) -> Seq<CloudRun>
    decreases n,
{
    if n <= 0 {
        seq![]
    } else if is_served(agent, version_id, needle, runs[n - 1]) {
        served(agent, version_id, needle, runs, n - 1).push(runs[n - 1])
    } else {
        served(agent, version_id, needle, runs, n - 1)
    }
}

fn any_mark_holds(marks: &Vec<Json>, needle: &str) -> (r: bool)
    ensures
        r == marks_hold(values(marks@), needle@),
{
    let mut i: usize = 0;
    while i < marks.len()
        invariant
            i <= marks.len(),
            forall|j: int|
                0 <= j < i ==> !note_holds(
                    small(text_field(#[trigger] values(marks@)[j], "note"@)),
                    Some(needle@),
                ),
        decreases marks.len() - i,
    {
        assert(values(marks@)[i as int] == marks@[i as int].value());
        let found = match marks[i].get_str("note") {
            Some(note) => {
                let note = to_lowercase(note);
                contains(note.as_str(), needle)
            },
            None => false,
        };
        if found {
            assert(note_holds(
                small(text_field(values(marks@)[i as int], "note"@)),
                Some(needle@),
            ));
            return true;
        }
        i += 1;
    }
    false
}

fn serves(
    agent: &Option<String>,
    version_id: Option<&str>,
    needle: &Option<String>,
    run: &CloudRun,
) -> (r: bool)
    ensures
        r == is_served(opt_view(*agent), opt_str_view(version_id), opt_view(*needle), *run),
{
    let version = match version_id {
        Some(v) => crate::text::same(v, run.skill_version_id.as_str()),
        None => true,
    };
    let note = match needle {
        Some(n) => {
            let n = to_lowercase(n.as_str());
            any_mark_holds(&run.marks, n.as_str())
        },
        None => true,
    };
    fits_opt(agent, &run.runtime) && version && note
}

/// What the server is asked for.
#[derive(Debug)]
pub struct RunsListQuery {
    pub status: Option<String>,
    pub marked_by: Option<String>,
    pub since: Option<Timestamp>,
    pub until: Option<Timestamp>,
    pub limit: Option<u32>,
    pub cursor: Option<String>,
}

/// The query is the one of the arguments: from the start of the first day to the end of
/// the last one.
pub open spec fn is_asked(q: RunsListQuery, args: ListArgs, since: i64, until: i64) -> bool {
    &&& opt_view(q.status) == opt_view(args.status)
    &&& q.marked_by is None
    &&& q.since matches Some(t) && day_of(t) == since && crate::time::second_of_day(t) == 0
        && t.nanos == 0
    &&& q.until matches Some(t) && day_of(t) == until && crate::time::second_of_day(t) == 86_399
        && t.nanos == 0
    &&& q.limit == Some(args.limit)
    &&& opt_view(q.cursor) == opt_view(args.cursor)
}

/// What the server is asked for: from the start of the first day to the end of the
/// last one.
pub fn list_query(args: &ListArgs, since: i64, until: i64) -> (r: RunsListQuery)
    requires
        in_calendar(since as int),
        in_calendar(until as int),
    ensures
        is_asked(r, *args, since, until),
{
    RunsListQuery {
        status: crate::text::opt_owned(opt_str(&args.status)),
        marked_by: None,
        since: Some(crate::commands::runs::naive_to_utc(since, false)),
        until: Some(crate::commands::runs::naive_to_utc(until, true)),
        limit: Some(args.limit),
        cursor: crate::text::opt_owned(opt_str(&args.cursor)),
    }
}

/// The moments of a run are the calendar's.
pub open spec fn is_dated(run: CloudRun) -> bool {
    in_calendar(day_of(run.started_at)) && (run.finished_at matches Some(f) ==> in_calendar(
        day_of(f),
    ))
}

/// How long a run took, or a dash.
pub open spec fn duration_text(run: CloudRun) -> Seq<char> {
    match run.finished_at {
        Some(f) => signed_decimal(whole_millis(nanos_between(run.started_at, f))),
        None => "-"@,
    }
}

/// What people are told of a run that the server knows of.
pub open spec fn served_line(run: CloudRun) -> Seq<char> {
    padded_right(id_start(run.id@), 13) + " "@ + padded_right(ellipsized(run.status@, 10), 10) + " "@
        + padded_right(ellipsized(or_dash(opt_view(run.runtime)), 12), 12) + " "@ + padded_right(
        duration_text(run),
        8,
    ) + " "@ + decimal(run.marks@.len())
}

/// What people are told of a run that the server knows of.
pub fn show_served(run: &CloudRun) -> (r: String)
    requires
        is_dated(*run),
    ensures
        r@ == served_line(*run),
{
    let id = short_run_id(run.id.as_str());
    let id = pad_right(id.as_str(), 13);
    let status = cell(run.status.as_str(), 10);
    let runtime = cell(dash_for_none(&run.runtime), 12);
    let ms = match &run.finished_at {
        Some(f) => i64_text(signed_millis(&run.started_at, f)),
        None => "-".to_owned(),
    };
    let ms = pad_right(ms.as_str(), 8);
    let marks = usize_text(run.marks.len());
    let mut r = concat7(id.as_str(), " ", status.as_str(), " ", runtime.as_str(), " ", ms.as_str());
    r.append(" ");
    r.append(marks.as_str());
    r
}

/// What people are told of a listing of runs that the server knows of.
pub open spec fn served_text(
    s: Seq<CloudRun>,
    since: int,
    until: int,
    next_cursor: Option<Seq<char>>,
) -> Seq<Seq<char>> {
    if s.len() == 0 {
        seq![no_runs(since, until)]
    } else {
        let rows = seq!["run-id        status     runtime      dur(ms)  marks"@] + Seq::new(
            s.len(),
            |i: int| served_line(s[i]),
        );
        match next_cursor {
            Some(c) => rows.push(""@).push("more results: --cursor "@ + c),
            None => rows,
        }
    }
}

/// What references stand for.
pub open spec fn pointed(s: Seq<&CloudRun>) -> Seq<CloudRun> {
    Seq::new(s.len(), |i: int| *s[i])
}

/// The runs of a page that are listed.
pub fn select_served<'a>(
    args: &ListArgs,
    version_id: Option<&str>,
    runs: &'a Vec<CloudRun>,
) -> (r: Vec<&'a CloudRun>)
    ensures
        pointed(r@) == served(
            opt_view(args.agent),
            opt_str_view(version_id),
            opt_view(args.note_contains),
            runs@,
            runs@.len() as int,
        ),
        forall|j: int| 0 <= j < r@.len() ==> runs@.contains(*#[trigger] r@[j]),
{
    let mut out: Vec<&'a CloudRun> = Vec::new();
    let mut i: usize = 0;
    assert(pointed(out@) =~= seq![]);
    while i < runs.len()
        invariant
            i <= runs.len(),
            pointed(out@) == served(
                opt_view(args.agent),
                opt_str_view(version_id),
                opt_view(args.note_contains),
                runs@,
                i as int,
            ),
            forall|j: int| 0 <= j < out@.len() ==> runs@.contains(*#[trigger] out@[j]),
        decreases runs.len() - i,
    {
        if serves(&args.agent, version_id, &args.note_contains, &runs[i]) {
            let ghost was = pointed(out@);
            out.push(&runs[i]);
            assert(pointed(out@) =~= was.push(runs@[i as int]));
        }
        i += 1;
    }
    out
}

fn served_lines(
    runs: &Vec<&CloudRun>,
    since: i64,
    until: i64,
    next_cursor: Option<&str>,
) -> (r: Vec<String>)
    requires
        forall|j: int| 0 <= j < runs@.len() ==> is_dated(*#[trigger] runs@[j]),
    ensures
        views(r@) == served_text(
            pointed(runs@),
            since as int,
            until as int,
            opt_str_view(next_cursor),
        ),
{
    if runs.len() == 0 {
        assert(pointed(runs@).len() == 0);
        return say_no_runs(since, until);
    }
    let mut out: Vec<String> = Vec::new();
    out.push("run-id        status     runtime      dur(ms)  marks".to_owned());
    let mut i: usize = 0;
    while i < runs.len()
        invariant
            i <= runs.len(),
            forall|j: int| 0 <= j < runs@.len() ==> is_dated(*#[trigger] runs@[j]),
            out@.len() == i + 1,
            out@[0]@ == "run-id        status     runtime      dur(ms)  marks"@,
            forall|j: int| 0 <= j < i ==> (#[trigger] out@[j + 1])@ == served_line(*runs@[j]),
        decreases runs.len() - i,
    {
        out.push(show_served(runs[i]));
        i += 1;
    }
    assert(pointed(runs@).len() == runs@.len());
    assert forall|k: int| 0 < k < out@.len() implies (#[trigger] out@[k])@ == served_line(
        *runs@[k - 1],
    ) by {
        assert(out@[(k - 1) + 1]@ == served_line(*runs@[k - 1]));
    }
    assert(views(out@) =~= served_text(pointed(runs@), since as int, until as int, None));
    match next_cursor {
        Some(c) => {
            push_line(&mut out, "".to_owned());
            push_line(&mut out, prefixed("more results: --cursor ", c));
        },
        None => {},
    }
    out
}

fn served_json(runs: &Vec<&CloudRun>) -> (r: Json)
    ensures
        r.value() == JsonView::Array(forms(pointed(runs@))),
{
    let mut a: Vec<Json> = Vec::new();
    let mut i: usize = 0;
    while i < runs.len()
        invariant
            i <= runs.len(),
            a@.len() == i,
            forall|j: int| 0 <= j < i ==> (#[trigger] a@[j]).value() == (*runs@[j]).json(),
        decreases runs.len() - i,
    {
        a.push(runs[i].to_json());
        i += 1;
    }
    proof {
        lemma_array_value(a);
        assert(values(a@) =~= forms(pointed(runs@)));
    }
    Json::Array(a)
}

/// The listing tells of the runs of a page that are asked for.
pub open spec fn is_told(
    t: Told,
    args: ListArgs,
    version_id: Option<Seq<char>>,
    runs: Seq<CloudRun>,
    next_cursor: Option<Seq<char>>,
    since: i64,
    until: i64,
) -> bool {
    let s = served(
        opt_view(args.agent),
        version_id,
        opt_view(args.note_contains),
        runs,
        runs.len() as int,
    );
    &&& t.report.value() == list_report(
        "cloud"@,
        slug_parts(args.slug@).0,
        forms(s),
        since as int,
        until as int,
        next_cursor,
    )
    &&& views(t.lines@) == served_text(s, since as int, until as int, next_cursor)
}

/// Lists the runs of a page that the server sent.
pub fn cloud_list(
    args: &ListArgs,
    version_id: Option<&str>,
    runs: &Vec<CloudRun>,
    next_cursor: Option<&str>,
    since: i64,
    until: i64,
) -> (r: Told)
    requires
        forall|i: int| 0 <= i < runs@.len() ==> is_dated(#[trigger] runs@[i]),
    ensures
        is_told(
            r,
            *args,
            opt_str_view(version_id),
            runs@,
            opt_str_view(next_cursor),
            since,
            until,
        ),
{
    let (slug, _) = parse_slug_at_version(args.slug.as_str());
    let items = select_served(args, version_id, runs);
    assert forall|j: int| 0 <= j < items@.len() implies is_dated(*#[trigger] items@[j]) by {
        assert(runs@.contains(*items@[j]));
    }
    let j = served_json(&items);
    assert(forms(pointed(items@)).len() == items@.len());
    Told {
        report: list_json("cloud", slug, j, items.len(), since, until, next_cursor),
        lines: served_lines(&items, since, until, next_cursor),
    }
}

} // verus!
