//! `knack mark`: how a run ended.

use vstd::prelude::*;

use crate::errors::{user_error_hint, CliError, ErrorView};
use crate::github::runs::{RunSnapshot, SnapshotView};
use crate::json::{
    forms, json_list, member_views, nat_or_null, no_members, opt_nat, text_or_null, text_values,
    with_member, Json, JsonForm, JsonView,
};
use crate::numbers::{decimal, u64_text, usize_text};
use crate::output::Told;
use crate::text::{
    clone_strings, concat3, concat4, join_strings, joined, opt_owned, opt_str, opt_str_view,
    opt_view, pieces, push_line, slice_views, split, trim, trimmed, views,
};
use crate::time::{render_timestamp, timestamp_rendered, Timestamp};

pub mod laws;

verus! {

/// The arguments of `knack mark`.
#[derive(Debug, Clone)]
pub struct MarkArgs {
    /// The run, or several with commas between them.
    pub run_id: String,
    pub outcome: Option<String>,
    pub status_flag: Option<String>,
    pub note: Option<String>,
    pub reason: Option<String>,
    pub output: Vec<String>,
    pub no_push: bool,
}

/// What is marked.
#[derive(Debug)]
pub struct MarkRequest {
    pub run_ids: Vec<String>,
    pub status: String,
    pub note: Option<String>,
    pub outputs: Vec<String>,
}

/// The first of the two that is given.
pub open spec fn either(a: Option<Seq<char>>, b: Option<Seq<char>>) -> Option<Seq<char>> {
    if a is Some {
        a
    } else {
        b
    }
}

/// The ids among the first `n` pieces: those that are not blank.
pub open spec fn ids_in(s: Seq<Seq<char>>, n: int) -> Seq<Seq<char>>
    decreases n,
{
    if n <= 0 {
        seq![]
    } else if trimmed(s[n - 1]).len() == 0 {
        ids_in(s, n - 1)
    } else {
        ids_in(s, n - 1).push(trimmed(s[n - 1]))
    }
}

/// The ids in a text, with commas between them.
pub open spec fn run_ids_of(s: Seq<char>) -> Seq<Seq<char>> {
    ids_in(pieces(s, ","@), pieces(s, ","@).len() as int)
}

/// The ids in a text, with commas between them.
pub fn split_ids(s: &str) -> (r: Vec<String>)
    ensures
        views(r@) == run_ids_of(s@),
{
    proof {
        reveal_strlit(",");
    }
    let parts = split(s, ",");
    let ghost p = pieces(s@, ","@);
    let mut out: Vec<String> = Vec::new();
    let mut i: usize = 0;
    assert(views(out@) =~= seq![]);
    assert(slice_views(parts@).len() == parts@.len());
    while i < parts.len()
        invariant
            i <= parts.len(),
            p == slice_views(parts@),
            views(out@) == ids_in(p, i as int),
        decreases parts.len() - i,
    {
        assert(p[i as int] == parts@[i as int]@);
        let t = trim(parts[i]);
        if !t.is_empty() {
            let ghost was = views(out@);
            out.push(t.to_owned());
            assert(views(out@) =~= was.push(t@));
        }
        i += 1;
    }
    out
}

/// What is marked: a status has to be said, in one way or the other, and a run.
pub fn mark_request(args: &MarkArgs) -> (r: Result<MarkRequest, CliError>)
    ensures
        match either(opt_view(args.outcome), opt_view(args.status_flag)) {
            None => r is Err && r->Err_0@ == (ErrorView::User {
                code: "MARK_MISSING_STATUS"@,
                message: "missing status"@,
                hint: Some("knack mark <run-id> succeeded   (or `failed`)"@),
            }),
            Some(status) => if run_ids_of(args.run_id@).len() == 0 {
                r is Err && r->Err_0@ == (ErrorView::User {
                    code: "MARK_MISSING_RUN_ID"@,
                    message: "no run ids supplied"@,
                    hint: Some("knack mark <run-id>[,<run-id>...] <status>"@),
                })
            } else {
                r is Ok && r->Ok_0.status@ == status && views(r->Ok_0.run_ids@) == run_ids_of(
                    args.run_id@,
                ) && opt_view(r->Ok_0.note) == either(opt_view(args.note), opt_view(args.reason))
                    && views(r->Ok_0.outputs@) == views(args.output@)
            },
        },
{
    let status = match (&args.outcome, &args.status_flag) {
        (Some(s), _) => s.clone(),
        (None, Some(s)) => s.clone(),
        (None, None) => {
            return Err(
                user_error_hint(
                    "MARK_MISSING_STATUS",
                    "missing status".to_owned(),
                    "knack mark <run-id> succeeded   (or `failed`)",
                ),
            );
        },
    };
    let note = if args.note.is_some() {
        opt_owned(opt_str(&args.note))
    } else {
        opt_owned(opt_str(&args.reason))
    };
    let run_ids = split_ids(args.run_id.as_str());
    assert(views(run_ids@).len() == run_ids@.len());
    if run_ids.len() == 0 {
        return Err(
            user_error_hint(
                "MARK_MISSING_RUN_ID",
                "no run ids supplied".to_owned(),
                "knack mark <run-id>[,<run-id>...] <status>",
            ),
        );
    }
    Ok(MarkRequest { run_ids, status, note, outputs: clone_strings(&args.output) })
}

// ---------------------------------------------------------------------------
// Several runs
// ---------------------------------------------------------------------------

/// A run that could not be marked.
#[derive(Debug)]
pub struct MarkFailure {
    pub run_id: String,
    pub error: String,
}

impl JsonForm for MarkFailure {
    open spec fn json(&self) -> JsonView {
        JsonView::Object(
            seq![
                ("run_id"@, JsonView::Text(self.run_id@)),
                ("error"@, JsonView::Text(self.error@)),
            ],
        )
    }

    fn to_json(&self) -> (r: Json) {
        let m = with_member(no_members(), "run_id", Json::text(self.run_id.as_str()));
        let m = with_member(m, "error", Json::text(self.error.as_str()));
        assert(member_views(m@) =~= self.json()->Object_0);
        Json::object(m)
    }
}

/// What became of several runs.
#[derive(Debug)]
pub struct BulkMarks {
    pub marked: Vec<String>,
    pub failed: Vec<MarkFailure>,
}

/// The runs among the first `n` that were marked.
pub open spec fn marked_ids(
    ids: Seq<String>,
    results: Seq<Result<(), String>>,
    n: int,
) -> Seq<Seq<char>>
    decreases n,
{
    if n <= 0 {
        seq![]
    } else if results[n - 1] is Ok {
        marked_ids(ids, results, n - 1).push(ids[n - 1]@)
    } else {
        marked_ids(ids, results, n - 1)
    }
}

/// The runs among the first `n` that could not be marked, each with the reason.
pub open spec fn failed_ids(ids: Seq<String>, results: Seq<Result<(), String>>, n: int) -> Seq<
    (Seq<char>, Seq<char>),
>
    decreases n,
{
    if n <= 0 {
        seq![]
    } else {
        match results[n - 1] {
            Ok(_) => failed_ids(ids, results, n - 1),
            Err(e) => failed_ids(ids, results, n - 1).push((ids[n - 1]@, e@)),
        }
    }
}

pub open spec fn failure_views(v: Seq<MarkFailure>) -> Seq<(Seq<char>, Seq<char>)> {
    Seq::new(v.len(), |i: int| (v[i].run_id@, v[i].error@))
}

/// What became of several runs, by what became of each. One that fails does not keep
/// the others from being marked.
pub fn bulk(ids: &Vec<String>, results: &Vec<Result<(), String>>) -> (r: BulkMarks)
    requires
        ids@.len() == results@.len(),
    ensures
        views(r.marked@) == marked_ids(ids@, results@, ids@.len() as int),
        failure_views(r.failed@) == failed_ids(ids@, results@, ids@.len() as int),
        r.marked@.len() + r.failed@.len() == ids@.len(),
{
    let mut marked: Vec<String> = Vec::new();
    let mut failed: Vec<MarkFailure> = Vec::new();
    let mut i: usize = 0;
    assert(views(marked@) =~= seq![]);
    assert(failure_views(failed@) =~= seq![]);
    while i < ids.len()
        invariant
            i <= ids.len(),
            ids@.len() == results@.len(),
            views(marked@) == marked_ids(ids@, results@, i as int),
            failure_views(failed@) == failed_ids(ids@, results@, i as int),
            marked@.len() + failed@.len() == i,
        decreases ids.len() - i,
    {
        match &results[i] {
            Ok(_) => {
                let ghost was = views(marked@);
                marked.push(ids[i].clone());
                assert(views(marked@) =~= was.push(ids@[i as int]@));
            },
            Err(e) => {
                let ghost was = failure_views(failed@);
                failed.push(MarkFailure { run_id: ids[i].clone(), error: e.clone() });
                assert(failure_views(failed@) =~= was.push((ids@[i as int]@, e@)));
            },
        }
        i += 1;
    }
    BulkMarks { marked, failed }
}

/// What several marks end with: an error where any failed.
pub fn bulk_result(marks: &BulkMarks, total: usize) -> (r: Result<(), CliError>)
    ensures
        if marks.failed@.len() == 0 {
            r is Ok
        } else {
            r is Err && r->Err_0@ == ErrorView::Internal(
                decimal(marks.failed@.len()) + "/"@ + decimal(total as nat) + " marks failed"@,
            )
        },
{
    if marks.failed.len() == 0 {
        return Ok(());
    }
    let a = usize_text(marks.failed.len());
    let b = usize_text(total);
    Err(CliError::Internal(concat4(a.as_str(), "/", b.as_str(), " marks failed")))
}

/// What is reported of several marks. A repository is named as the backend.
pub open spec fn bulk_report(
    status: Seq<char>,
    note: Option<Seq<char>>,
    marks: BulkMarks,
    total: nat,
    github: bool,
) -> JsonView {
    let s = seq![
        ("status"@, JsonView::Text(status)),
        ("note"@, text_or_null(note)),
        ("marked"@, JsonView::Array(text_values(views(marks.marked@)))),
        ("failed"@, JsonView::Array(forms(marks.failed@))),
        ("total"@, JsonView::Int(total as int)),
        ("ok"@, JsonView::Bool(marks.failed@.len() == 0)),
    ];
    JsonView::Object(
        if github {
            s.push(("backend"@, JsonView::Text("github"@)))
        } else {
            s
        },
    )
}

/// What is reported of several marks.
pub fn bulk_json(
    status: &str,
    note: Option<&str>,
    marks: &BulkMarks,
    total: usize,
    github: bool,
) -> (r: Json)
    ensures
        r.value() == bulk_report(status@, opt_str_view(note), *marks, total as nat, github),
{
    let m = with_member(no_members(), "status", Json::text(status));
    let m = with_member(m, "note", Json::opt_text(note));
    let m = with_member(m, "marked", Json::texts(&marks.marked));
    let m = with_member(m, "failed", json_list(&marks.failed));
    let m = with_member(m, "total", Json::Nat(total as u64));
    let m = with_member(m, "ok", Json::Bool(marks.failed.len() == 0));
    let m = if github {
        with_member(m, "backend", Json::text("github"))
    } else {
        m
    };
    assert(member_views(m@) =~= bulk_report(
        status@,
        opt_str_view(note),
        *marks,
        total as nat,
        github,
    )->Object_0);
    Json::object(m)
}

// ---------------------------------------------------------------------------
// One run
// ---------------------------------------------------------------------------

/// A moment as text, or nothing.
pub open spec fn moment_json(t: Option<Timestamp>) -> JsonView {
    match t {
        Some(t) => text_or_null(timestamp_rendered(t)),
        None => JsonView::Null,
    }
}

/// A moment as text, or nothing.
pub fn moment(t: &Option<Timestamp>) -> (r: Json)
    ensures
        r.value() == moment_json(*t),
{
    match t {
        Some(t) => {
            let s = render_timestamp(t);
            Json::opt_text(opt_str(&s))
        },
        None => Json::Null,
    }
}

/// What is reported of a run that was marked in a repository.
pub open spec fn mark_report(s: SnapshotView) -> JsonView {
    JsonView::Object(
        seq![
            ("run_id"@, JsonView::Text(s.run_id)),
            ("status"@, JsonView::Text(s.status)),
            ("note"@, text_or_null(s.note)),
            ("skill"@, text_or_null(s.skill)),
            ("version"@, text_or_null(s.version)),
            ("agent"@, text_or_null(s.agent)),
            ("inputs"@, JsonView::Array(text_values(s.inputs))),
            ("outputs"@, JsonView::Array(text_values(s.outputs))),
            ("started_at"@, moment_json(s.started_at)),
            ("completed_at"@, moment_json(s.completed_at)),
            ("duration_ms"@, nat_or_null(s.duration_ms)),
            ("backend"@, JsonView::Text("github"@)),
        ],
    )
}

/// What is reported of a run that was marked in a repository.
pub fn github_mark(s: &RunSnapshot) -> (r: Json)
    ensures
        r.value() == mark_report(s@),
{
    let m = with_member(no_members(), "run_id", Json::text(s.run_id.as_str()));
    let m = with_member(m, "status", Json::text(s.status.as_str()));
    let m = with_member(m, "note", Json::opt_text(opt_str(&s.note)));
    let m = with_member(m, "skill", Json::opt_text(opt_str(&s.skill)));
    let m = with_member(m, "version", Json::opt_text(opt_str(&s.version)));
    let m = with_member(m, "agent", Json::opt_text(opt_str(&s.agent)));
    let m = with_member(m, "inputs", Json::texts(&s.inputs));
    let m = with_member(m, "outputs", Json::texts(&s.outputs));
    let m = with_member(m, "started_at", moment(&s.started_at));
    let m = with_member(m, "completed_at", moment(&s.completed_at));
    let m = with_member(m, "duration_ms", opt_nat(s.duration_ms));
    let m = with_member(m, "backend", Json::text("github"));
    assert(member_views(m@) =~= mark_report(s@)->Object_0);
    Json::object(m)
}

/// What people are told of a run that was marked in a repository.
pub open spec fn mark_text(s: SnapshotView) -> Seq<Seq<char>> {
    let first = seq!["✓ marked "@ + s.run_id + " "@ + s.status];
    let second = match s.duration_ms {
        Some(ms) => first.push("  duration: "@ + decimal(ms as nat) + " ms"@),
        None => first,
    };
    let third = if s.outputs.len() > 0 {
        second.push("  outputs: "@ + joined(s.outputs, ", "@))
    } else {
        second
    };
    match s.note {
        Some(n) => third.push("  note: "@ + n),
        None => third,
    }
}

/// What people are told of a run that was marked in a repository.
pub fn mark_lines(s: &RunSnapshot) -> (r: Vec<String>)
    ensures
        views(r@) == mark_text(s@),
{
    let mut out: Vec<String> = Vec::new();
    out.push(concat4("✓ marked ", s.run_id.as_str(), " ", s.status.as_str()));
    assert(views(out@) =~= seq!["✓ marked "@ + s.run_id@ + " "@ + s.status@]);
    match s.duration_ms {
        Some(ms) => {
            let n = u64_text(ms);
            push_line(&mut out, concat3("  duration: ", n.as_str(), " ms"));
        },
        None => {},
    }
    assert(views(s.outputs@).len() == s.outputs@.len());
    if s.outputs.len() > 0 {
        let list = join_strings(&s.outputs, ", ");
        push_line(&mut out, crate::errors::prefixed("  outputs: ", list.as_str()));
    }
    match &s.note {
        Some(n) => {
            push_line(&mut out, crate::errors::prefixed("  note: ", n.as_str()));
        },
        None => {},
    }
    out
}

/// The error of a run that could not be marked.
pub fn mark_failed(e: &str) -> (r: CliError)
    ensures
        r@ == ErrorView::NotFound("mark run: "@ + e@),
{
    CliError::NotFound(crate::errors::prefixed("mark run: ", e))
}

/// Every run is either marked or told of as failed, and each in its place.
pub proof fn law_no_run_is_lost(ids: Seq<String>, results: Seq<Result<(), String>>, n: int)
    requires
        0 <= n <= ids.len(),
        ids.len() == results.len(),
    ensures
        marked_ids(ids, results, n).len() + failed_ids(ids, results, n).len() == n,
    decreases n,
{
    if n > 0 {
        law_no_run_is_lost(ids, results, n - 1);
    }
}

/// What people are told of several marks: how many runs were marked, and each that was
/// not.
pub fn bulk_lines(status: &str, marks: &BulkMarks) -> (r: Vec<String>)
    ensures
        views(r@) == seq![
            "marked "@ + decimal(marks.marked@.len()) + " run(s) "@ + status@,
        ] + Seq::new(
            marks.failed@.len(),
            |i: int| "  ! "@ + marks.failed@[i].run_id@ + ": "@ + marks.failed@[i].error@,
        ),
{
    let ghost told = Seq::new(
        marks.failed@.len(),
        |i: int| "  ! "@ + marks.failed@[i].run_id@ + ": "@ + marks.failed@[i].error@,
    );
    let n = usize_text(marks.marked.len());
    let mut out: Vec<String> = Vec::new();
    out.push(concat4("marked ", n.as_str(), " run(s) ", status));
    let ghost first = "marked "@ + decimal(marks.marked@.len()) + " run(s) "@ + status@;
    let mut i: usize = 0;
    while i < marks.failed.len()
        invariant
            i <= marks.failed.len(),
            out@.len() == i + 1,
            out@[0]@ == first,
            told == Seq::new(
                marks.failed@.len(),
                |i: int| "  ! "@ + marks.failed@[i].run_id@ + ": "@ + marks.failed@[i].error@,
            ),
            forall|j: int| 1 <= j <= i ==> (#[trigger] out@[j])@ == told[j - 1],
        decreases marks.failed.len() - i,
    {
        let f = &marks.failed[i];
        out.push(concat4("  ! ", f.run_id.as_str(), ": ", f.error.as_str()));
        i += 1;
    }
    assert(views(out@) =~= seq![first] + told);
    out
}

/// What is reported of a run that the server marked.
pub open spec fn cloud_mark_report(
    run_id: Seq<char>,
    status: Seq<char>,
    note: Option<Seq<char>>,
    marks: nat,
) -> JsonView {
    JsonView::Object(
        seq![
            ("run_id"@, JsonView::Text(run_id)),
            ("status"@, JsonView::Text(status)),
            ("note"@, text_or_null(note)),
            ("marks_count"@, JsonView::Int(marks as int)),
        ],
    )
}

/// What is told of a run that the server marked, by how many marks it has now.
pub fn cloud_mark_single(run_id: &str, status: &str, note: Option<&str>, marks: usize) -> (r: Told)
    ensures
        r.report.value() == cloud_mark_report(run_id@, status@, opt_str_view(note), marks as nat),
        views(r.lines@) == seq!["✓ marked "@ + run_id@ + " "@ + status@],
{
    let m = with_member(no_members(), "run_id", Json::text(run_id));
    let m = with_member(m, "status", Json::text(status));
    let m = with_member(m, "note", Json::opt_text(note));
    let m = with_member(m, "marks_count", Json::Nat(marks as u64));
    assert(member_views(m@) =~= cloud_mark_report(
        run_id@,
        status@,
        opt_str_view(note),
        marks as nat,
    )->Object_0);
    let mut lines: Vec<String> = Vec::new();
    lines.push(concat4("✓ marked ", run_id, " ", status));
    assert(views(lines@) =~= seq!["✓ marked "@ + run_id@ + " "@ + status@]);
    Told { report: Json::object(m), lines }
}

} // verus!
