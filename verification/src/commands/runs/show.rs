//! `knack runs show`: one run, with what went in and what came out.

use vstd::prelude::*;

use crate::commands::mark::{moment, moment_json};
use crate::commands::runs::list::{
    copy_all, dash_for_none, or_dash, run_members, with_run, CloudRun,
};
use crate::errors::{prefixed, CliError, ErrorView};
use crate::github::runs::{find_run, run_found, DEFAULT_LOOKBACK_DAYS, RunSnapshot, SnapshotView};
use crate::json::{
    copy, member_views, no_members, text_field, text_or_null, values, with_member, Json, JsonView,
};
use crate::numbers::{decimal, u64_text};
use crate::output::Told;
use crate::text::{
    concat3, concat4, concat5, join_strings, joined, opt_str, opt_view, pad_right, padded_right,
    push_line, views,
};
use crate::time::{
    day_of, in_calendar, nanos_between, offset_rendered, render_with_offset, signed_millis,
    whole_millis, Timestamp,
};

verus! {

/// The arguments of `knack runs show`.
#[derive(Debug, Clone)]
pub struct ShowArgs {
    pub run_id: String,
}

// ---------------------------------------------------------------------------
// A run in a repository
// ---------------------------------------------------------------------------

/// What is reported of a run in a repository.
pub open spec fn show_report(s: SnapshotView) -> JsonView {
    JsonView::Object(seq![("backend"@, JsonView::Text("github"@))] + run_members(s))
}

/// A line, where there is something to say.
pub open spec fn line_if(out: Seq<Seq<char>>, said: bool, line: Seq<char>) -> Seq<Seq<char>> {
    if said {
        out.push(line)
    } else {
        out
    }
}

/// A moment as text, where it has one.
pub open spec fn moment_line(out: Seq<Seq<char>>, label: Seq<char>, t: Option<Timestamp>) -> Seq<
    Seq<char>,
> {
    match t {
        Some(t) => match offset_rendered(t) {
            Some(s) => out.push(label + s),
            None => out,
        },
        None => out,
    }
}

fn push_moment(out: &mut Vec<String>, label: &str, t: &Option<Timestamp>)
    ensures
        views(final(out)@) == moment_line(views(old(out)@), label@, *t),
{
    match t {
        Some(t) => match render_with_offset(t) {
            Some(s) => {
                push_line(out, prefixed(label, s.as_str()));
            },
            None => {},
        },
        None => {},
    }
}

/// The name of a skill with the version behind it.
pub open spec fn skill_label(skill: Option<Seq<char>>, version: Option<Seq<char>>) -> Seq<char> {
    or_dash(skill) + match version {
        Some(v) => "@"@ + v,
        None => ""@,
    }
}

/// What people are told of a run in a repository.
pub open spec fn show_text(s: SnapshotView) -> Seq<Seq<char>> {
    let a = seq![
        "run-id:      "@ + s.run_id,
        "skill:       "@ + skill_label(s.skill, s.version),
        "agent:       "@ + or_dash(s.agent),
        "status:      "@ + s.status,
    ];
    let b = match s.duration_ms {
        Some(ms) => a.push("duration:    "@ + decimal(ms as nat) + " ms"@),
        None => a,
    };
    let c = moment_line(b, "started:     "@, s.started_at);
    let d = moment_line(c, "completed:   "@, s.completed_at);
    let e = line_if(d, s.inputs.len() > 0, "inputs:      "@ + joined(s.inputs, ", "@));
    let f = line_if(e, s.outputs.len() > 0, "outputs:     "@ + joined(s.outputs, ", "@));
    match s.note {
        Some(n) => f.push("note:        "@ + n),
        None => f,
    }
}

fn show_lines(s: &RunSnapshot) -> (r: Vec<String>)
    ensures
        views(r@) == show_text(s@),
{
    let mut out: Vec<String> = Vec::new();
    assert(views(out@) =~= seq![]);
    push_line(&mut out, prefixed("run-id:      ", s.run_id.as_str()));
    let tail = match &s.version {
        Some(v) => prefixed("@", v.as_str()),
        None => "".to_owned(),
    };
    let label = prefixed(dash_for_none(&s.skill), tail.as_str());
    push_line(&mut out, prefixed("skill:       ", label.as_str()));
    push_line(&mut out, prefixed("agent:       ", dash_for_none(&s.agent)));
    push_line(&mut out, prefixed("status:      ", s.status.as_str()));
    assert(views(out@) =~= seq![
        "run-id:      "@ + s@.run_id,
        "skill:       "@ + skill_label(s@.skill, s@.version),
        "agent:       "@ + or_dash(s@.agent),
        "status:      "@ + s@.status,
    ]);
    match s.duration_ms {
        Some(ms) => {
            let n = u64_text(ms);
            push_line(&mut out, concat3("duration:    ", n.as_str(), " ms"));
        },
        None => {},
    }
    push_moment(&mut out, "started:     ", &s.started_at);
    push_moment(&mut out, "completed:   ", &s.completed_at);
    assert(views(s.inputs@).len() == s.inputs@.len());
    assert(views(s.outputs@).len() == s.outputs@.len());
    if s.inputs.len() > 0 {
        let list = join_strings(&s.inputs, ", ");
        push_line(&mut out, prefixed("inputs:      ", list.as_str()));
    }
    if s.outputs.len() > 0 {
        let list = join_strings(&s.outputs, ", ");
        push_line(&mut out, prefixed("outputs:     ", list.as_str()));
    }
    match &s.note {
        Some(n) => {
            push_line(&mut out, prefixed("note:        ", n.as_str()));
        },
        None => {},
    }
    out
}

/// Shows a run of a repository, by what the recent and the older day files hold.
pub fn github_show(run_id: &str, recent: &Vec<Vec<String>>, older: &Vec<Vec<String>>) -> (r: Result<
    Told,
    CliError,
>)
    ensures
        match run_found(recent@, older@, run_id@) {
            Some(s) => r is Ok && r->Ok_0.report.value() == show_report(s) && views(
                r->Ok_0.lines@,
            ) == show_text(s),
            None => r is Err && r->Err_0@ == ErrorView::NotFound(
                "run "@ + run_id@ + " not found in last "@ + decimal(DEFAULT_LOOKBACK_DAYS as nat)
                    + " days"@,
            ),
        },
{
    match find_run(recent, older, run_id) {
        Some(s) => {
            let m = with_member(no_members(), "backend", Json::text("github"));
            let m = with_run(m, &s);
            assert(member_views(m@) =~= show_report(s@)->Object_0);
            Ok(Told { report: Json::object(m), lines: show_lines(&s) })
        },
        None => {
            let days = u64_text(DEFAULT_LOOKBACK_DAYS as u64);
            Err(
                CliError::NotFound(
                    concat5("run ", run_id, " not found in last ", days.as_str(), " days"),
                ),
            )
        },
    }
}

/// The error of a run that could not be read.
pub fn read_failed(e: &str) -> (r: CliError)
    ensures
        r@ == ErrorView::Internal("read run: "@ + e@),
{
    CliError::Internal(prefixed("read run: ", e))
}

// ---------------------------------------------------------------------------
// A run that the server knows of
// ---------------------------------------------------------------------------

/// How long a run took, in milliseconds: never less than nothing.
pub open spec fn duration_of(started: Timestamp, finished: Option<Timestamp>) -> Option<int> {
    match finished {
        Some(f) => {
            let ms = whole_millis(nanos_between(started, f));
            Some(
                if ms > 0 {
                    ms
                } else {
                    0
                },
            )
        },
        None => None,
    }
}

fn duration(started: &Timestamp, finished: &Option<Timestamp>) -> (r: Option<u64>)
    requires
        in_calendar(day_of(*started)),
        *finished matches Some(f) ==> in_calendar(day_of(f)),
    ensures
        match r {
            Some(n) => duration_of(*started, *finished) == Some(n as int),
            None => duration_of(*started, *finished) is None,
        },
{
    match finished {
        Some(f) => {
            let ms = signed_millis(started, f);
            if ms > 0 {
                Some(ms as u64)
            } else {
                Some(0)
            }
        },
        None => None,
    }
}

/// What is reported of a run that the server knows of.
pub open spec fn served_report(run: CloudRun) -> JsonView {
    JsonView::Object(
        seq![
            ("backend"@, JsonView::Text("cloud"@)),
            ("run_id"@, JsonView::Text(run.id@)),
            ("skill_version_id"@, JsonView::Text(run.skill_version_id@)),
            ("runtime"@, text_or_null(opt_view(run.runtime))),
            ("agent_id"@, text_or_null(opt_view(run.agent_id))),
            ("status"@, JsonView::Text(run.status@)),
            ("started_at"@, moment_json(Some(run.started_at))),
            ("finished_at"@, moment_json(run.finished_at)),
            (
                "duration_ms"@,
                match duration_of(run.started_at, run.finished_at) {
                    Some(ms) => JsonView::Int(ms),
                    None => JsonView::Null,
                },
            ),
            ("inputs_summary"@, run.inputs_summary.value()),
            ("outputs_summary"@, run.outputs_summary.value()),
            ("files_touched"@, run.files_touched.value()),
            ("marks"@, JsonView::Array(values(run.marks@))),
        ],
    )
}

fn served_json(run: &CloudRun, ms: Option<u64>) -> (r: Json)
    requires
        match ms {
            Some(n) => duration_of(run.started_at, run.finished_at) == Some(n as int),
            None => duration_of(run.started_at, run.finished_at) is None,
        },
    ensures
        r.value() == served_report(*run),
{
    let m = with_member(no_members(), "backend", Json::text("cloud"));
    let m = with_member(m, "run_id", Json::text(run.id.as_str()));
    let m = with_member(m, "skill_version_id", Json::text(run.skill_version_id.as_str()));
    let m = with_member(m, "runtime", Json::opt_text(opt_str(&run.runtime)));
    let m = with_member(m, "agent_id", Json::opt_text(opt_str(&run.agent_id)));
    let m = with_member(m, "status", Json::text(run.status.as_str()));
    let m = with_member(m, "started_at", moment(&Some(run.started_at)));
    let m = with_member(m, "finished_at", moment(&run.finished_at));
    let m = with_member(m, "duration_ms", crate::json::opt_nat(ms));
    let m = with_member(m, "inputs_summary", copy(&run.inputs_summary));
    let m = with_member(m, "outputs_summary", copy(&run.outputs_summary));
    let m = with_member(m, "files_touched", copy(&run.files_touched));
    let m = with_member(m, "marks", copy_all(&run.marks));
    assert(member_views(m@) =~= served_report(*run)->Object_0);
    Json::object(m)
}

/// What people are told of a mark.
pub open spec fn mark_line(mark: JsonView) -> Seq<char> {
    "  · "@ + padded_right(
        match text_field(mark, "status"@) {
            Some(s) => s,
            None => "?"@,
        },
        10,
    ) + " "@ + match text_field(mark, "note"@) {
        Some(s) => s,
        None => ""@,
    }
}

fn show_mark(mark: &Json) -> (r: String)
    ensures
        r@ == mark_line(mark.value()),
{
    let status = match mark.get_str("status") {
        Some(s) => s,
        None => "?",
    };
    let status = pad_right(status, 10);
    let note = match mark.get_str("note") {
        Some(s) => s,
        None => "",
    };
    concat4("  · ", status.as_str(), " ", note)
}

/// What people are told of a run that the server knows of.
pub open spec fn served_text(run: CloudRun) -> Seq<Seq<char>> {
    let a = seq![
        "run-id:      "@ + run.id@,
        "status:      "@ + run.status@,
        "runtime:     "@ + or_dash(opt_view(run.runtime)),
    ];
    let b = match duration_of(run.started_at, run.finished_at) {
        Some(ms) => a.push("duration:    "@ + decimal(ms as nat) + " ms"@),
        None => a,
    };
    let c = moment_line(b, "started:     "@, Some(run.started_at));
    let d = moment_line(c, "finished:    "@, run.finished_at);
    if run.marks@.len() > 0 {
        d.push("marks:"@) + Seq::new(run.marks@.len(), |i: int| mark_line(run.marks@[i].value()))
    } else {
        d
    }
}

/// Shows a run that the server knows of.
pub fn cloud_show(run: &CloudRun) -> (r: Told)
    requires
        crate::commands::runs::list::is_dated(*run),
    ensures
        r.report.value() == served_report(*run),
        views(r.lines@) == served_text(*run),
{
    let ms = duration(&run.started_at, &run.finished_at);
    let mut out: Vec<String> = Vec::new();
    assert(views(out@) =~= seq![]);
    push_line(&mut out, prefixed("run-id:      ", run.id.as_str()));
    push_line(&mut out, prefixed("status:      ", run.status.as_str()));
    push_line(&mut out, prefixed("runtime:     ", dash_for_none(&run.runtime)));
    assert(views(out@) =~= seq![
        "run-id:      "@ + run.id@,
        "status:      "@ + run.status@,
        "runtime:     "@ + or_dash(opt_view(run.runtime)),
    ]);
    match ms {
        Some(n) => {
            let n = u64_text(n);
            push_line(&mut out, concat3("duration:    ", n.as_str(), " ms"));
        },
        None => {},
    }
    push_moment(&mut out, "started:     ", &Some(run.started_at));
    push_moment(&mut out, "finished:    ", &run.finished_at);
    if run.marks.len() > 0 {
        push_line(&mut out, "marks:".to_owned());
        let ghost start = views(out@);
        let mut i: usize = 0;
        assert(views(out@) =~= start + Seq::new(
            0,
            |j: int| mark_line(run.marks@[j].value()),
        ));
        while i < run.marks.len()
            invariant
                i <= run.marks.len(),
                views(out@) == start + Seq::new(
                    i as nat,
                    |j: int| mark_line(run.marks@[j].value()),
                ),
            decreases run.marks.len() - i,
        {
            let ghost was = views(out@);
            push_line(&mut out, show_mark(&run.marks[i]));
            i += 1;
            assert(views(out@) =~= start + Seq::new(
                i as nat,
                |j: int| mark_line(run.marks@[j].value()),
            ));
        }
    }
    Told { report: served_json(run, ms), lines: out }
}

} // verus!
