//! What programs and people are told, item by item.

use vstd::prelude::*;

use crate::commands::debug::{connectivity_text, probe_line, ProbeResult};
use crate::commands::export::{export_json_of, export_text, ExportReport};
use crate::commands::install::installed::Scope;
use crate::commands::link::{
    link_lines, link_report, outcome_json, outcome_line, unlink_text, OutcomeView,
};
use crate::commands::mark::{mark_report, mark_text, moment_json};
use crate::commands::publish::flow::{dry_run_text, packed_line, shim_lines, shims_report};
use crate::commands::publish::PublishArgs;
use crate::commands::pull::{pull_report, pull_text};
use crate::commands::run::{input_json, inputs_json};
use crate::commands::runs::diff::{diff_text, Bucket};
use crate::commands::runs::list::{
    list_report, list_text, or_dash, run_line, run_members, run_objects, served_line, CloudRun,
};
use crate::commands::runs::overview::{overview_report, overview_text, skill_row, worse_skills, RatedSkill};
use crate::commands::runs::show::{mark_line, show_text};
use crate::commands::runs::stats::{
    bucket_row, key_object, note_line, notes_text, stats_report, stats_text, RatedBucket,
};
use crate::commands::search::{found_text, hit_line, query_of, FoundSkill};
use crate::commands::sync::{
    current_line, removed_line, report_text, skipped_line, sync_report, written_line, SyncReport,
};
use crate::github::runs::SnapshotView;
use crate::json::{forms, nat_or_null, text_or_null, text_values, values, Json, JsonForm, JsonView};
use crate::numbers::decimal;
use crate::text::{joined, views};

verus! {

/// Each value of a list is told, in its order.
pub proof fn law_each_value_is_told<T: JsonForm>(s: Seq<T>, v: Seq<Json>, i: int)
    ensures
        forms(s).len() == s.len(),
        0 <= i < s.len() ==> forms(s)[i] == s[i].json(),
        values(v).len() == v.len(),
        0 <= i < v.len() ==> values(v)[i] == v[i].value(),
{
}

// ---------------------------------------------------------------------------
// Runs
// ---------------------------------------------------------------------------

/// Each run has a line below the head of the list; without runs there is one line.
pub proof fn law_each_run_has_its_line(s: Seq<SnapshotView>, since: int, until: int, i: int)
    ensures
        s.len() == 0 ==> list_text(s, since, until).len() == 1,
        s.len() > 0 ==> list_text(s, since, until).len() == s.len() + 1,
        0 <= i < s.len() ==> list_text(s, since, until)[i + 1] == run_line(s[i]),
        run_objects(s).len() == s.len(),
        0 <= i < s.len() ==> run_objects(s)[i] == JsonView::Object(run_members(s[i])),
{
}

/// Each run that the server knows of has a line too; where there is another page the last
/// line tells how to get it.
pub proof fn law_each_served_run_has_its_line(
    s: Seq<CloudRun>,
    since: int,
    until: int,
    cursor: Seq<char>,
    i: int,
)
    requires
        s.len() > 0,
    ensures
        ({
            let last = crate::commands::runs::list::served_text(s, since, until, None);
            let more = crate::commands::runs::list::served_text(s, since, until, Some(cursor));
            &&& last.len() == s.len() + 1
            &&& more.len() == s.len() + 3
            &&& 0 <= i < s.len() ==> last[i + 1] == served_line(s[i]) && more[i + 1]
                == served_line(s[i])
            &&& more.last() == "more results: --cursor "@ + cursor
        }),
{
}

/// A listing tells how many items it has, and all of them.
pub proof fn law_listings_count_their_items(
    backend: Seq<char>,
    slug: Seq<char>,
    items: Seq<JsonView>,
    since: int,
    until: int,
    next: Option<Seq<char>>,
)
    ensures
        list_report(backend, slug, items, since, until, next) matches JsonView::Object(m) && {
            &&& m.contains(("items"@, JsonView::Array(items)))
            &&& m.contains(("count"@, JsonView::Int(items.len() as int)))
            &&& m.contains(("slug"@, JsonView::Text(slug)))
            &&& m.contains(("next_cursor"@, text_or_null(next)))
        },
{
    let m = list_report(backend, slug, items, since, until, next)->Object_0;
    assert(m[1] == ("slug"@, JsonView::Text(slug)));
    assert(m[2] == ("items"@, JsonView::Array(items)));
    assert(m[3] == ("count"@, JsonView::Int(items.len() as int)));
    assert(m[5] == ("next_cursor"@, text_or_null(next)));
}

/// A run that is shown tells its duration, its inputs, its outputs and its note where it has
/// them, all of the inputs and outputs, and a mark that is set tells so too.
pub proof fn law_a_run_is_shown_in_full(s: SnapshotView)
    ensures
        ({
            let t = show_text(s);
            &&& t[0] == "run-id:      "@ + s.run_id
            &&& t[2] == "agent:       "@ + or_dash(s.agent)
            &&& t[3] == "status:      "@ + s.status
            &&& s.note matches Some(n) ==> t.last() == "note:        "@ + n
            &&& s.note is None && s.outputs.len() > 0 ==> t.last() == "outputs:     "@ + joined(
                s.outputs,
                ", "@,
            )
            &&& s.note is None && s.outputs.len() == 0 && s.inputs.len() > 0 ==> t.last()
                == "inputs:      "@ + joined(s.inputs, ", "@)
            &&& s.duration_ms matches Some(ms) ==> t[4] == "duration:    "@ + decimal(ms as nat)
                + " ms"@
        }),
        ({
            let t = mark_text(s);
            &&& t[0] == "✓ marked "@ + s.run_id + " "@ + s.status
            &&& s.note matches Some(n) ==> t.last() == "  note: "@ + n
            &&& s.note is None && s.outputs.len() > 0 ==> t.last() == "  outputs: "@ + joined(
                s.outputs,
                ", "@,
            )
            &&& s.duration_ms matches Some(ms) ==> t[1] == "  duration: "@ + decimal(ms as nat)
                + " ms"@
        }),
{
}

/// Each mark of a run that the server knows of has its line.
pub proof fn law_each_mark_has_its_line(run: CloudRun, i: int)
    requires
        0 <= i < run.marks@.len(),
    ensures
        ({
            let t = crate::commands::runs::show::served_text(run);
            t.len() > run.marks@.len() && t[t.len() - run.marks@.len() + i] == mark_line(
                run.marks@[i].value(),
            )
        }),
{
}

/// What is reported of a mark holds each fact of the run.
pub proof fn law_marks_are_reported_in_full(s: SnapshotView)
    ensures
        mark_report(s) matches JsonView::Object(m) && {
            &&& m.contains(("run_id"@, JsonView::Text(s.run_id)))
            &&& m.contains(("status"@, JsonView::Text(s.status)))
            &&& m.contains(("note"@, text_or_null(s.note)))
            &&& m.contains(("skill"@, text_or_null(s.skill)))
            &&& m.contains(("version"@, text_or_null(s.version)))
            &&& m.contains(("agent"@, text_or_null(s.agent)))
            &&& m.contains(("inputs"@, JsonView::Array(text_values(s.inputs))))
            &&& m.contains(("outputs"@, JsonView::Array(text_values(s.outputs))))
            &&& m.contains(("started_at"@, moment_json(s.started_at)))
            &&& m.contains(("completed_at"@, moment_json(s.completed_at)))
            &&& m.contains(("duration_ms"@, nat_or_null(s.duration_ms)))
        },
{
    let m = mark_report(s)->Object_0;
    assert(m[0] == ("run_id"@, JsonView::Text(s.run_id)));
    assert(m[1] == ("status"@, JsonView::Text(s.status)));
    assert(m[2] == ("note"@, text_or_null(s.note)));
    assert(m[3] == ("skill"@, text_or_null(s.skill)));
    assert(m[4] == ("version"@, text_or_null(s.version)));
    assert(m[5] == ("agent"@, text_or_null(s.agent)));
    assert(m[6] == ("inputs"@, JsonView::Array(text_values(s.inputs))));
    assert(m[7] == ("outputs"@, JsonView::Array(text_values(s.outputs))));
    assert(m[8] == ("started_at"@, moment_json(s.started_at)));
    assert(m[9] == ("completed_at"@, moment_json(s.completed_at)));
    assert(m[10] == ("duration_ms"@, nat_or_null(s.duration_ms)));
}

/// Each input of a run is told with its path; without inputs nothing is.
pub proof fn law_each_input_is_told(paths: Seq<Seq<char>>, i: int)
    requires
        0 <= i < paths.len(),
    ensures
        inputs_json(Seq::<Seq<char>>::empty()) is None,
        inputs_json(paths) matches Some(JsonView::Object(m)) && m.len() == 1 && m[0].0 == "files"@
            && (m[0].1 matches JsonView::Array(a) && a.len() == paths.len() && (
        a[i] matches JsonView::Object(f) && f.contains(("path"@, JsonView::Text(paths[i]))))),
{
    let m = inputs_json(paths)->0->Object_0;
    let a = m[0].1->Array_0;
    assert(a[i] == input_json(paths[i]));
    let f = a[i]->Object_0;
    assert(f[0] == ("path"@, JsonView::Text(paths[i])));
}

// ---------------------------------------------------------------------------
// Cohorts and skills
// ---------------------------------------------------------------------------

/// What is told of a cohort holds each of its numbers under its own key.
pub proof fn law_cohorts_are_told_in_full(b: RatedBucket)
    ensures
        b.json() matches JsonView::Object(m) && {
            &&& m.contains(("key"@, key_object(b.bucket.key.entries@)))
            &&& m.contains(("runs_total"@, JsonView::Int(b.bucket.total as int)))
            &&& m.contains(("runs_succeeded"@, JsonView::Int(b.bucket.succeeded as int)))
            &&& m.contains(("runs_failed"@, JsonView::Int(b.bucket.failed as int)))
            &&& m.contains(("runs_unmarked"@, JsonView::Int(b.bucket.unmarked as int)))
            &&& m.contains(("success_rate"@, b.rate.value()))
            &&& m.contains(("p50_ms"@, nat_or_null(b.bucket.p50_ms)))
            &&& m.contains(("p95_ms"@, nat_or_null(b.bucket.p95_ms)))
            &&& m.contains(("last_run_at"@, moment_json(b.bucket.last_run_at)))
            &&& m.contains(("top_notes"@, JsonView::Array(forms(b.bucket.top_notes@))))
        },
{
    let m = b.json()->Object_0;
    assert(m[0] == ("key"@, key_object(b.bucket.key.entries@)));
    assert(m[1] == ("runs_total"@, JsonView::Int(b.bucket.total as int)));
    assert(m[2] == ("runs_succeeded"@, JsonView::Int(b.bucket.succeeded as int)));
    assert(m[3] == ("runs_failed"@, JsonView::Int(b.bucket.failed as int)));
    assert(m[4] == ("runs_unmarked"@, JsonView::Int(b.bucket.unmarked as int)));
    assert(m[5] == ("success_rate"@, b.rate.value()));
    assert(m[6] == ("p50_ms"@, nat_or_null(b.bucket.p50_ms)));
    assert(m[7] == ("p95_ms"@, nat_or_null(b.bucket.p95_ms)));
    assert(m[8] == ("last_run_at"@, moment_json(b.bucket.last_run_at)));
    assert(m[9] == ("top_notes"@, JsonView::Array(forms(b.bucket.top_notes@))));
}

/// Each cohort has its row in the table, and each of its notes its line.
pub proof fn law_each_cohort_has_its_row(
    slug: Seq<char>,
    dims: Seq<Seq<char>>,
    rows: Seq<RatedBucket>,
    since: int,
    until: int,
    label: Seq<char>,
    notes: Seq<(Seq<char>, nat)>,
    i: int,
)
    ensures
        rows.len() == 0 ==> stats_text(slug, dims, rows, since, until).len() == 1,
        0 <= i < rows.len() ==> stats_text(slug, dims, rows, since, until).len() >= rows.len() + 3
            && stats_text(slug, dims, rows, since, until)[i + 3] == bucket_row(dims, rows[i]),
        notes.len() == 0 ==> notes_text(label, notes).len() == 0,
        notes.len() > 0 ==> notes_text(label, notes).len() == notes.len() + 2,
        0 <= i < notes.len() ==> notes_text(label, notes)[i + 2] == note_line(notes[i]),
        stats_report("cloud"@, slug, dims, rows, since, until) matches JsonView::Object(m)
            && m.contains(("buckets"@, JsonView::Array(forms(rows)))),
{
    let m = stats_report("cloud"@, slug, dims, rows, since, until)->Object_0;
    assert(m[4] == ("buckets"@, JsonView::Array(forms(rows))));
}

/// Each skill has its row in the overview; those that got worse are named below, all of them.
pub proof fn law_each_skill_has_its_row(
    nothing: Seq<char>,
    s: Seq<RatedSkill>,
    since: int,
    until: int,
    i: int,
)
    ensures
        ({
            let t = overview_text(nothing, s, since, until);
            let worse = worse_skills(s, s.len() as int);
            &&& s.len() == 0 ==> t == seq![nothing]
            &&& 0 <= i < s.len() ==> t[i + 3] == skill_row(s[i])
            &&& s.len() > 0 && worse.len() > 0 ==> t.last() == "regressions: "@ + joined(
                worse,
                ", "@,
            )
            &&& s.len() > 0 ==> t.len() == s.len() + 4 + (if worse.len() > 0 {
                1int
            } else {
                0
            })
        }),
        overview_report(nothing, s, since, until) matches JsonView::Object(m) && m.contains(
            ("skills"@, JsonView::Array(forms(s))),
        ),
{
    let m = overview_report(nothing, s, since, until)->Object_0;
    assert(m[2] == ("skills"@, JsonView::Array(forms(s))));
}

/// A version without runs is told so, and versions with runs are compared; below the head
/// there is a line for each that has none.
pub proof fn law_versions_without_runs_are_told(
    slug: Seq<char>,
    a: Bucket,
    b: Bucket,
    rate: Seq<char>,
    since: int,
    until: int,
)
    requires
        !(a.present && b.present),
    ensures
        diff_text(slug, a, b, rate, since, until).len() == 2 + (if a.present {
            0int
        } else {
            1
        }) + (if b.present {
            0int
        } else {
            1
        }),
{
}

// ---------------------------------------------------------------------------
// Agents
// ---------------------------------------------------------------------------

/// Each agent has its line: those that were written, those that are up to date, those that
/// were removed and those that were skipped, in this order.
pub proof fn law_each_agent_has_its_line(r: SyncReport, i: int)
    ensures
        ({
            let t = report_text(r, false);
            let a = r.written@.len() as int;
            let b = a + r.up_to_date@.len();
            let c = b + r.removed@.len();
            let d = c + r.skipped@.len();
            &&& 0 <= i < a ==> t[i] == written_line(r.written@[i]@)
            &&& a <= i < b ==> t[i] == current_line(r.up_to_date@[i - a]@)
            &&& b <= i < c ==> t[i] == removed_line(r.removed@[i - b]@)
            &&& c <= i < d ==> t[i] == skipped_line(r.skipped@[i - c]@)
            &&& d > 0 ==> t.len() == d
            &&& d == 0 ==> t == seq!["Nothing to sync."@]
        }),
{
    let t = report_text(r, false);
    if r.written@.len() + r.up_to_date@.len() + r.removed@.len() + r.skipped@.len() == 0 {
        assert(t =~= seq!["Nothing to sync."@]);
    }
}

/// What is reported of the agents holds all four lists.
pub proof fn law_all_agents_are_reported(r: SyncReport, dry_run: bool)
    ensures
        sync_report(r, dry_run) matches JsonView::Object(m) && {
            &&& m.contains(("dry_run"@, JsonView::Bool(dry_run)))
            &&& m.contains(("written"@, JsonView::Array(forms(r.written@))))
            &&& m.contains(("up_to_date"@, JsonView::Array(forms(r.up_to_date@))))
            &&& m.contains(("removed"@, JsonView::Array(forms(r.removed@))))
            &&& m.contains(("skipped"@, JsonView::Array(forms(r.skipped@))))
        },
        shims_report(r) matches JsonView::Object(m) && {
            &&& m.contains(("written"@, JsonView::Array(forms(r.written@))))
            &&& m.contains(("up_to_date"@, JsonView::Array(forms(r.up_to_date@))))
            &&& m.contains(("removed"@, JsonView::Array(forms(r.removed@))))
            &&& m.contains(("skipped"@, JsonView::Array(forms(r.skipped@))))
        },
{
    let m = sync_report(r, dry_run)->Object_0;
    assert(m[0] == ("dry_run"@, JsonView::Bool(dry_run)));
    assert(m[1] == ("written"@, JsonView::Array(forms(r.written@))));
    assert(m[2] == ("up_to_date"@, JsonView::Array(forms(r.up_to_date@))));
    assert(m[3] == ("removed"@, JsonView::Array(forms(r.removed@))));
    assert(m[4] == ("skipped"@, JsonView::Array(forms(r.skipped@))));
    let k = shims_report(r)->Object_0;
    assert(k[0] == ("written"@, JsonView::Array(forms(r.written@))));
    assert(k[1] == ("up_to_date"@, JsonView::Array(forms(r.up_to_date@))));
    assert(k[2] == ("removed"@, JsonView::Array(forms(r.removed@))));
    assert(k[3] == ("skipped"@, JsonView::Array(forms(r.skipped@))));
}

/// Each agent that a skill is linked into has its line, and the note on precedence is the
/// last one; each agent that it is taken out of has its line too.
pub proof fn law_each_linked_agent_has_its_line(
    slug: Seq<char>,
    outcomes: Seq<OutcomeView>,
    note: Seq<char>,
    scope: Scope,
    removed: Seq<(Seq<char>, Seq<char>)>,
    i: int,
)
    ensures
        link_lines(slug, outcomes, false, None).len() == outcomes.len(),
        link_lines(slug, outcomes, true, None).len() == outcomes.len(),
        link_lines(slug, outcomes, false, Some(note)).len() == outcomes.len() + 1,
        link_lines(slug, outcomes, false, Some(note)).last() == note,
        0 <= i < outcomes.len() ==> link_lines(slug, outcomes, false, None)[i] == outcome_line(
            "Linked"@,
            slug,
            outcomes[i],
        ) && link_lines(slug, outcomes, true, None)[i] == outcome_line(
            "Would link"@,
            slug,
            outcomes[i],
        ),
        removed.len() == 0 ==> unlink_text(slug, scope, removed).len() == 1,
        removed.len() > 0 ==> unlink_text(slug, scope, removed).len() == removed.len(),
        0 <= i < removed.len() ==> unlink_text(slug, scope, removed)[i] == "Unlinked "@
            + removed[i].0 + " → "@ + removed[i].1,
{
}

/// What is reported of a link holds what became of each agent.
pub proof fn law_links_are_reported_agent_by_agent(
    slug: Seq<char>,
    version: Seq<char>,
    scope: Scope,
    outcomes: Seq<OutcomeView>,
    dry_run: bool,
    restart: bool,
    note: Option<Seq<char>>,
    i: int,
)
    requires
        0 <= i < outcomes.len(),
    ensures
        link_report(slug, version, scope, outcomes, dry_run, restart, note) matches JsonView::Object(
            m,
        ) && {
            &&& m.contains(("slug"@, JsonView::Text(slug)))
            &&& m.contains(("version"@, JsonView::Text(version)))
            &&& m.contains(("dry_run"@, JsonView::Bool(dry_run)))
            &&& m.contains(("restart_required"@, JsonView::Bool(restart)))
            &&& m.contains(("precedence_note"@, text_or_null(note)))
            &&& m.last().0 == "agents"@
            &&& m.last().1 matches JsonView::Array(a) && a.len() == outcomes.len() && a[i]
                == outcome_json(outcomes[i])
        },
{
    let m = link_report(slug, version, scope, outcomes, dry_run, restart, note)->Object_0;
    assert(m[0] == ("slug"@, JsonView::Text(slug)));
    assert(m[1] == ("version"@, JsonView::Text(version)));
    assert(m[3] == ("dry_run"@, JsonView::Bool(dry_run)));
    assert(m[4] == ("restart_required"@, JsonView::Bool(restart)));
    assert(m[5] == ("precedence_note"@, text_or_null(note)));
}

// ---------------------------------------------------------------------------
// Skills that come and go
// ---------------------------------------------------------------------------

/// Each agent for which a pulled skill was written has its line, and each that was skipped.
pub proof fn law_each_shim_of_a_pulled_skill_has_its_line(
    slug: Seq<char>,
    version: Seq<char>,
    dir: Seq<char>,
    shims: SyncReport,
    i: int,
)
    ensures
        ({
            let t = pull_text(slug, version, dir, shims);
            let n = shims.written@.len() as int;
            &&& t.len() == 1 + n + shims.skipped@.len()
            &&& t[0] == "✓ "@ + slug + "@"@ + version + " → "@ + dir
            &&& 0 <= i < n ==> t[i + 1] == shim_lines(shims.written@)[i] && t[i + 1] == "  ↪ "@
                + shims.written@[i].agent@ + " shim → "@ + shims.written@[i].path@
            &&& 0 <= i < shims.skipped@.len() ==> t[i + 1 + n]
                == crate::commands::pull::skipped_line(shims.skipped@[i])
        }),
{
}

/// What is reported of a pulled skill holds the files that were written, all of them.
pub proof fn law_pulled_files_are_reported(
    id: Seq<char>,
    slug: Seq<char>,
    version: Seq<char>,
    dir: Seq<char>,
    written: Seq<Seq<char>>,
    packed: bool,
    shims: SyncReport,
)
    ensures
        pull_report(id, slug, version, dir, written, packed, shims) matches JsonView::Object(m) && {
            &&& m.contains(("slug"@, JsonView::Text(slug)))
            &&& m.contains(("version"@, JsonView::Text(version)))
            &&& m.contains(("files_written"@, JsonView::Array(text_values(written))))
            &&& m.contains(
                (
                    "mode"@,
                    JsonView::Text(
                        if packed {
                            "bundle"@
                        } else {
                            "legacy"@
                        },
                    ),
                ),
            )
            &&& m.contains(("shims"@, shims_report(shims)))
        },
{
    let m = pull_report(id, slug, version, dir, written, packed, shims)->Object_0;
    assert(m[1] == ("slug"@, JsonView::Text(slug)));
    assert(m[2] == ("version"@, JsonView::Text(version)));
    assert(m[4] == ("files_written"@, JsonView::Array(text_values(written))));
    assert(m[5].0 == "mode"@);
    assert(m.contains(m[5]));
    assert(m[6] == ("shims"@, shims_report(shims)));
}

/// Each file of a rehearsal has its line.
pub proof fn law_each_packed_file_has_its_line(
    args: PublishArgs,
    sha256: Seq<char>,
    size: nat,
    files: Seq<(Seq<char>, Seq<char>)>,
    i: int,
)
    ensures
        dry_run_text(args, sha256, size, files).len() == files.len() + 2,
        0 <= i < files.len() ==> dry_run_text(args, sha256, size, files)[i + 2] == packed_line(
            files[i],
        ),
{
}

/// Each exported skill has its line and each skipped one too, with the reason; where there
/// are more than the limit that is told last.
pub proof fn law_each_exported_skill_has_its_line(
    target: Seq<char>,
    e: ExportReport,
    total: nat,
    limit: nat,
    i: int,
)
    ensures
        ({
            let t = export_text(target, e, total, limit, false);
            let n = e.exported@.len() as int;
            &&& t.len() == 1 + n + e.skipped@.len()
            &&& export_text(target, e, total, limit, true).len() == t.len() + 2
            &&& 0 <= i < n ==> t[i + 1] == "  ✓ "@ + e.exported@[i]@
            &&& 0 <= i < e.skipped@.len() ==> t[i + 1 + n] == "  - "@ + e.skipped@[i].slug@ + ": "@
                + e.skipped@[i].reason@
        }),
        export_json_of(target, e, total, None, true) matches JsonView::Object(m) && {
            &&& m.contains(("exported"@, JsonView::Array(text_values(views(e.exported@)))))
            &&& m.contains(("skipped"@, JsonView::Array(forms(e.skipped@))))
            &&& m.contains(("total_seen"@, JsonView::Int(total as int)))
            &&& m.contains(("more_available"@, JsonView::Bool(true)))
        },
{
    let m = export_json_of(target, e, total, None, true)->Object_0;
    assert(m[2] == ("exported"@, JsonView::Array(text_values(views(e.exported@)))));
    assert(m[3] == ("skipped"@, JsonView::Array(forms(e.skipped@))));
    assert(m[4] == ("total_seen"@, JsonView::Int(total as int)));
    assert(m[6] == ("more_available"@, JsonView::Bool(true)));
}

/// Each skill that was found has its line; without one that is told. What is looked for is
/// all words, with spaces between them.
pub proof fn law_each_found_skill_has_its_line(
    items: Seq<FoundSkill>,
    words: Seq<Seq<char>>,
    i: int,
)
    ensures
        items.len() == 0 ==> found_text(items).len() == 1,
        items.len() > 0 ==> found_text(items).len() == items.len(),
        0 <= i < items.len() ==> found_text(items)[i] == hit_line(
            items[i].author@,
            items[i].slug@,
            items[i].name@,
            items[i].stars@,
            items[i].description@,
        ),
        words.len() == 0 ==> query_of(words) is None,
        words.len() > 0 ==> query_of(words) == Some(joined(words, seq![' '])),
{
    reveal_strlit(" ");
    assert(" "@ =~= seq![' ']);
}

/// Each host that was probed has its line.
pub proof fn law_each_host_has_its_line(source: Seq<char>, results: Seq<ProbeResult>, i: int)
    requires
        0 <= i < results.len(),
        source != "fallback"@,
    ensures
        connectivity_text(source, results).len() >= results.len() + 2,
        connectivity_text(source, results)[i + 1] == probe_line(results[i]),
{
}

} // verus!
