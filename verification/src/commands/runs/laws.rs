//! What the reports on runs hold, run by run and skill by skill.

use vstd::prelude::*;

use crate::commands::mark::moment_json;
use crate::commands::runs::diff::{delta_report, is_bucket_of, place_of, plus_minus, Bucket};
use crate::commands::runs::list::{
    at_most, is_listed, is_served, listed, marks_hold, note_holds, run_members, served, CloudRun,
    ListArgs,
};
use crate::commands::runs::overview::{
    flag_of, shown_names, stale_count, summary_report, worse_skills, RatedSkill,
};
use crate::commands::runs::show::{duration_of, show_report, skill_label};
use crate::commands::runs::stats::{
    all_notes, dimensions_in, dimensions_of, label_of, notes_text, RatedBucket,
};
use crate::commands::runs::trend::{point_text, points_text, RatedPoint};
use crate::commands::runs::{day_meant, day_or, offset_of};
use crate::github::aggregate::{key_contents, version_of};
use crate::github::runs::{SnapshotView, DEFAULT_LOOKBACK_DAYS};
use crate::json::{nat_or_null, text_field, text_or_null, text_values, values, JsonView};
use crate::numbers::{decimal, lemma_decimal_reads_back, signed_decimal};
use crate::order::viewed;
use crate::picks::{lemma_picked, positions};
use crate::text::laws::{law_the_first_place_is_found, stands_in};
use crate::text::{ascii_lower, find_first, has_prefix, joined, lowercased, pieces, trimmed};
use crate::time::Timestamp;

verus! {

/// A text stands somewhere in another one.
pub open spec fn held_in(s: Seq<char>, p: Seq<char>) -> bool {
    exists|i: int| #[trigger] stands_in(s, p, i)
}

proof fn lemma_held(s: Seq<char>, p: Seq<char>)
    ensures
        find_first(s, p) is Some <==> held_in(s, p),
{
    law_the_first_place_is_found(s, p);
}

// ---------------------------------------------------------------------------
// Listing
// ---------------------------------------------------------------------------

/// A run is as the arguments ask: of the status, in either case of letters, of the version
/// and of the agent, and with a note that holds the text, in either case of letters, each
/// where it is asked for.
pub open spec fn as_asked(args: ListArgs, s: SnapshotView) -> bool {
    &&& args.status is Some ==> ascii_lower(s.status) == ascii_lower(args.status->0@)
    &&& args.version is Some ==> s.version == Some(args.version->0@)
    &&& args.agent is Some ==> s.agent == Some(args.agent->0@)
    &&& args.note_contains is Some ==> s.note is Some && held_in(
        lowercased(s.note->0),
        lowercased(args.note_contains->0@),
    )
}

/// A run is listed exactly where it is as the arguments ask.
pub proof fn law_a_run_is_listed_as_asked(args: ListArgs, s: SnapshotView)
    ensures
        is_listed(args, s) <==> as_asked(args, s),
{
    if args.note_contains is Some && s.note is Some {
        lemma_held(lowercased(s.note->0), lowercased(args.note_contains->0@));
    }
}

proof fn lemma_listed(args: ListArgs, s: Seq<SnapshotView>, n: int, p: spec_fn(SnapshotView) -> bool)
    requires
        0 <= n <= s.len(),
        forall|x: SnapshotView| #[trigger] p(x) == as_asked(args, x),
    ensures
        listed(args, s, n) == s.take(n).filter(p),
    decreases n,
{
    reveal(Seq::filter);
    if n > 0 {
        lemma_listed(args, s, n - 1, p);
        law_a_run_is_listed_as_asked(args, s[n - 1]);
        assert(s.take(n).drop_last() =~= s.take(n - 1));
        assert(s.take(n).last() == s[n - 1]);
    } else {
        assert(s.take(0).filter(p) =~= seq![]);
    }
}

/// The runs that are as the arguments ask are listed, all of them and no others, in their
/// order.
pub proof fn law_all_runs_as_asked_are_listed(args: ListArgs, s: Seq<SnapshotView>)
    ensures
        listed(args, s, s.len() as int) == s.filter(|x: SnapshotView| as_asked(args, x)),
{
    let p = |x: SnapshotView| as_asked(args, x);
    lemma_listed(args, s, s.len() as int, p);
    assert(s.take(s.len() as int) =~= s);
}

/// No more than the limit is kept, from the front: all there is, where it is no more.
pub proof fn law_the_first_are_kept<T>(s: Seq<T>, limit: int)
    requires
        0 <= limit,
    ensures
        at_most(s, limit).len() == (if s.len() < limit {
            s.len() as int
        } else {
            limit
        }),
        forall|i: int|
            0 <= i < at_most(s, limit).len() ==> #[trigger] at_most(s, limit)[i] == s[i],
{
}

/// A run that the server knows of is as asked: of the runtime, of the version, and with a
/// mark whose note holds the text, in either case of letters, each where it is asked for.
pub open spec fn served_as_asked(
    agent: Option<Seq<char>>,
    version_id: Option<Seq<char>>,
    needle: Option<Seq<char>>,
    run: CloudRun,
) -> bool {
    &&& agent is Some ==> run.runtime is Some && run.runtime->0@ == agent->0
    &&& version_id is Some ==> run.skill_version_id@ == version_id->0
    &&& needle is Some ==> exists|i: int|
        0 <= i < run.marks@.len() && #[trigger] noted(run.marks@[i].value(), needle->0)
}

/// The note of a mark holds a text, in either case of letters.
pub open spec fn noted(mark: JsonView, needle: Seq<char>) -> bool {
    text_field(mark, "note"@) is Some && held_in(
        lowercased(text_field(mark, "note"@)->0),
        lowercased(needle),
    )
}

/// A run that the server knows of is listed exactly where it is as asked.
pub proof fn law_a_served_run_is_listed_as_asked(
    agent: Option<Seq<char>>,
    version_id: Option<Seq<char>>,
    needle: Option<Seq<char>>,
    run: CloudRun,
)
    ensures
        is_served(agent, version_id, needle, run) <==> served_as_asked(
            agent,
            version_id,
            needle,
            run,
        ),
{
    if needle is Some {
        let low = lowercased(needle->0);
        let marks = values(run.marks@);
        assert forall|i: int| 0 <= i < marks.len() implies (#[trigger] note_holds(
            crate::commands::runs::list::small(text_field(marks[i], "note"@)),
            Some(low),
        ) <==> noted(run.marks@[i].value(), needle->0)) by {
            if text_field(marks[i], "note"@) is Some {
                lemma_held(lowercased(text_field(marks[i], "note"@)->0), low);
            }
        }
        if marks_hold(marks, low) {
            let i = choose|i: int|
                0 <= i < marks.len() && note_holds(
                    crate::commands::runs::list::small(text_field(#[trigger] marks[i], "note"@)),
                    Some(low),
                );
            assert(noted(run.marks@[i].value(), needle->0));
        }
        if exists|i: int|
            0 <= i < run.marks@.len() && #[trigger] noted(run.marks@[i].value(), needle->0) {
            let i = choose|i: int|
                0 <= i < run.marks@.len() && #[trigger] noted(run.marks@[i].value(), needle->0);
            assert(note_holds(
                crate::commands::runs::list::small(text_field(marks[i], "note"@)),
                Some(low),
            ));
        }
    }
}

proof fn lemma_served(
    agent: Option<Seq<char>>,
    version_id: Option<Seq<char>>,
    needle: Option<Seq<char>>,
    runs: Seq<CloudRun>,
    n: int,
    p: spec_fn(CloudRun) -> bool,
)
    requires
        0 <= n <= runs.len(),
        forall|x: CloudRun| #[trigger] p(x) == served_as_asked(agent, version_id, needle, x),
    ensures
        served(agent, version_id, needle, runs, n) == runs.take(n).filter(p),
    decreases n,
{
    reveal(Seq::filter);
    if n > 0 {
        lemma_served(agent, version_id, needle, runs, n - 1, p);
        law_a_served_run_is_listed_as_asked(agent, version_id, needle, runs[n - 1]);
        assert(runs.take(n).drop_last() =~= runs.take(n - 1));
        assert(runs.take(n).last() == runs[n - 1]);
    } else {
        assert(runs.take(0).filter(p) =~= seq![]);
    }
}

/// The runs of a page that are as asked are listed, all of them and no others, in their
/// order.
pub proof fn law_all_served_runs_as_asked_are_listed(
    agent: Option<Seq<char>>,
    version_id: Option<Seq<char>>,
    needle: Option<Seq<char>>,
    runs: Seq<CloudRun>,
)
    ensures
        served(agent, version_id, needle, runs, runs.len() as int) == runs.filter(
            |x: CloudRun| served_as_asked(agent, version_id, needle, x),
        ),
{
    let p = |x: CloudRun| served_as_asked(agent, version_id, needle, x);
    lemma_served(agent, version_id, needle, runs, runs.len() as int, p);
    assert(runs.take(runs.len() as int) =~= runs);
}

/// A value stands under a key among the members of an object.
pub open spec fn stands_under(m: Seq<(Seq<char>, JsonView)>, key: Seq<char>, v: JsonView) -> bool {
    m.contains((key, v))
}

/// Each fact of a run is told under its own key.
pub proof fn law_runs_are_told_in_full(s: SnapshotView)
    ensures
        ({
            let m = run_members(s);
            &&& stands_under(m, "run_id"@, JsonView::Text(s.run_id))
            &&& stands_under(m, "skill"@, text_or_null(s.skill))
            &&& stands_under(m, "version"@, text_or_null(s.version))
            &&& stands_under(m, "agent"@, text_or_null(s.agent))
            &&& stands_under(m, "status"@, JsonView::Text(s.status))
            &&& stands_under(m, "note"@, text_or_null(s.note))
            &&& stands_under(m, "inputs"@, JsonView::Array(text_values(s.inputs)))
            &&& stands_under(m, "outputs"@, JsonView::Array(text_values(s.outputs)))
            &&& stands_under(m, "started_at"@, moment_json(s.started_at))
            &&& stands_under(m, "completed_at"@, moment_json(s.completed_at))
            &&& stands_under(m, "duration_ms"@, nat_or_null(s.duration_ms))
            &&& m.len() == 11
            &&& show_report(s) == JsonView::Object(
                seq![("backend"@, JsonView::Text("github"@))] + m,
            )
        }),
{
    let m = run_members(s);
    assert(m[0] == ("run_id"@, JsonView::Text(s.run_id)));
    assert(m[1] == ("skill"@, text_or_null(s.skill)));
    assert(m[2] == ("version"@, text_or_null(s.version)));
    assert(m[3] == ("agent"@, text_or_null(s.agent)));
    assert(m[4] == ("status"@, JsonView::Text(s.status)));
    assert(m[5] == ("note"@, text_or_null(s.note)));
    assert(m[6] == ("inputs"@, JsonView::Array(text_values(s.inputs))));
    assert(m[7] == ("outputs"@, JsonView::Array(text_values(s.outputs))));
    assert(m[8] == ("started_at"@, moment_json(s.started_at)));
    assert(m[9] == ("completed_at"@, moment_json(s.completed_at)));
    assert(m[10] == ("duration_ms"@, nat_or_null(s.duration_ms)));
}

/// A run that is over took the whole milliseconds from its start to its end, and none where
/// it ends before it starts; one that is not over has no duration.
pub proof fn law_runs_take_the_time_to_their_end(a: Timestamp, b: Timestamp)
    requires
        a.nanos < 1_000_000_000,
        b.nanos < 1_000_000_000,
    ensures
        duration_of(a, None) is None,
        ({
            let n = (b.secs - a.secs) * 1_000_000_000 + b.nanos - a.nanos;
            duration_of(a, Some(b)) matches Some(ms) && (n <= 0 ==> ms == 0) && (n >= 0 ==> ms
                * 1_000_000 <= n < (ms + 1) * 1_000_000)
        }),
{
}

// ---------------------------------------------------------------------------
// Days
// ---------------------------------------------------------------------------

/// A number of days back from today is meant by the number and a `d` behind it. A text that
/// is a date means that day.
pub proof fn law_days_back_are_counted_from_today(n: int, s: Seq<char>, day: i64, today: int)
    requires
        0 <= n <= i64::MAX,
    ensures
        day_meant(None, decimal(n as nat) + "d"@, today) == Some(today - n),
        day_meant(Some(day), s, today) == Some(day as int),
{
    reveal_strlit("d");
    let d = decimal(n as nat);
    let t = d + "d"@;
    lemma_decimal_reads_back(n as nat);
    assert(t.skip(d.len() as int) =~= "d"@);
    assert(t.take(d.len() as int) =~= d);
}

/// A text that is no date and does not end with `d` means no day.
pub proof fn law_other_texts_mean_no_day(s: Seq<char>, today: int)
    requires
        s.len() == 0 || s.last() != 'd',
    ensures
        day_meant(None, s, today) is None,
{
    reveal_strlit("d");
    if offset_of(s) is Some {
        assert(s.skip(s.len() - 1)[0] == s.last());
    }
}

/// Where no first day is given the window is of the last thirty days.
pub proof fn law_the_last_thirty_days(today: int, other: int)
    ensures
        DEFAULT_LOOKBACK_DAYS == 30,
        day_or(None, today, other) == Some(other),
{
}

// ---------------------------------------------------------------------------
// Cohorts
// ---------------------------------------------------------------------------

proof fn lemma_dimensions(s: Seq<Seq<char>>, n: int)
    requires
        0 <= n <= s.len(),
    ensures
        match dimensions_in(s, n) {
            Ok(d) => {
                &&& forall|i: int|
                    0 <= i < n ==> trimmed(#[trigger] s[i]).len() == 0 || d.contains(trimmed(s[i]))
                &&& forall|k: int|
                    0 <= k < d.len() ==> (#[trigger] d[k] == "version"@ || d[k] == "agent"@)
                        && exists|i: int|
                        0 <= i < n && trimmed(#[trigger] s[i]) == d[k] && d[k].len() > 0
            },
            Err(bad) => exists|i: int|
                0 <= i < n && trimmed(#[trigger] s[i]) == bad && bad.len() > 0 && bad
                    != "version"@ && bad != "agent"@ && forall|j: int|
                    0 <= j < i ==> trimmed(#[trigger] s[j]).len() == 0 || trimmed(s[j])
                        == "version"@ || trimmed(s[j]) == "agent"@,
        },
    decreases n,
{
    if n > 0 {
        lemma_dimensions(s, n - 1);
        let t = trimmed(s[n - 1]);
        match dimensions_in(s, n - 1) {
            Ok(d) => {
                match dimensions_in(s, n) {
                    Ok(e) => {
                        assert forall|i: int| 0 <= i < n implies trimmed(#[trigger] s[i]).len() == 0
                            || e.contains(trimmed(s[i])) by {
                            if i < n - 1 && d.contains(trimmed(s[i])) {
                                let k = choose|k: int| 0 <= k < d.len() && d[k] == trimmed(s[i]);
                                assert(e[k] == trimmed(s[i]));
                            }
                            if i == n - 1 && t.len() > 0 && !d.contains(t) {
                                assert(e[e.len() - 1] == t);
                            }
                        }
                        assert forall|k: int| 0 <= k < e.len() implies (#[trigger] e[k]
                            == "version"@ || e[k] == "agent"@) && exists|i: int|
                            0 <= i < n && trimmed(#[trigger] s[i]) == e[k] && e[k].len() > 0 by {
                            if k < d.len() {
                                assert(d[k] == e[k]);
                                let i = choose|i: int|
                                    0 <= i < n - 1 && trimmed(#[trigger] s[i]) == d[k] && d[k].len()
                                        > 0;
                                assert(trimmed(s[i]) == e[k]);
                            } else {
                                assert(trimmed(s[n - 1]) == e[k]);
                            }
                        }
                    },
                    Err(bad) => {
                        assert(trimmed(s[n - 1]) == bad);
                        assert forall|j: int| 0 <= j < n - 1 implies trimmed(
                            #[trigger] s[j],
                        ).len() == 0 || trimmed(s[j]) == "version"@ || trimmed(s[j])
                            == "agent"@ by {
                            if trimmed(s[j]).len() > 0 {
                                assert(d.contains(trimmed(s[j])));
                                let k = choose|k: int| 0 <= k < d.len() && d[k] == trimmed(s[j]);
                                assert(d[k] == trimmed(s[j]));
                            }
                        }
                    },
                }
            },
            Err(_) => {},
        }
    }
}

/// Runs can be parted by version and by agent: the dimensions are the pieces between commas,
/// blank ones left out, where there is one and each of them is `version` or `agent`.
pub proof fn law_dimensions_are_version_and_agent(s: Seq<char>, x: Seq<char>)
    ensures
        ({
            let p = pieces(s, ","@);
            match dimensions_of(s) {
                Ok(d) => {
                    &&& d.len() > 0
                    &&& d.no_duplicates()
                    &&& d.contains(x) <==> x.len() > 0 && exists|i: int|
                        0 <= i < p.len() && trimmed(#[trigger] p[i]) == x
                    &&& d.contains(x) ==> x == "version"@ || x == "agent"@
                },
                Err(_) => {
                    ||| forall|i: int| 0 <= i < p.len() ==> trimmed(#[trigger] p[i]).len() == 0
                    ||| exists|i: int|
                        0 <= i < p.len() && trimmed(#[trigger] p[i]).len() > 0 && trimmed(p[i])
                            != "version"@ && trimmed(p[i]) != "agent"@
                },
            }
        }),
{
    let p = pieces(s, ","@);
    let n = p.len() as int;
    lemma_dimensions(p, n);
    match dimensions_in(p, n) {
        Ok(d) => {
            crate::commands::runs::stats::law_dimensions_are_distinct(p, n);
            if d.len() > 0 {
                if d.contains(x) {
                    let k = choose|k: int| 0 <= k < d.len() && d[k] == x;
                    assert(d[k] == x);
                }
                if x.len() > 0 && exists|i: int| 0 <= i < p.len() && trimmed(#[trigger] p[i]) == x {
                    let i = choose|i: int| 0 <= i < p.len() && trimmed(#[trigger] p[i]) == x;
                    assert(d.contains(trimmed(p[i])));
                }
            } else {
                assert forall|i: int| 0 <= i < p.len() implies trimmed(#[trigger] p[i]).len()
                    == 0 by {
                    if d.contains(trimmed(p[i])) {
                        assert(false);
                    }
                }
            }
        },
        Err(bad) => {},
    }
}

/// A cohort is called by its values, in the order of the dimensions, with a dash for one
/// that it lacks.
pub proof fn law_cohorts_are_called_by_their_values(
    dims: Seq<Seq<char>>,
    key: Map<Seq<char>, Option<Seq<char>>>,
    parts: Seq<Seq<char>>,
)
    requires
        parts.len() == dims.len(),
        forall|i: int|
            0 <= i < dims.len() ==> #[trigger] parts[i] == (if key.dom().contains(dims[i])
                && key[dims[i]] is Some {
                key[dims[i]]->0
            } else {
                "-"@
            }),
    ensures
        label_of(dims, key) == joined(parts, "/"@),
{
    assert(parts =~= Seq::new(
        dims.len(),
        |i: int| crate::commands::runs::stats::label_part(key, dims[i]),
    ));
}

proof fn lemma_notes(
    dims: Seq<Seq<char>>,
    rows: Seq<RatedBucket>,
    n: int,
    parts: Seq<Seq<Seq<char>>>,
)
    requires
        0 <= n <= rows.len(),
        parts.len() == rows.len(),
        forall|i: int|
            0 <= i < rows.len() ==> #[trigger] parts[i] == notes_text(
                label_of(dims, key_contents(rows[i].bucket.key)),
                viewed(rows[i].bucket.top_notes@),
            ),
    ensures
        all_notes(dims, rows, n) == parts.take(n).flatten(),
    decreases n,
{
    if n > 0 {
        lemma_notes(dims, rows, n - 1, parts);
        assert(parts.take(n) =~= parts.take(n - 1).push(parts[n - 1]));
        parts.take(n - 1).lemma_flatten_push(parts[n - 1]);
    } else {
        assert(parts.take(0) =~= seq![]);
    }
}

/// The notes of every cohort are told, one cohort behind the other.
pub proof fn law_the_notes_of_every_cohort_are_told(
    dims: Seq<Seq<char>>,
    rows: Seq<RatedBucket>,
    parts: Seq<Seq<Seq<char>>>,
)
    requires
        parts.len() == rows.len(),
        forall|i: int|
            0 <= i < rows.len() ==> #[trigger] parts[i] == notes_text(
                label_of(dims, key_contents(rows[i].bucket.key)),
                viewed(rows[i].bucket.top_notes@),
            ),
    ensures
        all_notes(dims, rows, rows.len() as int) == parts.flatten(),
{
    lemma_notes(dims, rows, rows.len() as int, parts);
    assert(parts.take(parts.len() as int) =~= parts);
}

proof fn lemma_points(
    dims: Seq<Seq<char>>,
    points: Seq<RatedPoint>,
    n: int,
    parts: Seq<Seq<Seq<char>>>,
)
    requires
        0 <= n <= points.len(),
        parts.len() == points.len(),
        forall|i: int| 0 <= i < points.len() ==> #[trigger] parts[i] == point_text(dims, points[i]),
    ensures
        points_text(dims, points, n) == parts.take(n).flatten(),
    decreases n,
{
    if n > 0 {
        lemma_points(dims, points, n - 1, parts);
        assert(parts.take(n) =~= parts.take(n - 1).push(parts[n - 1]));
        parts.take(n - 1).lemma_flatten_push(parts[n - 1]);
    } else {
        assert(parts.take(0) =~= seq![]);
    }
}

/// Every slice is told of, one behind the other: one line for each of its cohorts, or one
/// line where it has none.
pub proof fn law_slices_are_told_one_behind_the_other(
    dims: Seq<Seq<char>>,
    points: Seq<RatedPoint>,
    parts: Seq<Seq<Seq<char>>>,
    i: int,
)
    requires
        parts.len() == points.len(),
        forall|i: int| 0 <= i < points.len() ==> #[trigger] parts[i] == point_text(dims, points[i]),
        0 <= i < points.len(),
    ensures
        points_text(dims, points, points.len() as int) == parts.flatten(),
        parts[i].len() == (if points[i].buckets@.len() == 0 {
            1
        } else {
            points[i].buckets@.len()
        }),
{
    lemma_points(dims, points, points.len() as int, parts);
    assert(parts.take(parts.len() as int) =~= parts);
}

// ---------------------------------------------------------------------------
// Comparing versions
// ---------------------------------------------------------------------------

proof fn lemma_first_row(version: Seq<char>, rows: Seq<RatedBucket>, from: int, k: int)
    requires
        0 <= from <= k < rows.len(),
        version_of(rows[k].bucket@) == Some(version),
        forall|i: int| from <= i < k ==> version_of((#[trigger] rows[i]).bucket@) != Some(version),
    ensures
        place_of(version, rows, from) == Some(k),
    decreases k - from,
{
    if from < k {
        lemma_first_row(version, rows, from + 1, k);
    }
}

proof fn lemma_no_row(version: Seq<char>, rows: Seq<RatedBucket>, from: int)
    requires
        0 <= from,
        forall|i: int|
            from <= i < rows.len() ==> version_of((#[trigger] rows[i]).bucket@) != Some(version),
    ensures
        place_of(version, rows, from) is None,
    decreases rows.len() - from,
{
    if from < rows.len() {
        lemma_no_row(version, rows, from + 1);
    }
}

/// What is told of a version is what the first cohort of it holds.
pub proof fn law_a_version_is_told_by_its_cohort(
    b: Bucket,
    version: Seq<char>,
    rows: Seq<RatedBucket>,
    k: int,
)
    requires
        is_bucket_of(b, version, rows),
        0 <= k < rows.len(),
        rows[k].bucket@.key.dom().contains("version"@),
        rows[k].bucket@.key["version"@] == Some(version),
        forall|i: int|
            0 <= i < k ==> !((#[trigger] rows[i]).bucket@.key.dom().contains("version"@)
                && rows[i].bucket@.key["version"@] == Some(version)),
    ensures
        b.version@ == version,
        b.present <==> rows[k].bucket.total > 0,
        b.total == rows[k].bucket.total,
        b.succeeded == rows[k].bucket.succeeded,
        b.failed == rows[k].bucket.failed,
        b.p50_ms == rows[k].bucket.p50_ms,
        b.p95_ms == rows[k].bucket.p95_ms,
        b.rate.value() == rows[k].rate.value(),
        b.rate_text@ == rows[k].rate_text@,
        b.top_notes@.len() == rows[k].bucket.top_notes@.len(),
{
    lemma_first_row(version, rows, 0, k);
    assert(viewed(b.top_notes@).len() == b.top_notes@.len());
    assert(viewed(rows[k].bucket.top_notes@).len() == rows[k].bucket.top_notes@.len());
}

/// A version without a cohort has no runs.
pub proof fn law_a_version_without_a_cohort_has_no_runs(
    b: Bucket,
    version: Seq<char>,
    rows: Seq<RatedBucket>,
)
    requires
        is_bucket_of(b, version, rows),
        forall|i: int|
            0 <= i < rows.len() ==> !((#[trigger] rows[i]).bucket@.key.dom().contains("version"@)
                && rows[i].bucket@.key["version"@] == Some(version)),
    ensures
        b.version@ == version,
        !b.present,
        b.total == 0 && b.succeeded == 0 && b.failed == 0,
        b.p50_ms is None && b.p95_ms is None,
        b.top_notes@.len() == 0,
{
    lemma_no_row(version, rows, 0);
}

/// The difference of two versions with runs is the second less the first, each way round the
/// same up to the sign.
pub proof fn law_the_difference_is_the_second_less_the_first(a: Bucket, b: Bucket, rate: JsonView)
    requires
        a.present,
        b.present,
    ensures
        delta_report(a, b, rate) matches JsonView::Object(m) && {
            &&& stands_under(m, "success_rate"@, rate)
            &&& stands_under(m, "runs_total"@, JsonView::Int(b.total - a.total))
            &&& a.p50_ms is Some && b.p50_ms is Some ==> stands_under(
                m,
                "p50_ms"@,
                JsonView::Float(signed_decimal(b.p50_ms->0 - a.p50_ms->0) + ".0"@),
            )
            &&& a.p50_ms is None || b.p50_ms is None ==> stands_under(m, "p50_ms"@, JsonView::Null)
            &&& a.p95_ms is Some && b.p95_ms is Some ==> stands_under(
                m,
                "p95_ms"@,
                JsonView::Float(signed_decimal(b.p95_ms->0 - a.p95_ms->0) + ".0"@),
            )
            &&& a.p95_ms is None || b.p95_ms is None ==> stands_under(m, "p95_ms"@, JsonView::Null)
        },
{
    let m = delta_report(a, b, rate)->Object_0;
    assert(m[0] == ("success_rate"@, rate));
    assert(m[1].0 == "p50_ms"@);
    assert(m[2].0 == "p95_ms"@);
    assert(m[3] == ("runs_total"@, JsonView::Int(b.total - a.total)));
    assert(m.contains(m[1]));
    assert(m.contains(m[2]));
}

/// More is told with a plus sign, less with a minus sign, and no difference with none.
pub proof fn law_differences_have_their_sign(n: nat)
    requires
        n > 0,
    ensures
        plus_minus(n as int) == seq!['+'] + decimal(n),
        plus_minus(-n) == seq!['-'] + decimal(n),
        plus_minus(0) == decimal(0),
{
    reveal_strlit("+");
    assert("+"@ =~= seq!['+']);
}

// ---------------------------------------------------------------------------
// Overview
// ---------------------------------------------------------------------------

proof fn lemma_shown(names: Seq<Seq<char>>, n: int, p: spec_fn(Seq<char>) -> bool)
    requires
        0 <= n <= names.len(),
        forall|x: Seq<char>| #[trigger] p(x) == !(x.len() > 0 && x[0] == '.'),
    ensures
        shown_names(names, n) == names.take(n).filter(p),
    decreases n,
{
    reveal(Seq::filter);
    reveal_strlit(".");
    if n > 0 {
        lemma_shown(names, n - 1, p);
        let x = names[n - 1];
        assert(has_prefix(x, "."@) <==> x.len() > 0 && x[0] == '.') by {
            if x.len() > 0 {
                assert(x.take(1)[0] == x[0]);
                if x[0] == '.' {
                    assert(x.take(1) =~= "."@);
                }
            }
        }
        assert(names.take(n).drop_last() =~= names.take(n - 1));
        assert(names.take(n).last() == names[n - 1]);
    } else {
        assert(names.take(0).filter(p) =~= seq![]);
    }
}

/// The directories whose names do not start with a dot are the skills, in their order.
pub proof fn law_all_but_hidden_directories_are_skills(names: Seq<Seq<char>>)
    ensures
        shown_names(names, names.len() as int) == names.filter(
            |x: Seq<char>| !(x.len() > 0 && x[0] == '.'),
        ),
{
    let p = |x: Seq<char>| !(x.len() > 0 && x[0] == '.');
    lemma_shown(names, names.len() as int, p);
    assert(names.take(names.len() as int) =~= names);
}

proof fn lemma_stale(s: Seq<RatedSkill>, n: int, p: spec_fn(RatedSkill) -> bool)
    requires
        0 <= n <= s.len(),
        forall|x: RatedSkill| #[trigger] p(x) == x.overview.stale,
    ensures
        stale_count(s, n) == s.take(n).filter(p).len(),
    decreases n,
{
    reveal(Seq::filter);
    if n > 0 {
        lemma_stale(s, n - 1, p);
        assert(s.take(n).drop_last() =~= s.take(n - 1));
        assert(s.take(n).last() == s[n - 1]);
    } else {
        assert(s.take(0).filter(p) =~= seq![]);
    }
}

/// The stale skills are counted.
pub proof fn law_stale_skills_are_counted(s: Seq<RatedSkill>)
    ensures
        stale_count(s, s.len() as int) == s.filter(|x: RatedSkill| x.overview.stale).len(),
{
    let p = |x: RatedSkill| x.overview.stale;
    lemma_stale(s, s.len() as int, p);
    assert(s.take(s.len() as int) =~= s);
}

proof fn lemma_worse(s: Seq<RatedSkill>, n: int, f: spec_fn(int) -> Option<Seq<char>>)
    requires
        0 <= n <= s.len(),
        forall|i: int| #[trigger]
            f(i) == (if s[i].regression is Some {
                Some(s[i].overview.slug@)
            } else {
                None
            }),
    ensures
        worse_skills(s, n) == positions(n).filter_map(f),
    decreases n,
{
    lemma_picked(n, f);
    if n > 0 {
        lemma_worse(s, n - 1, f);
    }
}

/// The skills that got worse are named, each of them and no others, in their order.
pub proof fn law_every_skill_that_got_worse_is_named(s: Seq<RatedSkill>)
    ensures
        worse_skills(s, s.len() as int) == positions(s.len() as int).filter_map(
            |i: int|
                if s[i].regression is Some {
                    Some(s[i].overview.slug@)
                } else {
                    None
                },
        ),
{
    let f = |i: int|
        if s[i].regression is Some {
            Some(s[i].overview.slug@)
        } else {
            None
        };
    lemma_worse(s, s.len() as int, f);
}

/// The summary counts the skills and the stale ones and names those that got worse.
pub proof fn law_the_summary_counts(s: Seq<RatedSkill>)
    ensures
        summary_report(s) matches JsonView::Object(m) && {
            &&& stands_under(m, "skills_total"@, JsonView::Int(s.len() as int))
            &&& stands_under(
                m,
                "skills_stale"@,
                JsonView::Int(s.filter(|x: RatedSkill| x.overview.stale).len() as int),
            )
            &&& stands_under(
                m,
                "regressions"@,
                JsonView::Array(text_values(worse_skills(s, s.len() as int))),
            )
        },
{
    law_stale_skills_are_counted(s);
    let m = summary_report(s)->Object_0;
    assert(m[0] == ("skills_total"@, JsonView::Int(s.len() as int)));
    assert(m[1].0 == "skills_stale"@);
    assert(m.contains(m[1]));
    assert(m[2].0 == "regressions"@);
    assert(m.contains(m[2]));
}

/// A skill that got worse is flagged so, also where it is stale; a stale one is flagged as
/// such, and any other has no flag.
pub proof fn law_flags_tell_the_worst(s: RatedSkill)
    ensures
        s.regression is Some ==> flag_of(s) == " REGRESSION"@,
        s.regression is None && s.overview.stale ==> flag_of(s) == " stale"@,
        s.regression is None && !s.overview.stale ==> flag_of(s).len() == 0,
{
    reveal_strlit("");
}

/// A skill is told with its version behind it, where it has one.
pub proof fn law_skills_are_told_with_their_version(skill: Seq<char>, version: Seq<char>)
    ensures
        skill_label(Some(skill), Some(version)) == skill + seq!['@'] + version,
        skill_label(Some(skill), None) == skill,
{
    reveal_strlit("@");
    reveal_strlit("");
    assert(skill_label(Some(skill), Some(version)) =~= skill + seq!['@'] + version);
    assert(skill_label(Some(skill), None) =~= skill);
}

} // verus!
