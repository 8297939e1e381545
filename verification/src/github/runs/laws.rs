//! What holds of runs that are read from their events, whatever the events.

use vstd::prelude::*;

use crate::github::runs::{
    events_of, gathered, latest_mark, line_event, run_found, run_in, window_events, EndingView,
    EventView, SnapshotView,
};
use crate::text::views;
use crate::time::Timestamp;

verus! {

// ---------------------------------------------------------------------------
// What a run is
// ---------------------------------------------------------------------------

/// What no event of the run says, is not said of it.
proof fn lemma_none_said(events: Seq<EventView>, n: int, run_id: Seq<char>)
    requires
        0 <= n <= events.len(),
    ensures
        gathered(events, n, run_id, None) is Some <==> exists|i: int|
            0 <= i < n && (#[trigger] events[i]).run_id == run_id,
        gathered(events, n, run_id, None) matches Some(s) ==> {
            &&& s.run_id == run_id
            &&& s.duration_ms is None
            &&& (forall|i: int|
                0 <= i < n && (#[trigger] events[i]).run_id == run_id ==> events[i].skill is None)
                ==> s.skill is None
            &&& (forall|i: int|
                0 <= i < n && (#[trigger] events[i]).run_id == run_id ==> events[i].version is None)
                ==> s.version is None
            &&& (forall|i: int|
                0 <= i < n && (#[trigger] events[i]).run_id == run_id ==> events[i].agent is None)
                ==> s.agent is None
            &&& (forall|i: int|
                0 <= i < n && (#[trigger] events[i]).run_id == run_id ==> events[i].inputs.len() == 0)
                ==> s.inputs.len() == 0
            &&& (forall|i: int|
                0 <= i < n && (#[trigger] events[i]).run_id == run_id ==> events[i].outputs.len()
                    == 0) ==> s.outputs.len() == 0
            &&& (forall|i: int|
                0 <= i < n && (#[trigger] events[i]).run_id == run_id ==> events[i].event
                    != "started"@) ==> s.started_at is None
            &&& (forall|i: int|
                0 <= i < n && (#[trigger] events[i]).run_id == run_id ==> events[i].event
                    != "marked"@ || events[i].note is None) ==> s.note is None
            &&& (forall|i: int|
                0 <= i < n && (#[trigger] events[i]).run_id == run_id ==> events[i].event
                    != "marked"@) ==> s.completed_at is None && s.status == (if s.started_at is Some {
                "started"@
            } else {
                "unknown"@
            })
        },
    decreases n,
{
    if n > 0 {
        lemma_none_said(events, n - 1, run_id);
        if gathered(events, n - 1, run_id, None) is Some {
            let i = choose|i: int| 0 <= i < n - 1 && (#[trigger] events[i]).run_id == run_id;
            assert(events[i].run_id == run_id);
        }
        if events[n - 1].run_id == run_id {
            assert(events[n - 1].run_id == run_id);
        }
    }
}

/// The first event of the run that says what it is, is the one that counts.
proof fn lemma_first_said(events: Seq<EventView>, n: int, run_id: Seq<char>, k: int)
    requires
        0 <= k < n <= events.len(),
        events[k].run_id == run_id,
    ensures
        gathered(events, n, run_id, None) matches Some(s) && {
            &&& events[k].skill is Some && (forall|i: int|
                0 <= i < k && (#[trigger] events[i]).run_id == run_id ==> events[i].skill is None)
                ==> s.skill == events[k].skill
            &&& events[k].version is Some && (forall|i: int|
                0 <= i < k && (#[trigger] events[i]).run_id == run_id ==> events[i].version is None)
                ==> s.version == events[k].version
            &&& events[k].agent is Some && (forall|i: int|
                0 <= i < k && (#[trigger] events[i]).run_id == run_id ==> events[i].agent is None)
                ==> s.agent == events[k].agent
            &&& events[k].inputs.len() > 0 && (forall|i: int|
                0 <= i < k && (#[trigger] events[i]).run_id == run_id ==> events[i].inputs.len() == 0)
                ==> s.inputs == events[k].inputs
            &&& events[k].outputs.len() > 0 && (forall|i: int|
                0 <= i < k && (#[trigger] events[i]).run_id == run_id ==> events[i].outputs.len()
                    == 0) ==> s.outputs == events[k].outputs
            &&& events[k].event == "started"@ && (forall|i: int|
                0 <= i < k && (#[trigger] events[i]).run_id == run_id ==> events[i].event
                    != "started"@) ==> s.started_at == Some(events[k].at)
        },
    decreases n,
{
    if k < n - 1 {
        lemma_first_said(events, n - 1, run_id, k);
    } else {
        lemma_none_said(events, n - 1, run_id);
    }
}

/// What a run is, is said by the first of its events that says it: its skill, its
/// version, its agent, what went in and what came out. It started with the first event
/// that says so.
pub proof fn law_the_first_to_say_counts(events: Seq<EventView>, run_id: Seq<char>, k: int)
    requires
        0 <= k < events.len(),
        events[k].run_id == run_id,
    ensures
        run_in(events, run_id) matches Some(s) && {
            &&& s.run_id == run_id
            &&& events[k].skill is Some && (forall|i: int|
                0 <= i < k && (#[trigger] events[i]).run_id == run_id ==> events[i].skill is None)
                ==> s.skill == events[k].skill
            &&& events[k].version is Some && (forall|i: int|
                0 <= i < k && (#[trigger] events[i]).run_id == run_id ==> events[i].version is None)
                ==> s.version == events[k].version
            &&& events[k].agent is Some && (forall|i: int|
                0 <= i < k && (#[trigger] events[i]).run_id == run_id ==> events[i].agent is None)
                ==> s.agent == events[k].agent
            &&& events[k].inputs.len() > 0 && (forall|i: int|
                0 <= i < k && (#[trigger] events[i]).run_id == run_id ==> events[i].inputs.len() == 0)
                ==> s.inputs == events[k].inputs
            &&& events[k].outputs.len() > 0 && (forall|i: int|
                0 <= i < k && (#[trigger] events[i]).run_id == run_id ==> events[i].outputs.len()
                    == 0) ==> s.outputs == events[k].outputs
            &&& events[k].event == "started"@ && (forall|i: int|
                0 <= i < k && (#[trigger] events[i]).run_id == run_id ==> events[i].event
                    != "started"@) ==> s.started_at == Some(events[k].at)
        },
{
    lemma_first_said(events, events.len() as int, run_id, k);
    lemma_none_said(events, events.len() as int, run_id);
}

/// Nothing is made up: there is a run exactly where an event is of it, and what none of
/// its events says is not said of it. A run without a mark has no end, and is known as
/// started or not at all.
pub proof fn law_nothing_is_made_up(events: Seq<EventView>, run_id: Seq<char>)
    ensures
        run_in(events, run_id) is Some <==> exists|i: int|
            0 <= i < events.len() && (#[trigger] events[i]).run_id == run_id,
        run_in(events, run_id) matches Some(s) ==> {
            let n = events.len();
            &&& (forall|i: int|
                0 <= i < n && (#[trigger] events[i]).run_id == run_id ==> events[i].skill is None)
                ==> s.skill is None
            &&& (forall|i: int|
                0 <= i < n && (#[trigger] events[i]).run_id == run_id ==> events[i].version is None)
                ==> s.version is None
            &&& (forall|i: int|
                0 <= i < n && (#[trigger] events[i]).run_id == run_id ==> events[i].agent is None)
                ==> s.agent is None
            &&& (forall|i: int|
                0 <= i < n && (#[trigger] events[i]).run_id == run_id ==> events[i].inputs.len() == 0)
                ==> s.inputs.len() == 0
            &&& (forall|i: int|
                0 <= i < n && (#[trigger] events[i]).run_id == run_id ==> events[i].outputs.len()
                    == 0) ==> s.outputs.len() == 0
            &&& (forall|i: int|
                0 <= i < n && (#[trigger] events[i]).run_id == run_id ==> events[i].event
                    != "started"@) ==> s.started_at is None
            &&& (forall|i: int|
                0 <= i < n && (#[trigger] events[i]).run_id == run_id ==> events[i].event
                    != "marked"@ || events[i].note is None) ==> s.note is None
            &&& (forall|i: int|
                0 <= i < n && (#[trigger] events[i]).run_id == run_id ==> events[i].event
                    != "marked"@) ==> s.completed_at is None && s.status == (if s.started_at is Some {
                "started"@
            } else {
                "unknown"@
            })
        },
{
    let n = events.len() as int;
    lemma_none_said(events, n, run_id);
    lemma_no_mark(events, n, run_id);
}

proof fn lemma_no_mark(events: Seq<EventView>, n: int, run_id: Seq<char>)
    requires
        0 <= n <= events.len(),
    ensures
        (forall|i: int|
            0 <= i < n && (#[trigger] events[i]).run_id == run_id ==> events[i].event != "marked"@)
            ==> latest_mark(events, n, run_id, None) is None,
    decreases n,
{
    if n > 0 {
        lemma_no_mark(events, n - 1, run_id);
    }
}

/// Of a lone event that starts a run, the run has all that the event says.
pub proof fn law_a_lone_start_is_the_run(e: EventView)
    requires
        e.event == "started"@,
    ensures
        run_in(seq![e], e.run_id) == Some(
            SnapshotView {
                run_id: e.run_id,
                skill: e.skill,
                version: e.version,
                agent: e.agent,
                inputs: e.inputs,
                outputs: e.outputs,
                status: "started"@,
                note: None,
                started_at: Some(e.at),
                completed_at: None,
                duration_ms: None,
            },
        ),
{
    reveal_strlit("started");
    reveal_strlit("marked");
    assert("started"@.len() != "marked"@.len());
    let events = seq![e];
    assert(events[0] == e);
    law_the_first_to_say_counts(events, e.run_id, 0);
    law_nothing_is_made_up(events, e.run_id);
    let s = run_in(events, e.run_id)->0;
    if e.inputs.len() == 0 {
        assert(s.inputs =~= e.inputs);
    }
    if e.outputs.len() == 0 {
        assert(s.outputs =~= e.outputs);
    }
    lemma_none_said(events, 1, e.run_id);
    lemma_no_mark(events, 1, e.run_id);
}

// ---------------------------------------------------------------------------
// How a run ended
// ---------------------------------------------------------------------------

/// `a` comes before `b` in time.
pub open spec fn earlier(a: Timestamp, b: Timestamp) -> bool {
    a.secs < b.secs || (a.secs == b.secs && a.nanos < b.nanos)
}

proof fn lemma_latest_says(events: Seq<EventView>, n: int, run_id: Seq<char>, k: int)
    requires
        0 <= n <= events.len(),
        0 <= k < events.len(),
        events[k].run_id == run_id,
        events[k].event == "marked"@,
        forall|i: int|
            0 <= i < events.len() && (#[trigger] events[i]).run_id == run_id && events[i].event
                == "marked"@ && events[i] != events[k] ==> earlier(events[i].at, events[k].at),
    ensures
        k < n ==> latest_mark(events, n, run_id, None) == Some(
            EndingView { at: events[k].at, status: events[k].status },
        ),
        k >= n ==> (latest_mark(events, n, run_id, None) matches Some(m) ==> earlier(
            m.at,
            events[k].at,
        ) || m == (EndingView { at: events[k].at, status: events[k].status })),
    decreases n,
{
    if n > 0 {
        lemma_latest_says(events, n - 1, run_id, k);
        if events[n - 1] == events[k] {
        }
    }
}

/// How a run ended is said by its latest mark, wherever that stands: when it ended, and
/// with what status where the mark has one. A note is that of the last mark that has
/// one.
pub proof fn law_the_latest_mark_says_how_it_ended(
    events: Seq<EventView>,
    run_id: Seq<char>,
    k: int,
)
    requires
        0 <= k < events.len(),
        events[k].run_id == run_id,
        events[k].event == "marked"@,
        forall|i: int|
            0 <= i < events.len() && (#[trigger] events[i]).run_id == run_id && events[i].event
                == "marked"@ && events[i] != events[k] ==> earlier(events[i].at, events[k].at),
    ensures
        run_in(events, run_id) matches Some(s) && s.completed_at == Some(events[k].at) && (
        events[k].status matches Some(st) ==> s.status == st),
{
    lemma_none_said(events, events.len() as int, run_id);
    lemma_latest_says(events, events.len() as int, run_id, k);
}

proof fn lemma_last_note(events: Seq<EventView>, n: int, run_id: Seq<char>, k: int)
    requires
        0 <= k < n <= events.len(),
        events[k].run_id == run_id,
        events[k].event == "marked"@,
        events[k].note is Some,
        forall|i: int|
            k < i < n && (#[trigger] events[i]).run_id == run_id ==> events[i].event != "marked"@
                || events[i].note is None,
    ensures
        gathered(events, n, run_id, None) matches Some(s) && s.note == events[k].note,
    decreases n,
{
    reveal_strlit("started");
    reveal_strlit("marked");
    assert("started"@.len() != "marked"@.len());
    if k < n - 1 {
        lemma_last_note(events, n - 1, run_id, k);
    }
}

/// The note of a run is that of the last of its marks that has one.
pub proof fn law_the_last_note_stays(events: Seq<EventView>, run_id: Seq<char>, k: int)
    requires
        0 <= k < events.len(),
        events[k].run_id == run_id,
        events[k].event == "marked"@,
        events[k].note is Some,
        forall|i: int|
            k < i < events.len() && (#[trigger] events[i]).run_id == run_id ==> events[i].event
                != "marked"@ || events[i].note is None,
    ensures
        run_in(events, run_id) matches Some(s) && s.note == events[k].note,
{
    lemma_last_note(events, events.len() as int, run_id, k);
}

/// A run that started and ended took the whole milliseconds that lie between: there is a
/// duration where the end is not before the start, and it is no more than a millisecond
/// short of the time between. Without a start or an end there is none.
pub proof fn law_durations_are_the_time_between(events: Seq<EventView>, run_id: Seq<char>)
    ensures
        run_in(events, run_id) matches Some(s) ==> match (s.started_at, s.completed_at) {
            (Some(a), Some(b)) => a.nanos < 1_000_000_000 && b.nanos < 1_000_000_000 ==> {
                let t = (b.secs - a.secs) * 1_000_000_000 + (b.nanos - a.nanos);
                &&& 0 <= t < 0x1_0000_0000_0000_0000 * 1_000_000 ==> (s.duration_ms matches Some(d)
                    && d * 1_000_000 <= t < (d + 1) * 1_000_000)
                &&& t <= -1_000_000 ==> s.duration_ms is None
            },
            _ => s.duration_ms is None,
        },
{
    lemma_none_said(events, events.len() as int, run_id);
}

// ---------------------------------------------------------------------------
// Day files
// ---------------------------------------------------------------------------

proof fn lemma_events_are_read(
    lines: Seq<Seq<char>>,
    n: int,
    f: spec_fn(Seq<char>) -> Option<EventView>,
)
    requires
        0 <= n <= lines.len(),
        forall|l: Seq<char>| #[trigger] f(l) == line_event(l),
    ensures
        events_of(lines, n) == lines.take(n).filter_map(f),
    decreases n,
{
    if n > 0 {
        lemma_events_are_read(lines, n - 1, f);
        assert(lines.take(n).drop_last() =~= lines.take(n - 1));
        assert(lines.take(n).last() == lines[n - 1]);
        assert(events_of(lines, n) =~= lines.take(n).filter_map(f));
    } else {
        assert(lines.take(0) =~= seq![]);
        assert(lines.take(0).filter_map(f) =~= seq![]);
    }
}

/// The events of a day file are those of its lines, in order. A line without one is
/// passed over.
pub proof fn law_each_line_is_read(lines: Seq<Seq<char>>)
    ensures
        events_of(lines, lines.len() as int) == lines.filter_map(|l: Seq<char>| line_event(l)),
{
    lemma_events_are_read(lines, lines.len() as int, |l: Seq<char>| line_event(l));
    assert(lines.take(lines.len() as int) =~= lines);
}

/// An event is one of a day file exactly where it is that of one of its lines.
proof fn lemma_event_has_a_line(lines: Seq<Seq<char>>, n: int, e: EventView)
    requires
        0 <= n <= lines.len(),
    ensures
        events_of(lines, n).contains(e) <==> exists|j: int|
            0 <= j < n && line_event(#[trigger] lines[j]) == Some(e),
    decreases n,
{
    if n > 0 {
        lemma_event_has_a_line(lines, n - 1, e);
        let was = events_of(lines, n - 1);
        let now = events_of(lines, n);
        if was.contains(e) {
            let i = choose|i: int| 0 <= i < was.len() && was[i] == e;
            assert(now[i] == e);
        }
        if line_event(lines[n - 1]) == Some(e) {
            assert(now[was.len() as int] == e);
            assert(line_event(lines[n - 1]) == Some(e));
        }
        if now.contains(e) {
            let i = choose|i: int| 0 <= i < now.len() && now[i] == e;
            if i < was.len() {
                assert(was[i] == e);
                let j = choose|j: int| 0 <= j < n - 1 && line_event(#[trigger] lines[j]) == Some(e);
                assert(line_event(lines[j]) == Some(e));
            } else {
                assert(line_event(lines[n - 1]) == Some(e));
            }
        }
    }
}

/// The event is that of a line of one of the first `n` day files.
pub open spec fn has_line(days: Seq<Vec<String>>, n: int, e: EventView) -> bool {
    exists|i: int, j: int|
        0 <= i < n && 0 <= j < days[i]@.len() && line_event((#[trigger] days[i]@[j])@) == Some(e)
}

/// The events of day files are exactly those of their lines.
pub proof fn law_events_are_those_of_the_lines(days: Seq<Vec<String>>, n: int, e: EventView)
    requires
        0 <= n <= days.len(),
    ensures
        window_events(days, n).contains(e) <==> exists|i: int, j: int|
            0 <= i < n && 0 <= j < days[i]@.len() && line_event((#[trigger] days[i]@[j])@) == Some(
                e,
            ),
    decreases n,
{
    if n > 0 {
        law_events_are_those_of_the_lines(days, n - 1, e);
        let lines = views(days[n - 1]@);
        lemma_event_has_a_line(lines, lines.len() as int, e);
        let was = window_events(days, n - 1);
        let here = events_of(lines, lines.len() as int);
        let now = window_events(days, n);
        if was.contains(e) {
            let i = choose|i: int| 0 <= i < was.len() && was[i] == e;
            assert(now[i] == e);
        }
        if here.contains(e) {
            let i = choose|i: int| 0 <= i < here.len() && here[i] == e;
            assert(now[was.len() + i] == e);
            let j = choose|j: int| 0 <= j < lines.len() && line_event(#[trigger] lines[j]) == Some(e);
            assert(line_event(days[n - 1]@[j]@) == Some(e));
        }
        if now.contains(e) {
            let i = choose|i: int| 0 <= i < now.len() && now[i] == e;
            if i < was.len() {
                assert(was[i] == e);
            } else {
                assert(here[i - was.len()] == e);
            }
        }
        if has_line(days, n, e) {
            let (i, j) = choose|i: int, j: int|
                0 <= i < n && 0 <= j < days[i]@.len() && line_event((#[trigger] days[i]@[j])@)
                    == Some(e);
            if i == n - 1 {
                assert(lines[j] == days[i]@[j]@);
                assert(line_event(lines[j]) == Some(e));
            } else {
                assert(line_event(days[i]@[j]@) == Some(e));
            }
        }
    }
}

/// Day files that stand the other way round hold the same events.
proof fn lemma_reversed(days: Seq<Vec<String>>, e: EventView)
    ensures
        has_line(days, days.len() as int, e) <==> has_line(days.reverse(), days.len() as int, e),
{
    let n = days.len() as int;
    let back = days.reverse();
    if has_line(days, n, e) {
        let (i, j) = choose|i: int, j: int|
            0 <= i < n && 0 <= j < days[i]@.len() && line_event((#[trigger] days[i]@[j])@) == Some(e);
        assert(back[n - 1 - i] == days[i]);
        assert(line_event(back[n - 1 - i]@[j]@) == Some(e));
    }
    if has_line(back, n, e) {
        let (i, j) = choose|i: int, j: int|
            0 <= i < n && 0 <= j < back[i]@.len() && line_event((#[trigger] back[i]@[j])@) == Some(e);
        assert(back[i] == days[n - 1 - i]);
        assert(line_event(days[n - 1 - i]@[j]@) == Some(e));
    }
}

proof fn lemma_run_has_event(days: Seq<Vec<String>>, run_id: Seq<char>)
    ensures
        run_in(window_events(days, days.len() as int), run_id) is Some <==> exists|e: EventView|
            e.run_id == run_id && #[trigger] has_line(days, days.len() as int, e),
{
    let n = days.len() as int;
    let events = window_events(days, n);
    law_nothing_is_made_up(events, run_id);
    if run_in(events, run_id) is Some {
        let i = choose|i: int| 0 <= i < events.len() && (#[trigger] events[i]).run_id == run_id;
        assert(events.contains(events[i]));
        law_events_are_those_of_the_lines(days, n, events[i]);
        assert(has_line(days, n, events[i]));
    }
    assert forall|e: EventView|
        e.run_id == run_id && #[trigger] has_line(days, n, e) implies run_in(events, run_id) is Some by {
        law_events_are_those_of_the_lines(days, n, e);
        let i = choose|i: int| 0 <= i < events.len() && events[i] == e;
        assert(events[i].run_id == run_id);
    }
}

/// A run is found exactly where some line, of whatever day, holds an event of it.
pub proof fn law_runs_with_a_line_are_found(
    recent: Seq<Vec<String>>,
    older: Seq<Vec<String>>,
    run_id: Seq<char>,
)
    ensures
        run_found(recent, older, run_id) is Some <==> (exists|e: EventView|
            e.run_id == run_id && #[trigger] has_line(recent, recent.len() as int, e)) || (exists|
            e: EventView,
        | e.run_id == run_id && #[trigger] has_line(older, older.len() as int, e)),
{
    lemma_run_has_event(recent.reverse(), run_id);
    lemma_run_has_event(older, run_id);
    assert forall|e: EventView| #[trigger] has_line(recent, recent.len() as int, e) <==> has_line(
        recent.reverse(),
        recent.len() as int,
        e,
    ) by {
        lemma_reversed(recent, e);
    }
    assert(recent.reverse().len() == recent.len());
    if run_in(window_events(recent.reverse(), recent.len() as int), run_id) is Some {
        let e = choose|e: EventView|
            e.run_id == run_id && #[trigger] has_line(recent.reverse(), recent.len() as int, e);
        assert(has_line(recent, recent.len() as int, e));
    }
    assert forall|e: EventView|
        e.run_id == run_id && #[trigger] has_line(recent, recent.len() as int, e) implies run_found(
        recent,
        older,
        run_id,
    ) is Some by {
        assert(has_line(recent.reverse(), recent.len() as int, e));
    }
}

/// Of a run that recent day files know, the latest mark in any of them says how it ended,
/// in whatever order the files are given.
pub proof fn law_the_latest_mark_of_any_day_counts(
    recent: Seq<Vec<String>>,
    older: Seq<Vec<String>>,
    run_id: Seq<char>,
    mark: EventView,
)
    requires
        has_line(recent, recent.len() as int, mark),
        mark.run_id == run_id,
        mark.event == "marked"@,
        forall|e: EventView| #[trigger]
            has_line(recent, recent.len() as int, e) && e.run_id == run_id && e.event == "marked"@
                && e != mark ==> earlier(e.at, mark.at),
    ensures
        run_found(recent, older, run_id) matches Some(s) && s.completed_at == Some(mark.at) && (
        mark.status matches Some(st) ==> s.status == st),
{
    let n = recent.len() as int;
    let back = recent.reverse();
    let events = window_events(back, n);
    lemma_reversed(recent, mark);
    law_events_are_those_of_the_lines(back, n, mark);
    let k = choose|k: int| 0 <= k < events.len() && events[k] == mark;
    assert forall|i: int|
        0 <= i < events.len() && (#[trigger] events[i]).run_id == run_id && events[i].event
            == "marked"@ && events[i] != events[k] implies earlier(events[i].at, events[k].at) by {
        assert(events.contains(events[i]));
        law_events_are_those_of_the_lines(back, n, events[i]);
        lemma_reversed(recent, events[i]);
        assert(has_line(recent, n, events[i]));
    }
    law_the_latest_mark_says_how_it_ended(events, run_id, k);
}

} // verus!
