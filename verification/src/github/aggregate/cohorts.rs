//! What the numbers of a cohort mean, said of its runs one by one.

use vstd::prelude::*;

use crate::github::aggregate::{
    bucket_of, cohort, cohort_keys, coordinates, durations, failed_count, failure_note, grouped,
    key_map, keys_so_far, last_active, law_cohorts_partition_the_runs, note_counts, note_key,
    percentile_of, reduced, scanned_runs, selected, series, settled_runs, slice_rows, slice_start,
    succeeded_count, tallied, tally_index, top_notes, with_key, NoteCount, Rate, TallyView,
    TrendInterval,
};
use crate::github::aggregate::laws::{law_last_activity_is_the_latest, lemma_in_rank};
use crate::github::runs::{run_in, window_events, RunSnapshot, SnapshotView};
use crate::order::{in_rank, law_arranging_sorts, Ranked};
use crate::text::{lowercased, trimmed};
use crate::time::{day_of, Timestamp};

verus! {

// ---------------------------------------------------------------------------
// Percentiles
// ---------------------------------------------------------------------------

/// The value at a hundredth of sorted values is the one at the position that is nearest
/// to that share of the way from the first to the last.
pub proof fn law_a_percentile_is_the_nearest_value(sorted: Seq<u64>, percent: int, k: int)
    requires
        0 <= percent <= 100,
        0 <= k < sorted.len(),
        100 * k - 50 <= (sorted.len() - 1) * percent < 100 * k + 50,
    ensures
        percentile_of(sorted, percent) == Some(sorted[k]),
{
    let p = (sorted.len() - 1) * percent;
    assert((p + 50) / 100 == k);
}

/// There is such a position for every share, so there is a value wherever there are
/// values at all; the share of none is the first of them and that of all is the last.
pub proof fn law_every_share_has_a_value(sorted: Seq<u64>, percent: int)
    requires
        0 <= percent <= 100,
    ensures
        sorted.len() == 0 ==> percentile_of(sorted, percent) is None,
        sorted.len() > 0 ==> percentile_of(sorted, percent) is Some && sorted.contains(
            percentile_of(sorted, percent)->0,
        ),
        sorted.len() > 0 ==> percentile_of(sorted, 0) == Some(sorted[0]) && percentile_of(
            sorted,
            100,
        ) == Some(sorted.last()),
{
    if sorted.len() > 0 {
        let n = sorted.len() - 1;
        assert(0 <= n * percent <= n * 100) by (nonlinear_arith)
            requires
                0 <= n,
                0 <= percent <= 100,
        ;
        let k = (n * percent + 50) / 100;
        assert(0 <= k <= n);
        law_a_percentile_is_the_nearest_value(sorted, percent, k);
        assert(sorted.contains(sorted[k]));
        law_a_percentile_is_the_nearest_value(sorted, 0, 0);
        assert(n * 100 < 100 * n + 50);
        law_a_percentile_is_the_nearest_value(sorted, 100, n);
    }
}

proof fn lemma_durations(
    rows: Seq<SnapshotView>,
    n: int,
    f: spec_fn(SnapshotView) -> Option<u64>,
)
    requires
        0 <= n <= rows.len(),
        forall|s: SnapshotView| #[trigger] f(s) == s.duration_ms,
    ensures
        durations(rows, n) == rows.take(n).filter_map(f),
    decreases n,
{
    if n > 0 {
        lemma_durations(rows, n - 1, f);
        assert(rows.take(n).drop_last() =~= rows.take(n - 1));
        assert(rows.take(n).last() == rows[n - 1]);
        assert(durations(rows, n) =~= rows.take(n).filter_map(f));
    } else {
        assert(rows.take(0) =~= seq![]);
    }
}

/// The middle and the upper duration of a cohort are those of its runs' durations in
/// order: the values at the positions nearest to one half and to ninety-five hundredths
/// of the way.
pub proof fn law_percentiles_of_a_cohort(
    key: Map<Seq<char>, Option<Seq<char>>>,
    rows: Seq<SnapshotView>,
    sorted: Seq<u64>,
    k: int,
)
    requires
        sorted.to_multiset() == rows.filter_map(
            |s: SnapshotView| s.duration_ms,
        ).to_multiset(),
        forall|i: int, j: int| 0 <= i < j < sorted.len() ==> sorted[i] <= sorted[j],
        0 <= k < sorted.len(),
    ensures
        100 * k - 50 <= (sorted.len() - 1) * 50 < 100 * k + 50 ==> bucket_of(key, rows).p50_ms
            == Some(sorted[k]),
        100 * k - 50 <= (sorted.len() - 1) * 95 < 100 * k + 50 ==> bucket_of(key, rows).p95_ms
            == Some(sorted[k]),
{
    let f = |s: SnapshotView| s.duration_ms;
    let n = rows.len() as int;
    lemma_durations(rows, n, f);
    assert(rows.take(n) =~= rows);
    let d = durations(rows, n);
    assert(d == rows.filter_map(f));
    law_arranging_sorts::<u64>(d, d.len() as int);
    assert(d.take(d.len() as int) =~= d);
    let r = in_rank::<u64>(d);
    let leq = |a: u64, b: u64| a <= b;
    assert(vstd::relations::sorted_by(r, leq)) by {
        assert forall|i: int, j: int| 0 <= i < j < r.len() implies #[trigger] leq(r[i], r[j]) by {
            assert(u64::leq(r[i], r[j]));
        }
    }
    assert(vstd::relations::sorted_by(sorted, leq));
    assert(vstd::relations::total_ordering(leq));
    vstd::seq_lib::lemma_sorted_unique(r, sorted, leq);
    assert(r == sorted);
    if 100 * k - 50 <= (sorted.len() - 1) * 50 < 100 * k + 50 {
        law_a_percentile_is_the_nearest_value(sorted, 50, k);
    }
    if 100 * k - 50 <= (sorted.len() - 1) * 95 < 100 * k + 50 {
        law_a_percentile_is_the_nearest_value(sorted, 95, k);
    }
}

// ---------------------------------------------------------------------------
// Counts
// ---------------------------------------------------------------------------

proof fn lemma_counts_are_of_statuses(
    rows: Seq<SnapshotView>,
    n: int,
    good: spec_fn(SnapshotView) -> bool,
    bad: spec_fn(SnapshotView) -> bool,
)
    requires
        0 <= n <= rows.len(),
        forall|s: SnapshotView| #[trigger] good(s) == (s.status == "succeeded"@),
        forall|s: SnapshotView| #[trigger] bad(s) == (s.status == "failed"@ || s.status == "aborted"@),
    ensures
        succeeded_count(rows, n) == rows.take(n).filter(good).len(),
        failed_count(rows, n) == rows.take(n).filter(bad).len(),
    decreases n,
{
    reveal(Seq::filter);
    if n > 0 {
        lemma_counts_are_of_statuses(rows, n - 1, good, bad);
        assert(rows.take(n).drop_last() =~= rows.take(n - 1));
        assert(rows.take(n).last() == rows[n - 1]);
    }
}

/// A cohort counts each of its runs by its status: as succeeded, as failed where it
/// failed or was broken off, and as unmarked otherwise. Its rate is the share of the
/// succeeded ones among the two.
pub proof fn law_runs_are_counted_by_status(
    key: Map<Seq<char>, Option<Seq<char>>>,
    rows: Seq<SnapshotView>,
)
    requires
        rows.len() <= u64::MAX,
    ensures
        ({
            let b = bucket_of(key, rows);
            let good = rows.filter(|s: SnapshotView| s.status == "succeeded"@).len();
            let bad = rows.filter(
                |s: SnapshotView| s.status == "failed"@ || s.status == "aborted"@,
            ).len();
            &&& b.key == key
            &&& b.total == rows.len()
            &&& b.succeeded == good
            &&& b.failed == bad
            &&& b.unmarked + good + bad == rows.len()
            &&& b.success_rate == (if good + bad == 0 {
                None
            } else {
                Some(Rate { succeeded: good as u64, marked: (good + bad) as u64 })
            })
        }),
{
    let good = |s: SnapshotView| s.status == "succeeded"@;
    let bad = |s: SnapshotView| s.status == "failed"@ || s.status == "aborted"@;
    let n = rows.len() as int;
    lemma_counts_are_of_statuses(rows, n, good, bad);
    assert(rows.take(n) =~= rows);
    crate::github::aggregate::law_bucket_counts_add_up(key, rows);
}

/// When a run last did something: its end, else its start.
pub open spec fn last_moment(s: SnapshotView) -> Option<Timestamp> {
    if s.completed_at is Some {
        s.completed_at
    } else {
        s.started_at
    }
}

/// The last activity of a cohort is the latest end, or start of a run without an end,
/// that there is.
pub proof fn law_last_run_is_the_latest_one(
    key: Map<Seq<char>, Option<Seq<char>>>,
    rows: Seq<SnapshotView>,
)
    ensures
        bucket_of(key, rows).last_run_at is Some <==> exists|i: int|
            0 <= i < rows.len() && last_moment(#[trigger] rows[i]) is Some,
        bucket_of(key, rows).last_run_at matches Some(t) ==> (exists|i: int|
            0 <= i < rows.len() && last_moment(#[trigger] rows[i]) == Some(t)) && forall|i: int|
            0 <= i < rows.len() && last_moment(#[trigger] rows[i]) is Some ==> {
                let m = last_moment(rows[i])->0;
                m.secs < t.secs || (m.secs == t.secs && m.nanos <= t.nanos)
            },
{
    let n = rows.len() as int;
    law_last_activity_is_the_latest(rows, n);
    assert forall|i: int| 0 <= i < n implies last_moment(#[trigger] rows[i])
        == crate::github::aggregate::active_at(rows[i]) by {}
    if let Some(t) = bucket_of(key, rows).last_run_at {
        let i = choose|i: int|
            0 <= i < n && crate::github::aggregate::active_at(#[trigger] rows[i]) == last_active(rows, n);
        assert(last_moment(rows[i]) == Some(t));
    }
}

// ---------------------------------------------------------------------------
// Notes
// ---------------------------------------------------------------------------

/// The run failed, or was broken off, with a note whose key is the given one, which is
/// not empty.
pub open spec fn failed_with(s: SnapshotView, key: Seq<char>) -> bool {
    &&& s.status == "failed"@ || s.status == "aborted"@
    &&& s.note matches Some(n) && trimmed(n).len() > 0 && note_key(lowercased(trimmed(n))) == key
    &&& key.len() > 0
}

/// How many of the runs failed with the note.
pub open spec fn times_failed_with(rows: Seq<SnapshotView>, key: Seq<char>) -> nat {
    rows.filter(|s: SnapshotView| failed_with(s, key)).len()
}

proof fn lemma_tally_index(t: Seq<TallyView>, key: Seq<char>, from: int)
    requires
        0 <= from,
    ensures
        match tally_index(t, key, from) {
            Some(i) => from <= i < t.len() && t[i].key == key,
            None => forall|i: int| from <= i < t.len() ==> (#[trigger] t[i]).key != key,
        },
    decreases t.len() - from,
{
    if from < t.len() && t[from].key != key {
        lemma_tally_index(t, key, from + 1);
    }
}

/// The tally says of the key what the runs say.
spec fn says_of(t: Seq<TallyView>, rows: Seq<SnapshotView>, key: Seq<char>) -> bool {
    if times_failed_with(rows, key) == 0 {
        forall|i: int| 0 <= i < t.len() ==> (#[trigger] t[i]).key != key
    } else {
        exists|i: int| #[trigger] tally_at(t, i, key, times_failed_with(rows, key))
    }
}

spec fn tally_at(t: Seq<TallyView>, i: int, key: Seq<char>, count: nat) -> bool {
    0 <= i < t.len() && t[i].key == key && t[i].count == count
}

/// The form of the tally is that of the first run that failed with the key.
spec fn first_form(rows: Seq<SnapshotView>, e: TallyView) -> bool {
    exists|k: int| #[trigger] is_first_form(rows, e, k)
}

spec fn is_first_form(rows: Seq<SnapshotView>, e: TallyView, k: int) -> bool {
    &&& 0 <= k < rows.len()
    &&& failed_with(rows[k], e.key)
    &&& e.note == trimmed(rows[k].note->0)
    &&& forall|i: int| 0 <= i < k ==> !failed_with(#[trigger] rows[i], e.key)
}

proof fn lemma_times_push(rows: Seq<SnapshotView>, s: SnapshotView, key: Seq<char>)
    ensures
        times_failed_with(rows.push(s), key) == times_failed_with(rows, key) + (if failed_with(s, key) {
            1nat
        } else {
            0nat
        }),
{
    reveal(Seq::filter);
    assert(rows.push(s).drop_last() =~= rows);
}

proof fn lemma_no_times(rows: Seq<SnapshotView>, key: Seq<char>)
    ensures
        times_failed_with(rows, key) == 0 <==> forall|i: int|
            0 <= i < rows.len() ==> !failed_with(#[trigger] rows[i], key),
    decreases rows.len(),
{
    reveal(Seq::filter);
    if rows.len() > 0 {
        lemma_no_times(rows.drop_last(), key);
        lemma_times_push(rows.drop_last(), rows.last(), key);
        assert(rows =~= rows.drop_last().push(rows.last()));
        assert forall|i: int| 0 <= i < rows.len() - 1 implies rows.drop_last()[i] == #[trigger] rows[i] by {}
        if times_failed_with(rows, key) == 0 {
            assert forall|i: int| 0 <= i < rows.len() implies !failed_with(#[trigger] rows[i], key) by {
                if i < rows.len() - 1 {
                    assert(!failed_with(rows.drop_last()[i], key));
                }
            }
        }
    }
}

proof fn lemma_tallied(rows: Seq<SnapshotView>, n: int)
    requires
        0 <= n <= rows.len(),
    ensures
        forall|key: Seq<char>| #[trigger] says_of(tallied(rows, n), rows.take(n), key),
        forall|i: int, j: int|
            0 <= i < j < tallied(rows, n).len() ==> (#[trigger] tallied(rows, n)[i]).key != (
            #[trigger] tallied(rows, n)[j]).key,
        forall|i: int|
            0 <= i < tallied(rows, n).len() ==> first_form(
                rows.take(n),
                #[trigger] tallied(rows, n)[i],
            ),
    decreases n,
{
    if n == 0 {
        assert forall|key: Seq<char>| #[trigger] says_of(tallied(rows, 0), rows.take(0), key) by {
            lemma_no_times(rows.take(0), key);
        }
    } else {
        lemma_tallied(rows, n - 1);
        let was = tallied(rows, n - 1);
        let now = tallied(rows, n);
        let s = rows[n - 1];
        let before = rows.take(n - 1);
        assert(rows.take(n) =~= before.push(s));
        let own = if failure_note(s) is Some {
            note_key(lowercased(failure_note(s)->0))
        } else {
            seq![]
        };
        assert forall|key: Seq<char>| #[trigger] failed_with(s, key) <==> failure_note(s) is Some
            && key == own by {}
        lemma_tally_index(was, own, 0);
        assert forall|key: Seq<char>| #[trigger] says_of(now, rows.take(n), key) by {
            lemma_times_push(before, s, key);
            assert(says_of(was, before, key));
            lemma_no_times(before, key);
            if failure_note(s) is Some {
                match tally_index(was, own, 0) {
                    Some(at) => {
                        if key == own {
                            if times_failed_with(before, key) == 0 {
                                assert(was[at].key != key);
                            }
                            let i = choose|i: int|
                                tally_at(was, i, key, times_failed_with(before, key));
                            if i != at {
                                if i < at {
                                    assert(was[i].key != was[at].key);
                                } else {
                                    assert(was[at].key != was[i].key);
                                }
                            }
                            assert(tally_at(now, at, key, times_failed_with(rows.take(n), key)));
                        } else if times_failed_with(before, key) > 0 {
                            let i = choose|i: int|
                                tally_at(was, i, key, times_failed_with(before, key));
                            assert(tally_at(now, i, key, times_failed_with(rows.take(n), key)));
                        } else {
                            assert forall|i: int| 0 <= i < now.len() implies (#[trigger] now[i]).key
                                != key by {
                                assert(was[i].key != key);
                            }
                        }
                    },
                    None => {
                        if key == own {
                            if times_failed_with(before, key) > 0 {
                                let i = choose|i: int|
                                    tally_at(was, i, key, times_failed_with(before, key));
                                assert(was[i].key != key);
                            }
                            assert(tally_at(now, was.len() as int, key, 1));
                        } else if times_failed_with(before, key) > 0 {
                            let i = choose|i: int|
                                tally_at(was, i, key, times_failed_with(before, key));
                            assert(tally_at(now, i, key, times_failed_with(rows.take(n), key)));
                        } else {
                            assert forall|i: int| 0 <= i < now.len() implies (#[trigger] now[i]).key
                                != key by {
                                if i < was.len() {
                                    assert(was[i].key != key);
                                }
                            }
                        }
                    },
                }
            }
        }
        assert forall|i: int, j: int| 0 <= i < j < now.len() implies (#[trigger] now[i]).key != (
        #[trigger] now[j]).key by {
            if j < was.len() {
                assert(was[i].key != was[j].key);
            } else if i < was.len() {
                assert(was[i].key != own);
            }
        }
        assert forall|i: int| 0 <= i < now.len() implies first_form(
            rows.take(n),
            #[trigger] now[i],
        ) by {
            if i < was.len() {
                assert(first_form(before, was[i]));
                let k = choose|k: int| is_first_form(before, was[i], k);
                assert forall|m: int| 0 <= m < k implies !failed_with(
                    #[trigger] rows.take(n)[m],
                    now[i].key,
                ) by {
                    assert(!failed_with(before[m], was[i].key));
                }
                assert(is_first_form(rows.take(n), now[i], k));
            } else {
                assert(says_of(was, before, own));
                lemma_no_times(before, own);
                if times_failed_with(before, own) > 0 {
                    let m = choose|m: int| tally_at(was, m, own, times_failed_with(before, own));
                    assert(was[m].key != own);
                }
                assert forall|m: int| 0 <= m < n - 1 implies !failed_with(
                    #[trigger] rows.take(n)[m],
                    now[i].key,
                ) by {
                    assert(!failed_with(before[m], own));
                }
                assert(is_first_form(rows.take(n), now[i], n - 1));
            }
        }
    }
}

/// Each note that is told of is one that runs failed with, in the form of the first of
/// them, and with the number of runs that failed with it, in whatever form.
pub proof fn law_told_notes_are_counted(rows: Seq<SnapshotView>, i: int)
    requires
        0 <= i < top_notes(rows).len(),
    ensures
        exists|k: int, key: Seq<char>|
            0 <= k < rows.len() && #[trigger] failed_with(rows[k], key) && top_notes(rows)[i] == (
                trimmed(rows[k].note->0),
                times_failed_with(rows, key),
            ) && forall|m: int| 0 <= m < k ==> !failed_with(#[trigger] rows[m], key),
{
    let n = rows.len() as int;
    let t = tallied(rows, n);
    let all = note_counts(t);
    lemma_tallied(rows, n);
    assert(rows.take(n) =~= rows);
    lemma_in_rank::<NoteCount>(all);
    let r = in_rank::<NoteCount>(all);
    assert(top_notes(rows)[i] == r[i]);
    assert(r.contains(r[i]));
    let j = choose|j: int| 0 <= j < all.len() && all[j] == r[i];
    assert(first_form(rows, t[j]));
    let k = choose|k: int| is_first_form(rows, t[j], k);
    let key = t[j].key;
    assert(says_of(t, rows, key));
    lemma_no_times(rows, key);
    assert(failed_with(rows[k], key));
    let m = choose|m: int| tally_at(t, m, key, times_failed_with(rows, key));
    if m < j {
        assert(t[m].key != t[j].key);
    } else if j < m {
        assert(t[j].key != t[m].key);
    }
}

/// A note that runs failed with is told of, with the number of those runs, or there are
/// three that are told of and none of them is rarer.
pub proof fn law_frequent_notes_are_told(rows: Seq<SnapshotView>, k: int, key: Seq<char>)
    requires
        0 <= k < rows.len(),
        failed_with(rows[k], key),
        forall|m: int| 0 <= m < k ==> !failed_with(#[trigger] rows[m], key),
    ensures
        top_notes(rows).contains((trimmed(rows[k].note->0), times_failed_with(rows, key))) || (
        top_notes(rows).len() == 3 && forall|i: int|
            0 <= i < 3 ==> (#[trigger] top_notes(rows)[i]).1 >= times_failed_with(rows, key)),
{
    let n = rows.len() as int;
    let t = tallied(rows, n);
    let all = note_counts(t);
    lemma_tallied(rows, n);
    assert(rows.take(n) =~= rows);
    assert(says_of(t, rows, key));
    lemma_no_times(rows, key);
    let m = choose|m: int| tally_at(t, m, key, times_failed_with(rows, key));
    assert(first_form(rows, t[m]));
    let f = choose|f: int| is_first_form(rows, t[m], f);
    if f < k {
        assert(!failed_with(rows[f], key));
    } else if k < f {
        assert(!failed_with(rows[k], t[m].key));
    }
    let entry = (trimmed(rows[k].note->0), times_failed_with(rows, key));
    assert(all[m] == entry);
    let r = in_rank::<NoteCount>(all);
    law_arranging_sorts::<NoteCount>(all, all.len() as int);
    assert(all.take(all.len() as int) =~= all);
    r.to_multiset_ensures();
    all.to_multiset_ensures();
    assert(all.contains(entry));
    assert(all.to_multiset().contains(entry));
    assert(r.contains(entry));
    let at = choose|at: int| 0 <= at < r.len() && r[at] == entry;
    let top = top_notes(rows);
    if at < top.len() {
        assert(top[at] == entry);
    } else {
        assert forall|i: int| 0 <= i < 3 implies (#[trigger] top[i]).1 >= entry.1 by {
            assert(top[i] == r[i]);
            assert(NoteCount::leq(r[i], r[at]));
        }
    }
}

// ---------------------------------------------------------------------------
// Grouping
// ---------------------------------------------------------------------------

/// Two runs have the same along the dimensions: the same version where that is one of
/// them, and the same agent where that is.
pub open spec fn alike(a: SnapshotView, b: SnapshotView, dimensions: Seq<Seq<char>>) -> bool {
    &&& dimensions.contains("version"@) ==> a.version == b.version
    &&& dimensions.contains("agent"@) ==> a.agent == b.agent
}

proof fn lemma_alike(a: SnapshotView, b: SnapshotView, dimensions: Seq<Seq<char>>)
    ensures
        alike(a, b, dimensions) <==> coordinates(a, dimensions) == coordinates(b, dimensions),
{
    reveal_strlit("version");
    reveal_strlit("agent");
    assert("version"@.len() != "agent"@.len());
    let x = coordinates(a, dimensions);
    let y = coordinates(b, dimensions);
    if x == y {
        if dimensions.contains("version"@) {
            let i = choose|i: int| 0 <= i < dimensions.len() && dimensions[i] == "version"@;
            assert(x[i] == y[i]);
        }
        if dimensions.contains("agent"@) {
            let i = choose|i: int| 0 <= i < dimensions.len() && dimensions[i] == "agent"@;
            assert(x[i] == y[i]);
        }
    }
    if alike(a, b, dimensions) {
        assert forall|i: int| 0 <= i < dimensions.len() implies x[i] == y[i] by {
            assert(dimensions.contains(dimensions[i]));
        }
        assert(x =~= y);
    }
}

proof fn lemma_cohort(
    rows: Seq<SnapshotView>,
    dimensions: Seq<Seq<char>>,
    like: SnapshotView,
    n: int,
    p: spec_fn(SnapshotView) -> bool,
)
    requires
        0 <= n <= rows.len(),
        forall|s: SnapshotView| #[trigger] p(s) == alike(s, like, dimensions),
    ensures
        cohort(rows, dimensions, coordinates(like, dimensions), n) == rows.take(n).filter(p),
    decreases n,
{
    reveal(Seq::filter);
    if n > 0 {
        lemma_cohort(rows, dimensions, like, n - 1, p);
        assert(rows.take(n).drop_last() =~= rows.take(n - 1));
        assert(rows.take(n).last() == rows[n - 1]);
        lemma_alike(rows[n - 1], like, dimensions);
    } else {
        assert(rows.take(0).filter(p) =~= seq![]);
    }
}

/// What runs that are alike have in common, by dimension.
pub open spec fn common(like: SnapshotView, dimensions: Seq<Seq<char>>) -> Map<
    Seq<char>,
    Option<Seq<char>>,
> {
    Map::new(
        |d: Seq<char>| dimensions.contains(d),
        |d: Seq<char>|
            if d == "version"@ {
                like.version
            } else if d == "agent"@ {
                like.agent
            } else {
                None
            },
    )
}

proof fn lemma_key_map(like: SnapshotView, dimensions: Seq<Seq<char>>, n: int)
    requires
        0 <= n <= dimensions.len(),
    ensures
        key_map(dimensions, coordinates(like, dimensions), n) == common(like, dimensions.take(n)),
    decreases n,
{
    let m = key_map(dimensions, coordinates(like, dimensions), n);
    if n > 0 {
        lemma_key_map(like, dimensions, n - 1);
        let d = dimensions[n - 1];
        let now = dimensions.take(n);
        let was = dimensions.take(n - 1);
        assert(now =~= was.push(d));
        assert forall|x: Seq<char>| now.contains(x) <==> x == d || was.contains(x) by {
            if x == d {
                assert(now[n - 1] == x);
            }
            if was.contains(x) {
                let i = choose|i: int| 0 <= i < was.len() && was[i] == x;
                assert(now[i] == x);
            }
            if now.contains(x) && x != d {
                let i = choose|i: int| 0 <= i < now.len() && now[i] == x;
                assert(was[i] == x);
            }
        }
    } else {
        assert(dimensions.take(0) =~= seq![]);
    }
    assert(m =~= common(like, dimensions.take(n)));
}

/// Each run is in the cohort of the runs that have the same along the dimensions: there
/// is a cohort of just these runs, and it is known by what they have.
pub proof fn law_each_run_is_with_those_alike(
    rows: Seq<SnapshotView>,
    dimensions: Seq<Seq<char>>,
    k: int,
)
    requires
        0 <= k < rows.len(),
    ensures
        grouped(rows, dimensions).contains(
            bucket_of(
                common(rows[k], dimensions),
                rows.filter(|s: SnapshotView| alike(s, rows[k], dimensions)),
            ),
        ),
{
    let like = rows[k];
    let p = |s: SnapshotView| alike(s, rows[k], dimensions);
    let keys = cohort_keys(rows, dimensions);
    law_cohorts_partition_the_runs(rows, dimensions);
    assert(keys.contains(coordinates(rows[k], dimensions)));
    let i = choose|i: int| 0 <= i < keys.len() && keys[i] == coordinates(like, dimensions);
    lemma_cohort(rows, dimensions, like, rows.len() as int, p);
    assert(rows.take(rows.len() as int) =~= rows);
    lemma_key_map(like, dimensions, dimensions.len() as int);
    assert(dimensions.take(dimensions.len() as int) =~= dimensions);
    assert(grouped(rows, dimensions)[i] == bucket_of(common(like, dimensions), rows.filter(p)));
}

proof fn lemma_keys_are_of_rows(rows: Seq<SnapshotView>, dimensions: Seq<Seq<char>>, n: int, i: int)
    requires
        0 <= n <= rows.len(),
        0 <= i < keys_so_far(rows, dimensions, n).len(),
    ensures
        exists|k: int|
            0 <= k < n && coordinates(#[trigger] rows[k], dimensions) == keys_so_far(
                rows,
                dimensions,
                n,
            )[i],
    decreases n,
{
    if n > 0 {
        let was = keys_so_far(rows, dimensions, n - 1);
        let key = coordinates(rows[n - 1], dimensions);
        let now = keys_so_far(rows, dimensions, n);
        lemma_with_key_holds(was, key, now[i]);
        assert(now.contains(now[i]));
        if now[i] == key {
            assert(coordinates(rows[n - 1], dimensions) == now[i]);
        } else {
            let j = choose|j: int| 0 <= j < was.len() && was[j] == now[i];
            lemma_keys_are_of_rows(rows, dimensions, n - 1, j);
            let k = choose|k: int|
                0 <= k < n - 1 && coordinates(#[trigger] rows[k], dimensions) == was[j];
            assert(coordinates(rows[k], dimensions) == now[i]);
        }
    }
}

proof fn lemma_with_key_holds(
    keys: Seq<Seq<Option<Seq<char>>>>,
    k: Seq<Option<Seq<char>>>,
    x: Seq<Option<Seq<char>>>,
)
    ensures
        with_key(keys, k).contains(x) ==> x == k || keys.contains(x),
    decreases keys.len(),
{
    let w = with_key(keys, k);
    if w.contains(x) && keys.len() > 0 {
        let i = choose|i: int| 0 <= i < w.len() && w[i] == x;
        if keys[0] == k {
        } else if crate::github::aggregate::coordinates_lt(k, keys[0]) {
            if i > 0 {
                assert(keys[i - 1] == x);
            }
        } else {
            let rest = keys.drop_first();
            lemma_with_key_holds(rest, k, x);
            if i == 0 {
                assert(keys[0] == x);
            } else {
                assert(with_key(rest, k)[i - 1] == x);
                if rest.contains(x) {
                    let j = choose|j: int| 0 <= j < rest.len() && rest[j] == x;
                    assert(keys[j + 1] == x);
                }
            }
        }
    }
}

/// Each cohort is one of runs that are alike, of which there is at least one; without
/// dimensions there is one cohort, of all runs.
pub proof fn law_each_cohort_is_of_runs_alike(
    rows: Seq<SnapshotView>,
    dimensions: Seq<Seq<char>>,
    i: int,
)
    requires
        0 <= i < grouped(rows, dimensions).len(),
    ensures
        dimensions.len() > 0 ==> exists|k: int|
            0 <= k < rows.len() && grouped(rows, dimensions)[i] == bucket_of(
                common(#[trigger] rows[k], dimensions),
                rows.filter(|s: SnapshotView| alike(s, rows[k], dimensions)),
            ),
        dimensions.len() == 0 ==> i == 0 && grouped(rows, dimensions)[0] == bucket_of(
            Map::empty(),
            rows,
        ),
{
    let n = rows.len() as int;
    if dimensions.len() > 0 {
        lemma_keys_are_of_rows(rows, dimensions, n, i);
        let keys = cohort_keys(rows, dimensions);
        let k = choose|k: int|
            0 <= k < n && coordinates(#[trigger] rows[k], dimensions) == keys[i];
        let like = rows[k];
        let p = |s: SnapshotView| alike(s, rows[k], dimensions);
        lemma_cohort(rows, dimensions, like, n, p);
        assert(rows.take(n) =~= rows);
        lemma_key_map(like, dimensions, dimensions.len() as int);
        assert(dimensions.take(dimensions.len() as int) =~= dimensions);
        assert(grouped(rows, dimensions)[i] == bucket_of(
            common(rows[k], dimensions),
            rows.filter(p),
        ));
    } else {
        lemma_all_in(rows, dimensions, n);
        assert(rows.take(n) =~= rows);
        assert(cohort_keys(rows, dimensions)[0] =~= seq![]);
    }
}

proof fn lemma_all_in(rows: Seq<SnapshotView>, dimensions: Seq<Seq<char>>, n: int)
    requires
        dimensions.len() == 0,
        0 <= n <= rows.len(),
    ensures
        cohort(rows, dimensions, seq![], n) == rows.take(n),
    decreases n,
{
    if n > 0 {
        lemma_all_in(rows, dimensions, n - 1);
        assert(coordinates(rows[n - 1], dimensions) =~= seq![]);
        assert(rows.take(n) =~= rows.take(n - 1).push(rows[n - 1]));
    } else {
        assert(rows.take(0) =~= seq![]);
    }
}

/// Cohorts that stand in different places are of runs that are not alike: what they are
/// known by differs.
pub proof fn law_cohorts_differ(
    rows: Seq<SnapshotView>,
    dimensions: Seq<Seq<char>>,
    i: int,
    j: int,
)
    requires
        0 <= i < j < grouped(rows, dimensions).len(),
    ensures
        grouped(rows, dimensions)[i].key != grouped(rows, dimensions)[j].key,
{
    let keys = cohort_keys(rows, dimensions);
    let n = rows.len() as int;
    law_cohorts_partition_the_runs(rows, dimensions);
    assert(crate::github::aggregate::coordinates_lt(keys[i], keys[j]));
    assert(dimensions.len() > 0);
    lemma_keys_are_of_rows(rows, dimensions, n, i);
    lemma_keys_are_of_rows(rows, dimensions, n, j);
    let a = choose|k: int| 0 <= k < n && coordinates(#[trigger] rows[k], dimensions) == keys[i];
    let b = choose|k: int| 0 <= k < n && coordinates(#[trigger] rows[k], dimensions) == keys[j];
    let d = dimensions.len() as int;
    lemma_key_map(rows[a], dimensions, d);
    lemma_key_map(rows[b], dimensions, d);
    assert(dimensions.take(d) =~= dimensions);
    lemma_alike(rows[a], rows[b], dimensions);
    lemma_irreflexive(keys[i]);
    let x = common(rows[a], dimensions);
    let y = common(rows[b], dimensions);
    if x == y {
        if dimensions.contains("version"@) {
            assert(x["version"@] == y["version"@]);
        }
        if dimensions.contains("agent"@) {
            reveal_strlit("version");
            reveal_strlit("agent");
            assert("version"@.len() != "agent"@.len());
            assert(x["agent"@] == y["agent"@]);
        }
    }
}

proof fn lemma_irreflexive(a: Seq<Option<Seq<char>>>)
    ensures
        !crate::github::aggregate::coordinates_lt(a, a),
    decreases a.len(),
{
    if a.len() > 0 {
        lemma_irreflexive(a.drop_first());
    }
}

// ---------------------------------------------------------------------------
// Slices
// ---------------------------------------------------------------------------

proof fn lemma_slice_rows(
    rows: Seq<SnapshotView>,
    interval: TrendInterval,
    since: int,
    until: int,
    start: int,
    n: int,
    p: spec_fn(SnapshotView) -> bool,
)
    requires
        0 <= n <= rows.len(),
        forall|s: SnapshotView| #[trigger]
            p(s) == (last_moment(s) matches Some(t) && since <= day_of(t) <= until && slice_start(
                interval,
                day_of(t),
            ) == start),
    ensures
        slice_rows(rows, interval, since, until, start, n) == rows.take(n).filter(p),
    decreases n,
{
    reveal(Seq::filter);
    if n > 0 {
        lemma_slice_rows(rows, interval, since, until, start, n - 1, p);
        assert(rows.take(n).drop_last() =~= rows.take(n - 1));
        assert(rows.take(n).last() == rows[n - 1]);
    } else {
        assert(rows.take(0).filter(p) =~= seq![]);
    }
}

/// The cohorts of a slice are those of the runs that were last active on one of its days,
/// within the window.
pub proof fn law_slices_hold_the_runs_of_their_days(
    rows: Seq<SnapshotView>,
    interval: TrendInterval,
    dimensions: Seq<Seq<char>>,
    since: int,
    until: int,
    i: int,
)
    requires
        0 <= i < series(rows, interval, dimensions, since, until).len(),
    ensures
        ({
            let p = series(rows, interval, dimensions, since, until)[i];
            &&& p.end == p.start + (if interval == TrendInterval::Day {
                0int
            } else {
                6
            })
            &&& p.buckets == grouped(
                rows.filter(
                    |s: SnapshotView|
                        last_moment(s) matches Some(t) && since <= t.secs as int / 86_400 + 719_163
                            <= until && p.start <= t.secs as int / 86_400 + 719_163 <= p.end,
                ),
                dimensions,
            )
        }),
{
    let p = series(rows, interval, dimensions, since, until)[i];
    let days: int = if interval == TrendInterval::Day {
        1
    } else {
        7
    };
    let f = |s: SnapshotView|
        last_moment(s) matches Some(t) && since <= t.secs as int / 86_400 + 719_163 <= until
            && p.start <= t.secs as int / 86_400 + 719_163 <= p.end;
    let first = slice_start(interval, since);
    assert(p.start == first + i * days);
    assert forall|s: SnapshotView| #[trigger]
        f(s) == (last_moment(s) matches Some(t) && since <= day_of(t) <= until && slice_start(
            interval,
            day_of(t),
        ) == p.start) by {
        if let Some(t) = last_moment(s) {
            let day = day_of(t);
            match interval {
                TrendInterval::Day => {},
                TrendInterval::Week => {
                    let a = since - 1;
                    let b = day - 1;
                    assert(a - a % 7 == 7 * (a / 7));
                    assert(b - b % 7 == 7 * (b / 7));
                    assert(p.start - 1 == 7 * (a / 7 + i));
                },
            }
        }
    }
    lemma_slice_rows(rows, interval, since, until, p.start, rows.len() as int, f);
    assert(rows.take(rows.len() as int) =~= rows);
}

// ---------------------------------------------------------------------------
// Which runs are scanned
// ---------------------------------------------------------------------------

proof fn lemma_selected_holds(
    s: Seq<SnapshotView>,
    n: int,
    slug: Option<Seq<char>>,
    x: SnapshotView,
)
    requires
        0 <= n <= s.len(),
    ensures
        selected(s, n, slug).contains(x) <==> exists|i: int|
            0 <= i < n && (slug is None || (#[trigger] s[i]).skill == slug) && x
                == crate::github::runs::finalized(s[i]),
    decreases n,
{
    if n > 0 {
        lemma_selected_holds(s, n - 1, slug, x);
        let was = selected(s, n - 1, slug);
        let now = selected(s, n, slug);
        if was.contains(x) {
            let i = choose|i: int| 0 <= i < was.len() && was[i] == x;
            assert(now[i] == x);
            let k = choose|k: int|
                0 <= k < n - 1 && (slug is None || (#[trigger] s[k]).skill == slug) && x
                    == crate::github::runs::finalized(s[k]);
            assert(s[k].skill == s[k].skill);
        }
        if (slug is None || s[n - 1].skill == slug) && x == crate::github::runs::finalized(s[n - 1]) {
            assert(now[was.len() as int] == x);
        }
        if now.contains(x) && !was.contains(x) {
            let i = choose|i: int| 0 <= i < now.len() && now[i] == x;
            if i < was.len() {
                assert(was[i] == x);
            }
            assert(s[n - 1].skill == s[n - 1].skill);
        }
    }
}

/// The runs of a window are those that its events tell of, each as its own events tell:
/// a run is among them exactly where it is found by its id, and is of the skill where one
/// is asked for.
pub proof fn law_all_runs_of_the_skill_are_scanned(
    days: Seq<Vec<String>>,
    slug: Option<Seq<char>>,
    s: SnapshotView,
)
    ensures
        in_rank::<RunSnapshot>(scanned_runs(days, slug)).contains(s) <==> run_in(
            window_events(days, days.len() as int),
            s.run_id,
        ) == Some(s) && (slug is None || s.skill == slug),
{
    let events = window_events(days, days.len() as int);
    let n = events.len() as int;
    let runs = settled_runs(events, n);
    let all = scanned_runs(days, slug);
    let r = in_rank::<RunSnapshot>(all);
    law_arranging_sorts::<RunSnapshot>(all, all.len() as int);
    assert(all.take(all.len() as int) =~= all);
    r.to_multiset_ensures();
    all.to_multiset_ensures();
    assert(r.contains(s) <==> r.to_multiset().contains(s));
    assert(all.contains(s) <==> all.to_multiset().contains(s));
    lemma_selected_holds(runs, runs.len() as int, slug, s);
    crate::github::aggregate::law_readers_agree(events, s.run_id);
    crate::github::aggregate::lemma_run_index(runs, s.run_id, 0);
    crate::github::aggregate::law_one_snapshot_per_run(events, n);
    if all.contains(s) {
        let i = choose|i: int|
            0 <= i < runs.len() && (slug is None || (#[trigger] runs[i]).skill == slug) && s
                == crate::github::runs::finalized(runs[i]);
        assert(runs[i].run_id == s.run_id);
        let k = crate::github::aggregate::run_index(runs, s.run_id, 0);
        assert(k is Some);
        if k->0 != i {
            assert(reduced(events, n)[i].run_id == runs[i].run_id);
            assert(reduced(events, n)[k->0].run_id == runs[k->0].run_id);
        }
    }
    if run_in(events, s.run_id) == Some(s) && (slug is None || s.skill == slug) {
        let k = crate::github::aggregate::run_index(runs, s.run_id, 0);
        assert(k is Some);
        assert(runs[k->0].skill == s.skill);
    }
}

} // verus!
