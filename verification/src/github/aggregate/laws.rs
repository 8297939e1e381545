//! What holds of the statistics, whatever the runs.

use vstd::prelude::*;

use crate::github::aggregate::{
    active_at, bucket_of, durations, in_slice, last_active, later_of, latest, note_counts, of_skill,
    percentile_of, rate_lt, regression_of, scanned_runs, selected, series, slice_count, slice_days,
    slice_start, tallied, top_notes, version_of, BucketView, NoteCount, TrendInterval,
};
use crate::github::runs::{RunSnapshot, SnapshotView};
use crate::order::{
    in_rank, law_arranging_sorts, lemma_text_lt_total, lemma_text_lt_transitive, ranked, text_le,
    text_lt, Ranked,
};
use crate::time::{day_of, days_from_monday, not_later};

verus! {

/// What stands in the order of a type is what was put in order, and in that order.
pub proof fn lemma_in_rank<T: Ranked>(s: Seq<T::V>)
    ensures
        ranked::<T>(in_rank::<T>(s)),
        in_rank::<T>(s).len() == s.len(),
        forall|x: T::V| #[trigger] in_rank::<T>(s).contains(x) ==> s.contains(x),
{
    let r = in_rank::<T>(s);
    law_arranging_sorts::<T>(s, s.len() as int);
    assert(s.take(s.len() as int) =~= s);
    r.to_multiset_ensures();
    s.to_multiset_ensures();
    assert forall|x: T::V| #[trigger] r.contains(x) implies s.contains(x) by {
        assert(r.to_multiset().contains(x));
        assert(s.to_multiset().contains(x));
    }
}

/// The run that was active last comes first, and runs without a moment come last.
pub proof fn law_newest_runs_come_first(
    days: Seq<Vec<String>>,
    slug: Option<Seq<char>>,
    i: int,
    j: int,
)
    requires
        0 <= i < j < in_rank::<RunSnapshot>(scanned_runs(days, slug)).len(),
    ensures
        ({
            let r = in_rank::<RunSnapshot>(scanned_runs(days, slug));
            active_at(r[j]) matches Some(b) ==> (active_at(r[i]) matches Some(a) && not_later(b, a))
        }),
{
    lemma_in_rank::<RunSnapshot>(scanned_runs(days, slug));
    let r = in_rank::<RunSnapshot>(scanned_runs(days, slug));
    assert(RunSnapshot::leq(r[i], r[j]));
}

/// Where a skill is asked for, all runs are of that skill.
pub proof fn law_scanned_runs_are_of_the_skill(
    days: Seq<Vec<String>>,
    slug: Option<Seq<char>>,
    i: int,
)
    requires
        0 <= i < in_rank::<RunSnapshot>(scanned_runs(days, slug)).len(),
    ensures
        of_skill(in_rank::<RunSnapshot>(scanned_runs(days, slug))[i], slug),
{
    let s = scanned_runs(days, slug);
    let r = in_rank::<RunSnapshot>(s);
    lemma_in_rank::<RunSnapshot>(s);
    assert(r.contains(r[i]));
    let k = choose|k: int| 0 <= k < s.len() && s[k] == r[i];
    let events = crate::github::runs::window_events(days, days.len() as int);
    let runs = crate::github::aggregate::settled_runs(events, events.len() as int);
    lemma_selected(runs, runs.len() as int, slug, k);
}

proof fn lemma_selected(s: Seq<SnapshotView>, n: int, slug: Option<Seq<char>>, k: int)
    requires
        0 <= n <= s.len(),
        0 <= k < selected(s, n, slug).len(),
    ensures
        of_skill(selected(s, n, slug)[k], slug),
    decreases n,
{
    if n > 0 && k < selected(s, n - 1, slug).len() {
        lemma_selected(s, n - 1, slug, k);
    }
}

/// A slice holds the day that it is for, and weeks start on Mondays.
pub proof fn law_days_lie_in_their_slices(interval: TrendInterval, day: int)
    ensures
        slice_start(interval, day) <= day < slice_start(interval, day) + slice_days(interval),
        interval == TrendInterval::Week ==> days_from_monday(slice_start(interval, day)) == 0,
{
}

/// A series has no gaps: it starts with the slice of the first day, ends with the slice
/// of the last, and each slice starts on the day behind the one before it.
pub proof fn law_series_has_no_gaps(
    rows: Seq<SnapshotView>,
    interval: TrendInterval,
    dimensions: Seq<Seq<char>>,
    since: int,
    until: int,
)
    requires
        since <= until,
    ensures
        ({
            let s = series(rows, interval, dimensions, since, until);
            &&& s.len() > 0
            &&& s[0].start <= since <= s[0].end
            &&& s.last().start <= until <= s.last().end
            &&& forall|i: int|
                0 <= i < s.len() - 1 ==> (#[trigger] s[i + 1]).start == s[i].end + 1
        }),
{
    let s = series(rows, interval, dimensions, since, until);
    lemma_slice_at(interval, since, until, until);
    let n = s.len() as int;
    assert(slice_start(interval, until) == slice_start(interval, since) + (n - 1) * slice_days(
        interval,
    ));
    law_days_lie_in_their_slices(interval, since);
    law_days_lie_in_their_slices(interval, until);
    assert(s[0].start == slice_start(interval, since));
    assert forall|i: int| 0 <= i < n - 1 implies (#[trigger] s[i + 1]).start == s[i].end + 1 by {
        assert((i + 1) * slice_days(interval) == i * slice_days(interval) + slice_days(interval))
            by (nonlinear_arith);
    }
}

/// The position in a series of the slice of a day.
pub open spec fn slice_at(interval: TrendInterval, since: int, day: int) -> int {
    (slice_start(interval, day) - slice_start(interval, since)) / slice_days(interval)
}

proof fn lemma_slice_at(interval: TrendInterval, since: int, until: int, day: int)
    requires
        since <= day <= until,
    ensures
        0 <= slice_at(interval, since, day) < slice_count(interval, since, until),
        slice_start(interval, day) == slice_start(interval, since) + slice_at(interval, since, day)
            * slice_days(interval),
        day == until ==> slice_at(interval, since, day) == slice_count(interval, since, until) - 1,
{
    match interval {
        TrendInterval::Day => {},
        TrendInterval::Week => {
            assert((since - 1) - (since - 1) % 7 == 7 * ((since - 1) / 7));
            assert((day - 1) - (day - 1) % 7 == 7 * ((day - 1) / 7));
            assert((until - 1) - (until - 1) % 7 == 7 * ((until - 1) / 7));
        },
    }
}

/// A run that was active in the window is in exactly one slice of the series, and one
/// that was not is in none.
pub proof fn law_active_runs_have_one_slice(
    s: SnapshotView,
    interval: TrendInterval,
    since: int,
    until: int,
)
    ensures
        ({
            let first = slice_start(interval, since);
            let here = |i: int|
                in_slice(s, interval, since, until, first + i * slice_days(interval));
            if active_at(s) is Some && since <= day_of(active_at(s)->0) <= until {
                let k = slice_at(interval, since, day_of(active_at(s)->0));
                0 <= k < slice_count(interval, since, until) && forall|i: int|
                    #[trigger] here(i) <==> i == k
            } else {
                forall|i: int| !#[trigger] here(i)
            }
        }),
{
    if active_at(s) is Some && since <= day_of(active_at(s)->0) <= until {
        let day = day_of(active_at(s)->0);
        let k = slice_at(interval, since, day);
        lemma_slice_at(interval, since, until, day);
        let first = slice_start(interval, since);
        let d = slice_days(interval);
        assert forall|i: int|
            (#[trigger] in_slice(s, interval, since, until, first + i * d)) <==> i == k by {
            if i != k {
                assert(i * d != k * d) by (nonlinear_arith)
                    requires
                        i != k,
                        d == 1 || d == 7,
                ;
            }
        }
        let here = |i: int| in_slice(s, interval, since, until, first + i * d);
        assert forall|i: int| #[trigger] here(i) <==> i == k by {
            assert(here(i) == in_slice(s, interval, since, until, first + i * d));
        }
    }
}

/// There is a middle and an upper duration exactly where a run has a duration; both are
/// durations of runs, and the upper one is no less than the middle one.
pub proof fn law_percentiles_are_durations(
    key: Map<Seq<char>, Option<Seq<char>>>,
    rows: Seq<SnapshotView>,
)
    ensures
        ({
            let d = durations(rows, rows.len() as int);
            let b = bucket_of(key, rows);
            &&& b.p50_ms is Some <==> d.len() > 0
            &&& b.p95_ms is Some <==> d.len() > 0
            &&& d.len() > 0 ==> d.contains(b.p50_ms->0) && d.contains(b.p95_ms->0) && b.p50_ms->0
                <= b.p95_ms->0
        }),
{
    let d = durations(rows, rows.len() as int);
    let s = in_rank::<u64>(d);
    lemma_in_rank::<u64>(d);
    if d.len() > 0 {
        let i = ((s.len() - 1) * 50 + 50) / 100;
        let j = ((s.len() - 1) * 95 + 50) / 100;
        assert(0 <= i <= j < s.len());
        assert(s.contains(s[i]) && s.contains(s[j]));
        assert(percentile_of(s, 50) == Some(s[i]));
        assert(percentile_of(s, 95) == Some(s[j]));
        if i < j {
            assert(u64::leq(s[i], s[j]));
        }
    }
}

/// The last activity of a cohort is one of a run in it, and no run was active later.
pub proof fn law_last_activity_is_the_latest(rows: Seq<SnapshotView>, n: int)
    requires
        0 <= n <= rows.len(),
    ensures
        forall|i: int|
            0 <= i < n && active_at(#[trigger] rows[i]) is Some ==> last_active(rows, n) is Some
                && not_later(active_at(rows[i])->0, last_active(rows, n)->0),
        last_active(rows, n) is Some ==> exists|i: int|
            0 <= i < n && active_at(#[trigger] rows[i]) == last_active(rows, n),
    decreases n,
{
    if n > 0 {
        law_last_activity_is_the_latest(rows, n - 1);
        let was = last_active(rows, n - 1);
        let now = active_at(rows[n - 1]);
        assert(last_active(rows, n) == later_of(was, now));
        if last_active(rows, n) is Some {
            if last_active(rows, n) == now {
                assert(active_at(rows[n - 1]) == last_active(rows, n));
            } else {
                let i = choose|i: int| 0 <= i < n - 1 && active_at(#[trigger] rows[i]) == was;
                assert(active_at(rows[i]) == last_active(rows, n));
            }
        }
    }
}

/// The notes that are told of come with the most frequent first, and equally frequent
/// ones in the order of their texts.
pub proof fn law_frequent_notes_come_first(rows: Seq<SnapshotView>, i: int, j: int)
    requires
        0 <= i < j < top_notes(rows).len(),
    ensures
        top_notes(rows)[i].1 >= top_notes(rows)[j].1,
        top_notes(rows)[i].1 == top_notes(rows)[j].1 ==> text_le(
            top_notes(rows)[i].0,
            top_notes(rows)[j].0,
        ),
{
    let all = note_counts(tallied(rows, rows.len() as int));
    lemma_in_rank::<NoteCount>(all);
    let r = in_rank::<NoteCount>(all);
    assert(top_notes(rows)[i] == r[i] && top_notes(rows)[j] == r[j]);
    assert(NoteCount::leq(r[i], r[j]));
}

/// A regression is told of only where the latest version does worse than another one,
/// which comes before it, and where no version lies between the two.
pub proof fn law_regressions_mean_worse(buckets: Seq<BucketView>)
    ensures
        regression_of(buckets) matches Some(r) ==> {
            &&& rate_lt(r.current_success_rate, r.prior_success_rate)
            &&& text_le(r.prior_version, r.current_version)
            &&& forall|i: int|
                0 <= i < buckets.len() && version_of(#[trigger] buckets[i]) is Some ==> text_le(
                    version_of(buckets[i])->0,
                    r.current_version,
                ) && (version_of(buckets[i])->0 == r.current_version || text_le(
                    version_of(buckets[i])->0,
                    r.prior_version,
                ))
        },
{
    let n = buckets.len() as int;
    if let Some(r) = regression_of(buckets) {
        let c = latest(buckets, n, -1)->0;
        let p = latest(buckets, n, c)->0;
        lemma_latest_is_greatest(buckets, n, -1);
        lemma_latest_is_greatest(buckets, n, c);
        assert forall|i: int|
            0 <= i < buckets.len() && version_of(#[trigger] buckets[i]) is Some implies text_le(
            version_of(buckets[i])->0,
            r.current_version,
        ) && (version_of(buckets[i])->0 == r.current_version || text_le(
            version_of(buckets[i])->0,
            r.prior_version,
        )) by {
            if i != c {
                assert(text_le(version_of(buckets[i])->0, version_of(buckets[p])->0));
            }
        }
    }
}

pub proof fn lemma_latest_is_greatest(buckets: Seq<BucketView>, n: int, skip: int)
    requires
        n <= buckets.len(),
    ensures
        latest(buckets, n, skip) matches Some(k) ==> 0 <= k < n && k != skip && version_of(
            buckets[k],
        ) is Some && forall|i: int|
            0 <= i < n && i != skip && version_of(#[trigger] buckets[i]) is Some ==> text_le(
                version_of(buckets[i])->0,
                version_of(buckets[k])->0,
            ),
        latest(buckets, n, skip) is None ==> forall|i: int|
            0 <= i < n && i != skip ==> version_of(#[trigger] buckets[i]) is None,
    decreases n,
{
    if n > 0 {
        lemma_latest_is_greatest(buckets, n - 1, skip);
        let was = latest(buckets, n - 1, skip);
        if n - 1 != skip && version_of(buckets[n - 1]) is Some && was is Some {
            let x = version_of(buckets[n - 1])->0;
            let y = version_of(buckets[was->0])->0;
            lemma_text_lt_total(x, y);
            assert forall|i: int|
                0 <= i < n - 1 && i != skip && version_of(
                    #[trigger] buckets[i],
                ) is Some && !text_lt(x, y) implies text_le(version_of(buckets[i])->0, x) by {
                let z = version_of(buckets[i])->0;
                if text_lt(z, y) && text_lt(y, x) {
                    lemma_text_lt_transitive(z, y, x);
                }
            }
        }
    }
}

} // verus!
