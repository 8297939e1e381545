//! Which version is the current one, when it got worse, and which notes say the same.

use vstd::prelude::*;

use crate::github::aggregate::cohorts::{
    alike, common, law_each_cohort_is_of_runs_alike, law_each_run_is_with_those_alike,
    law_runs_are_counted_by_status,
};
use crate::github::aggregate::laws::lemma_latest_is_greatest;
use crate::github::aggregate::{
    bucket_of, cohort_keys, coordinates, coordinates_lt, grouped, interval_named, key_map,
    keys_so_far, latest, law_cohorts_partition_the_runs, note_key, overview_of, regression_of,
    slice_start, version_of, with_key, words, words_so_far, BucketView, Rate, TrendInterval,
};
use crate::github::runs::SnapshotView;
use crate::order::{lemma_text_lt_irreflexive, lemma_text_lt_transitive, text_le, text_lt};
use crate::text::laws::lemma_trailed;
use crate::text::{drop_trailing, is_white, joined, lemma_drop_trailing_is_take, CharClass};

verus! {

// ---------------------------------------------------------------------------
// Versions
// ---------------------------------------------------------------------------

/// A cohort is of a version.
pub open spec fn is_of_version(b: BucketView, v: Seq<char>) -> bool {
    b.key.dom().contains("version"@) && b.key["version"@] == Some(v)
}

proof fn lemma_is_latest(buckets: Seq<BucketView>, skip: int, c: int, v: Seq<char>)
    requires
        0 <= c < buckets.len(),
        c != skip,
        is_of_version(buckets[c], v),
        forall|i: int, w: Seq<char>|
            0 <= i < buckets.len() && i != c && i != skip && #[trigger] is_of_version(buckets[i], w)
                ==> text_lt(w, v),
    ensures
        latest(buckets, buckets.len() as int, skip) == Some(c),
{
    let n = buckets.len() as int;
    lemma_latest_is_greatest(buckets, n, skip);
    assert(version_of(buckets[c]) == Some(v));
    let k = latest(buckets, n, skip)->0;
    if k != c {
        let w = version_of(buckets[k])->0;
        assert(is_of_version(buckets[k], w));
        assert(text_lt(w, v));
        assert(text_le(v, w));
        lemma_text_lt_irreflexive(v);
        if text_lt(v, w) {
            lemma_text_lt_transitive(v, w, v);
        }
    }
}

/// Where fewer runs of the greatest version succeed than of the next greatest one, in share
/// of those that were marked, this is told: both versions, both rates and the difference.
/// Where no fewer do, nothing is.
pub proof fn law_a_worse_version_is_told(
    buckets: Seq<BucketView>,
    c: int,
    p: int,
    v: Seq<char>,
    w: Seq<char>,
    x: Rate,
    y: Rate,
)
    requires
        0 <= c < buckets.len(),
        0 <= p < buckets.len(),
        c != p,
        is_of_version(buckets[c], v),
        is_of_version(buckets[p], w),
        text_lt(w, v),
        forall|i: int, u: Seq<char>|
            0 <= i < buckets.len() && i != c && i != p && #[trigger] is_of_version(buckets[i], u)
                ==> text_lt(u, w),
        buckets[c].success_rate == Some(x),
        buckets[p].success_rate == Some(y),
    ensures
        x.succeeded * y.marked >= y.succeeded * x.marked ==> regression_of(buckets) is None,
        x.succeeded * y.marked < y.succeeded * x.marked ==> (regression_of(buckets) matches Some(r)
            && r.current_version == v && r.prior_version == w && r.current_success_rate == x
            && r.prior_success_rate == y && r.delta_success_rate.numerator == y.succeeded * x.marked
            - x.succeeded * y.marked && r.delta_success_rate.denominator == x.marked * y.marked),
{
    assert forall|i: int, u: Seq<char>|
        0 <= i < buckets.len() && i != c && i != -1 && #[trigger] is_of_version(
            buckets[i],
            u,
        ) implies text_lt(u, v) by {
        if i == p {
            assert(u == w);
        } else {
            lemma_text_lt_transitive(u, w, v);
        }
    }
    lemma_is_latest(buckets, -1, c, v);
    assert forall|i: int, u: Seq<char>|
        0 <= i < buckets.len() && i != p && i != c && #[trigger] is_of_version(
            buckets[i],
            u,
        ) implies text_lt(u, w) by {}
    lemma_is_latest(buckets, c, p, w);
    let a = y.succeeded * x.marked;
    let b = x.succeeded * y.marked;
    let d = x.marked * y.marked;
    assert(0 <= a <= u128::MAX && 0 <= b && 0 <= d <= u128::MAX) by (nonlinear_arith)
        requires
            a == y.succeeded * x.marked,
            b == x.succeeded * y.marked,
            d == x.marked * y.marked,
    ;
}

/// With one version alone nothing is told.
pub proof fn law_one_version_is_not_worse(buckets: Seq<BucketView>, c: int)
    requires
        forall|i: int, u: Seq<char>|
            0 <= i < buckets.len() && i != c ==> !#[trigger] is_of_version(buckets[i], u),
    ensures
        regression_of(buckets) is None,
{
    let n = buckets.len() as int;
    lemma_latest_is_greatest(buckets, n, -1);
    match latest(buckets, n, -1) {
        None => {},
        Some(k) => {
            assert(is_of_version(buckets[k], version_of(buckets[k])->0));
            assert(k == c);
            lemma_latest_is_greatest(buckets, n, c);
            if latest(buckets, n, c) is Some {
                let j = latest(buckets, n, c)->0;
                assert(is_of_version(buckets[j], version_of(buckets[j])->0));
            }
        },
    }
}

/// The current version of a skill is the greatest among its runs.
pub proof fn law_the_current_version_is_the_greatest(slug: Seq<char>, rows: Seq<SnapshotView>)
    ensures
        match overview_of(slug, rows).current_version {
            Some(v) => (exists|k: int| 0 <= k < rows.len() && (#[trigger] rows[k]).version == Some(v))
                && forall|k: int|
                0 <= k < rows.len() && (#[trigger] rows[k]).version is Some ==> text_le(
                    rows[k].version->0,
                    v,
                ),
            None => forall|k: int| 0 <= k < rows.len() ==> (#[trigger] rows[k]).version is None,
        },
{
    let d = seq!["version"@];
    assert(d[0] == "version"@);
    assert(d.contains("version"@));
    let g = grouped(rows, d);
    let n = g.len() as int;
    lemma_latest_is_greatest(g, n, -1);
    assert forall|k: int| 0 <= k < rows.len() && (#[trigger] rows[k]).version is Some implies exists|
        i: int,
    |
        0 <= i < g.len() && version_of(#[trigger] g[i]) == rows[k].version by {
        law_each_run_is_with_those_alike(rows, d, k);
        let b = bucket_of(
            common(rows[k], d),
            rows.filter(|s: SnapshotView| alike(s, rows[k], d)),
        );
        let i = choose|i: int| 0 <= i < g.len() && g[i] == b;
        assert(b.key == common(rows[k], d));
        assert(version_of(g[i]) == rows[k].version);
    }
    match latest(g, n, -1) {
        Some(c) => {
            law_each_cohort_is_of_runs_alike(rows, d, c);
            let k = choose|k: int|
                0 <= k < rows.len() && g[c] == bucket_of(
                    common(#[trigger] rows[k], d),
                    rows.filter(|s: SnapshotView| alike(s, rows[k], d)),
                );
            assert(g[c].key == common(rows[k], d));
            assert(version_of(g[c]) == rows[k].version);
            assert forall|k: int|
                0 <= k < rows.len() && (#[trigger] rows[k]).version is Some implies text_le(
                rows[k].version->0,
                version_of(g[c])->0,
            ) by {
                let i = choose|i: int|
                    0 <= i < g.len() && version_of(#[trigger] g[i]) == rows[k].version;
                assert(version_of(g[i]) is Some);
            }
        },
        None => {
            assert forall|k: int| 0 <= k < rows.len() implies (#[trigger] rows[k]).version
                is None by {
                if rows[k].version is Some {
                    let i = choose|i: int|
                        0 <= i < g.len() && version_of(#[trigger] g[i]) == rows[k].version;
                    assert(version_of(g[i]) is None);
                }
            }
        },
    }
}

/// The overview of a skill counts all its runs, whatever their version; the skill is stale
/// where there is none.
pub proof fn law_the_overview_counts_all_runs(slug: Seq<char>, rows: Seq<SnapshotView>)
    requires
        rows.len() <= u64::MAX,
    ensures
        ({
            let o = overview_of(slug, rows);
            let all = bucket_of(Map::empty(), rows);
            &&& o.slug == slug
            &&& o.runs_total == rows.len()
            &&& o.succeeded == rows.filter(|s: SnapshotView| s.status == "succeeded"@).len()
            &&& o.failed == rows.filter(
                |s: SnapshotView| s.status == "failed"@ || s.status == "aborted"@,
            ).len()
            &&& o.stale <==> rows.len() == 0
            &&& o.success_rate == all.success_rate
            &&& o.p50_ms == all.p50_ms && o.p95_ms == all.p95_ms
            &&& o.last_run_at == all.last_run_at
            &&& o.regression == regression_of(grouped(rows, seq!["version"@]))
        }),
{
    law_runs_are_counted_by_status(Map::empty(), rows);
}

/// Slices of a week start on a Monday, of which the fifth day of 1970 is one, and those of a
/// day on the day itself; each has a long name, an adverb and a letter.
pub proof fn law_weeks_and_days(day: int)
    ensures
        slice_start(TrendInterval::Day, day) == day,
        (slice_start(TrendInterval::Week, day) - 719_167) % 7 == 0,
        day - 6 <= slice_start(TrendInterval::Week, day) <= day,
        interval_named("day"@) == Some(TrendInterval::Day),
        interval_named("daily"@) == Some(TrendInterval::Day),
        interval_named("d"@) == Some(TrendInterval::Day),
        interval_named("week"@) == Some(TrendInterval::Week),
        interval_named("weekly"@) == Some(TrendInterval::Week),
        interval_named("w"@) == Some(TrendInterval::Week),
{
    reveal_strlit("day");
    reveal_strlit("daily");
    reveal_strlit("d");
    reveal_strlit("week");
    reveal_strlit("weekly");
    reveal_strlit("w");
    assert("day"@.len() == 3 && "daily"@.len() == 5 && "d"@.len() == 1 && "week"@.len() == 4
        && "weekly"@.len() == 6 && "w"@.len() == 1);
    assert("d"@[0] != "w"@[0]);
}

// ---------------------------------------------------------------------------
// Notes
// ---------------------------------------------------------------------------

proof fn lemma_only_letters(s: Seq<char>, n: int)
    requires
        0 <= n <= s.len(),
        forall|i: int| 0 <= i < s.len() ==> !is_white(#[trigger] s[i]),
    ensures
        words_so_far(s, n).0.len() == 0,
        words_so_far(s, n).1 == s.take(n),
    decreases n,
{
    if n > 0 {
        lemma_only_letters(s, n - 1);
        assert(s.take(n) =~= s.take(n - 1).push(s[n - 1]));
    } else {
        assert(s.take(0) =~= seq![]);
    }
}

proof fn lemma_same_start(s: Seq<char>, t: Seq<char>, n: int)
    requires
        0 <= n <= s.len(),
        n <= t.len(),
        s.take(n) == t.take(n),
    ensures
        words_so_far(s, n) == words_so_far(t, n),
    decreases n,
{
    if n > 0 {
        assert(s.take(n - 1) =~= s.take(n).take(n - 1));
        assert(t.take(n - 1) =~= t.take(n).take(n - 1));
        lemma_same_start(s, t, n - 1);
        assert(s.take(n)[n - 1] == s[n - 1]);
        assert(t.take(n)[n - 1] == t[n - 1]);
    }
}

proof fn lemma_behind(s: Seq<char>, m: int, n: int)
    requires
        0 <= m <= s.len(),
        0 <= n <= s.len() - m,
        words_so_far(s, m).1.len() == 0,
    ensures
        words_so_far(s, m + n).0 == words_so_far(s, m).0 + words_so_far(s.skip(m), n).0,
        words_so_far(s, m + n).1 == words_so_far(s.skip(m), n).1,
    decreases n,
{
    let t = s.skip(m);
    if n > 0 {
        lemma_behind(s, m, n - 1);
        assert(t[n - 1] == s[m + n - 1]);
        assert(words_so_far(s, m + n).0 =~= words_so_far(s, m).0 + words_so_far(t, n).0);
    } else {
        assert(words_so_far(s, m).1 =~= seq![]);
        assert(words_so_far(s, m).0 + words_so_far(t, 0).0 =~= words_so_far(s, m).0);
    }
}

/// A text without white space is one word, and no text is none. White space parts the words
/// before it from those behind it.
pub proof fn law_words_stand_between_white_space(a: Seq<char>, c: char, b: Seq<char>, w: Seq<char>)
    requires
        is_white(c),
        w.len() > 0,
        forall|i: int| 0 <= i < w.len() ==> !is_white(#[trigger] w[i]),
    ensures
        words(Seq::<char>::empty()).len() == 0,
        words(w) == seq![w],
        words(a.push(c) + b) == words(a) + words(b),
{
    lemma_only_letters(w, w.len() as int);
    assert(w.take(w.len() as int) =~= w);
    assert(words_so_far(w, w.len() as int).0 =~= seq![]);
    assert(words(w) =~= seq![w]);
    let s = a.push(c) + b;
    let m = a.len() as int;
    assert(s.take(m) =~= a.take(m));
    lemma_same_start(s, a, m);
    assert(s[m] == c);
    assert(words_so_far(s, m + 1).0 =~= words(a));
    assert(words_so_far(s, m + 1).1.len() == 0);
    assert(s.skip(m + 1) =~= b);
    lemma_behind(s, m + 1, b.len() as int);
    assert(words(s) =~= words(a) + words(b));
}

/// Notes are compared by their words, one space between them, without the punctuation at
/// the end: full stops, exclamation and question marks, commas, semicolons and colons.
pub proof fn law_notes_are_compared_by_their_words(lowered: Seq<char>) -> (rest: Seq<char>)
    ensures
        joined(words(lowered), seq![' ']) == note_key(lowered) + rest,
        forall|i: int|
            0 <= i < rest.len() ==> {
                let c = #[trigger] rest[i];
                c == '.' || c == '!' || c == '?' || c == ',' || c == ';' || c == ':'
            },
        note_key(lowered).len() > 0 ==> {
            let c = note_key(lowered).last();
            c != '.' && c != '!' && c != '?' && c != ',' && c != ';' && c != ':'
        },
{
    reveal_strlit(" ");
    assert(" "@ =~= seq![' ']);
    let k = CharClass::Punctuation;
    let s = joined(words(lowered), " "@);
    lemma_drop_trailing_is_take(s, k);
    lemma_trailed(s, k);
    let n = drop_trailing(s, k).len() as int;
    assert(s =~= s.take(n) + s.skip(n));
    assert forall|i: int| 0 <= i < s.skip(n).len() implies {
        let c = #[trigger] s.skip(n)[i];
        c == '.' || c == '!' || c == '?' || c == ',' || c == ';' || c == ':'
    } by {
        assert(k.holds(s[n + i]));
    }
    s.skip(n)
}

// ---------------------------------------------------------------------------
// The order of cohorts
// ---------------------------------------------------------------------------

/// One value comes before another: that there is none first, and then the order of texts.
pub open spec fn value_before(a: Option<Seq<char>>, b: Option<Seq<char>>) -> bool {
    match (a, b) {
        (None, Some(_)) => true,
        (Some(x), Some(y)) => text_lt(x, y),
        (_, None) => false,
    }
}

/// The first value that differs decides which cohort comes first.
pub proof fn law_the_first_value_that_differs_decides(
    a: Seq<Option<Seq<char>>>,
    b: Seq<Option<Seq<char>>>,
    n: int,
)
    requires
        0 <= n < a.len(),
        n < b.len(),
        forall|i: int| 0 <= i < n ==> #[trigger] a[i] == b[i],
        a[n] != b[n],
    ensures
        coordinates_lt(a, b) <==> value_before(a[n], b[n]),
    decreases n,
{
    if n > 0 {
        assert(a[0] == b[0]);
        assert forall|i: int| 0 <= i < n - 1 implies #[trigger] a.drop_first()[i]
            == b.drop_first()[i] by {
            assert(a[i + 1] == b[i + 1]);
        }
        law_the_first_value_that_differs_decides(a.drop_first(), b.drop_first(), n - 1);
    }
}

/// Cohorts by one dimension come in the order of their values, the one without a value
/// first.
pub proof fn law_cohorts_come_in_order(
    rows: Seq<SnapshotView>,
    d: Seq<char>,
    i: int,
    j: int,
)
    requires
        0 <= i < j < grouped(rows, seq![d]).len(),
    ensures
        ({
            let a = grouped(rows, seq![d])[i];
            let b = grouped(rows, seq![d])[j];
            a.key.dom().contains(d) && b.key.dom().contains(d) && value_before(a.key[d], b.key[d])
        }),
{
    let dims = seq![d];
    law_cohorts_partition_the_runs(rows, dims);
    let keys = cohort_keys(rows, dims);
    lemma_one_value(rows, dims, rows.len() as int);
    assert(keys[i].len() == 1 && keys[j].len() == 1);
    assert(coordinates_lt(keys[i], keys[j]));
    reveal_with_fuel(key_map, 2);
    reveal_with_fuel(coordinates_lt, 2);
    assert(dims[0] == d);
}

proof fn lemma_one_value(rows: Seq<SnapshotView>, dims: Seq<Seq<char>>, n: int)
    requires
        0 <= n <= rows.len(),
    ensures
        forall|i: int|
            0 <= i < keys_so_far(rows, dims, n).len() ==> (#[trigger] keys_so_far(
                rows,
                dims,
                n,
            )[i]).len() == dims.len(),
    decreases n,
{
    if n > 0 {
        lemma_one_value(rows, dims, n - 1);
        lemma_lengths(
            keys_so_far(rows, dims, n - 1),
            coordinates(rows[n - 1], dims),
            dims.len(),
        );
    }
}

proof fn lemma_lengths(
    keys: Seq<Seq<Option<Seq<char>>>>,
    k: Seq<Option<Seq<char>>>,
    n: nat,
)
    requires
        k.len() == n,
        forall|i: int| 0 <= i < keys.len() ==> (#[trigger] keys[i]).len() == n,
    ensures
        forall|i: int|
            0 <= i < with_key(keys, k).len() ==> (#[trigger] with_key(keys, k)[i]).len() == n,
    decreases keys.len(),
{
    if keys.len() > 0 && keys[0] != k && !coordinates_lt(k, keys[0]) {
        let rest = keys.drop_first();
        assert forall|i: int| 0 <= i < rest.len() implies (#[trigger] rest[i]).len() == n by {
            assert(rest[i] == keys[i + 1]);
        }
        lemma_lengths(rest, k, n);
        assert forall|i: int| 0 <= i < with_key(keys, k).len() implies (#[trigger] with_key(
            keys,
            k,
        )[i]).len() == n by {
            if i > 0 {
                assert(with_key(keys, k)[i] == with_key(rest, k)[i - 1]);
            }
        }
    } else if keys.len() > 0 && keys[0] != k {
        assert forall|i: int| 0 <= i < with_key(keys, k).len() implies (#[trigger] with_key(
            keys,
            k,
        )[i]).len() == n by {
            if i > 0 {
                assert(with_key(keys, k)[i] == keys[i - 1]);
            }
        }
    }
}

} // verus!
