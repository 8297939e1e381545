//! Statistics over run telemetry: one snapshot per run, cohorts of runs, and
//! cohorts over time.

use vstd::prelude::*;

use crate::errors::prefixed;
use crate::github::runs::{
    ending_after, events_of, finalize_duration, finalized, first_of, gathered, latest_mark,
    lemma_latest_prefix, merge_event, merged, note_ending, opt_ending_view, read_line, run_in,
    settle, settled, window_events, Ending, EndingView, EventView, RunSnapshot, SnapshotView,
};
use crate::order::{
    before, in_rank, lemma_text_lt_irreflexive, lemma_text_lt_total, lemma_text_lt_transitive,
    ranked, sort, text_le, text_lt, viewed, Ranked, TextMap,
};
use crate::text::{
    drop_trailing, is_white, is_whitespace, joined, lowercased, opt_str, opt_str_view, opt_view,
    same, same_opt, slice_views, to_lowercase, trim, trim_end, trimmed, views, CharClass,
};
use crate::time::{
    date_of, day_of, days_from_monday, in_calendar, is_not_later, not_later, weekday_from_monday,
    Timestamp,
};

pub mod cohorts;
pub mod laws;
pub mod versions;

verus! {

/// When a run last did something: its end, or its start where it has none yet.
pub open spec fn active_at(s: SnapshotView) -> Option<Timestamp> {
    first_of(s.completed_at, s.started_at)
}

fn activity(s: &RunSnapshot) -> (r: Option<Timestamp>)
    ensures
        r == active_at(s@),
{
    if s.completed_at.is_some() {
        s.completed_at
    } else {
        s.started_at
    }
}

// ---------------------------------------------------------------------------
// One snapshot per run
// ---------------------------------------------------------------------------

/// The position, from `from` on, of the run with the id.
pub open spec fn run_index(s: Seq<SnapshotView>, run_id: Seq<char>, from: int) -> Option<int>
    decreases s.len() - from,
{
    if from < 0 || from >= s.len() {
        None
    } else if s[from].run_id == run_id {
        Some(from)
    } else {
        run_index(s, run_id, from + 1)
    }
}

/// The runs of the first `n` events, each with all its events, in the order in
/// which they first occur.
pub open spec fn reduced(events: Seq<EventView>, n: int) -> Seq<SnapshotView>
    decreases n,
{
    if n <= 0 {
        seq![]
    } else {
        let s = reduced(events, n - 1);
        let e = events[n - 1];
        match run_index(s, e.run_id, 0) {
            Some(i) => s.update(i, merged(Some(s[i]), e)),
            None => s.push(merged(None, e)),
        }
    }
}

pub proof fn lemma_run_index(s: Seq<SnapshotView>, run_id: Seq<char>, from: int)
    requires
        0 <= from,
    ensures
        match run_index(s, run_id, from) {
            Some(i) => from <= i < s.len() && s[i].run_id == run_id,
            None => forall|i: int| from <= i < s.len() ==> (#[trigger] s[i]).run_id != run_id,
        },
    decreases s.len() - from,
{
    if from < s.len() && s[from].run_id != run_id {
        lemma_run_index(s, run_id, from + 1);
    }
}

/// No run occurs twice among the snapshots.
pub proof fn law_one_snapshot_per_run(events: Seq<EventView>, n: int)
    requires
        0 <= n <= events.len(),
    ensures
        forall|i: int, j: int|
            0 <= i < j < reduced(events, n).len() ==> (#[trigger] reduced(events, n)[i]).run_id != (
            #[trigger] reduced(events, n)[j]).run_id,
    decreases n,
{
    if n > 0 {
        law_one_snapshot_per_run(events, n - 1);
        let s = reduced(events, n - 1);
        lemma_run_index(s, events[n - 1].run_id, 0);
    }
}

/// The two ways to read a run agree: among all runs of some events it is as it is when it
/// is looked for by its id.
pub proof fn law_readers_agree(events: Seq<EventView>, run_id: Seq<char>)
    ensures
        ({
            let n = events.len() as int;
            match run_index(settled_runs(events, n), run_id, 0) {
                Some(i) => run_in(events, run_id) == Some(finalized(settled_runs(events, n)[i])),
                None => run_in(events, run_id) is None,
            }
        }),
{
    let n = events.len() as int;
    let all = settled_runs(events, n);
    lemma_run_index(all, run_id, 0);
    lemma_run_index(reduced(events, n), run_id, 0);
    match run_index(all, run_id, 0) {
        Some(i) => {
            lemma_reduced_is_gathered(events, n, i);
        },
        None => {
            if run_index(reduced(events, n), run_id, 0) is Some {
                let i = run_index(reduced(events, n), run_id, 0)->0;
                assert(all[i].run_id == run_id);
            }
            lemma_marks_are_of_runs(events, n, run_id);
        },
    }
}

/// Among all runs of the first `n` events, a run is what its own events say.
proof fn lemma_reduced_is_gathered(events: Seq<EventView>, n: int, i: int)
    requires
        0 <= n <= events.len(),
        0 <= i < reduced(events, n).len(),
    ensures
        gathered(events, n, reduced(events, n)[i].run_id, None) == Some(reduced(events, n)[i]),
    decreases n,
{
    if n > 0 {
        let s = reduced(events, n - 1);
        let t = reduced(events, n);
        let e = events[n - 1];
        law_one_snapshot_per_run(events, n - 1);
        lemma_run_index(s, e.run_id, 0);
        if i < s.len() {
            lemma_reduced_is_gathered(events, n - 1, i);
        } else {
            lemma_marks_are_of_runs(events, n - 1, e.run_id);
        }
    }
}

fn find_index(v: &Vec<RunSnapshot>, run_id: &str) -> (r: Option<usize>)
    ensures
        match r {
            Some(i) => run_index(viewed(v@), run_id@, 0) == Some(i as int) && i < v.len(),
            None => run_index(viewed(v@), run_id@, 0) is None,
        },
{
    let mut i: usize = 0;
    while i < v.len()
        invariant
            i <= v.len(),
            run_index(viewed(v@), run_id@, 0) == run_index(viewed(v@), run_id@, i as int),
        decreases v.len() - i,
    {
        assert(viewed(v@)[i as int] == v@[i as int]@);
        if same(v[i].run_id.as_str(), run_id) {
            return Some(i);
        }
        i += 1;
    }
    None
}

proof fn lemma_reduced_prefix(a: Seq<EventView>, b: Seq<EventView>, n: int)
    requires
        0 <= n <= a.len(),
        n <= b.len(),
        forall|i: int| 0 <= i < n ==> a[i] == b[i],
    ensures
        reduced(a, n) == reduced(b, n),
    decreases n,
{
    if n > 0 {
        lemma_reduced_prefix(a, b, n - 1);
    }
}

/// What the latest mark of each of the runs says of its end, by the first `n` events.
pub open spec fn endings(events: Seq<EventView>, n: int) -> Seq<Option<EndingView>> {
    Seq::new(
        reduced(events, n).len(),
        |i: int| latest_mark(events, n, reduced(events, n)[i].run_id, None),
    )
}

/// The runs of the first `n` events, each as its latest mark leaves it.
pub open spec fn settled_runs(events: Seq<EventView>, n: int) -> Seq<SnapshotView> {
    Seq::new(reduced(events, n).len(), |i: int| settled(reduced(events, n)[i], endings(events, n)[i]))
}

pub open spec fn ending_views(v: Seq<Option<Ending>>) -> Seq<Option<EndingView>> {
    Seq::new(v.len(), |i: int| opt_ending_view(v[i]))
}

/// A run that no event is of has no mark.
proof fn lemma_marks_are_of_runs(events: Seq<EventView>, n: int, run_id: Seq<char>)
    requires
        0 <= n <= events.len(),
        run_index(reduced(events, n), run_id, 0) is None,
    ensures
        latest_mark(events, n, run_id, None) is None,
        gathered(events, n, run_id, None) is None,
    decreases n,
{
    if n > 0 {
        let s = reduced(events, n - 1);
        let t = reduced(events, n);
        let e = events[n - 1];
        lemma_run_index(t, run_id, 0);
        lemma_run_index(s, run_id, 0);
        lemma_run_index(s, e.run_id, 0);
        match run_index(s, e.run_id, 0) {
            Some(k) => {
                assert(t[k].run_id == e.run_id);
                if run_index(s, run_id, 0) is Some {
                    let i = run_index(s, run_id, 0)->0;
                    assert(t[i].run_id == run_id);
                }
            },
            None => {
                assert(t[s.len() as int].run_id == e.run_id);
                if run_index(s, run_id, 0) is Some {
                    let i = run_index(s, run_id, 0)->0;
                    assert(t[i].run_id == run_id);
                }
            },
        }
        lemma_marks_are_of_runs(events, n - 1, run_id);
    }
}

/// How one more event changes what is known of the ends of the runs.
proof fn lemma_endings_step(events: Seq<EventView>, n: int)
    requires
        0 < n <= events.len(),
    ensures
        ({
            let e = events[n - 1];
            let was = endings(events, n - 1);
            match run_index(reduced(events, n - 1), e.run_id, 0) {
                Some(k) => endings(events, n) == was.update(k, ending_after(was[k], e, e.run_id)),
                None => endings(events, n) == was.push(ending_after(None, e, e.run_id)),
            }
        }),
{
    let e = events[n - 1];
    let s = reduced(events, n - 1);
    let was = endings(events, n - 1);
    law_one_snapshot_per_run(events, n - 1);
    lemma_run_index(s, e.run_id, 0);
    match run_index(s, e.run_id, 0) {
        Some(k) => {
            assert(endings(events, n) =~= was.update(k, ending_after(was[k], e, e.run_id)));
        },
        None => {
            lemma_marks_are_of_runs(events, n - 1, e.run_id);
            assert(endings(events, n) =~= was.push(ending_after(None, e, e.run_id)));
        },
    }
}

proof fn lemma_endings_prefix(a: Seq<EventView>, b: Seq<EventView>, n: int)
    requires
        0 <= n <= a.len(),
        n <= b.len(),
        forall|i: int| 0 <= i < n ==> a[i] == b[i],
    ensures
        endings(a, n) == endings(b, n),
{
    lemma_reduced_prefix(a, b, n);
    assert forall|i: int| 0 <= i < reduced(a, n).len() implies #[trigger] endings(a, n)[i]
        == endings(b, n)[i] by {
        lemma_latest_prefix(a, b, n, reduced(a, n)[i].run_id, None);
    }
    assert(endings(a, n) =~= endings(b, n));
}

/// The runs that were read so far, and what is known of the end of each.
struct Reduction {
    runs: Vec<RunSnapshot>,
    ends: Vec<Option<Ending>>,
}

spec fn reduces(r: Reduction, events: Seq<EventView>) -> bool {
    &&& viewed(r.runs@) == reduced(events, events.len() as int)
    &&& ending_views(r.ends@) == endings(events, events.len() as int)
}

/// Adds the events of one day file.
fn reduce_day(
    lines: &Vec<String>,
    so_far: Reduction,
    Ghost(before): Ghost<Seq<EventView>>,
) -> (r: Reduction)
    requires
        reduces(so_far, before),
    ensures
        reduces(r, before + events_of(views(lines@), lines@.len() as int)),
{
    let ghost texts = views(lines@);
    let Reduction { mut runs, mut ends } = so_far;
    let mut i: usize = 0;
    assert(before + events_of(texts, 0) =~= before);
    while i < lines.len()
        invariant
            i <= lines.len(),
            texts == views(lines@),
            reduces(Reduction { runs, ends }, before + events_of(texts, i as int)),
        decreases lines.len() - i,
    {
        let ghost was = before + events_of(texts, i as int);
        let ghost snaps = viewed(runs@);
        let ghost known = ending_views(ends@);
        assert(texts[i as int] == lines@[i as int]@);
        match read_line(lines[i].as_str()) {
            Some(ev) => {
                let ghost now = before + events_of(texts, i + 1);
                let ghost e = ev@;
                let ghost n = was.len() as int;
                proof {
                    assert(now =~= was.push(e));
                    lemma_reduced_prefix(was, now, n);
                    lemma_endings_prefix(was, now, n);
                    lemma_endings_step(now, n + 1);
                    assert(known.len() == snaps.len());
                    assert(viewed(runs@).len() == runs@.len());
                    assert(ending_views(ends@).len() == ends@.len());
                }
                match find_index(&runs, ev.run_id.as_str()) {
                    Some(k) => {
                        let end = ends.remove(k);
                        assert(opt_ending_view(end) == known[k as int]);
                        let end = note_ending(end, &ev, ev.run_id.as_str());
                        ends.insert(k, end);
                        assert(ending_views(ends@) =~= known.update(
                            k as int,
                            ending_after(known[k as int], e, e.run_id),
                        ));
                        let prior = runs.remove(k);
                        assert(prior@ == snaps[k as int]);
                        let m = merge_event(Some(prior), ev);
                        runs.insert(k, m);
                        assert(viewed(runs@) =~= snaps.update(
                            k as int,
                            merged(Some(snaps[k as int]), e),
                        ));
                    },
                    None => {
                        let end = note_ending(None, &ev, ev.run_id.as_str());
                        ends.push(end);
                        assert(ending_views(ends@) =~= known.push(ending_after(None, e, e.run_id)));
                        runs.push(merge_event(None, ev));
                        assert(viewed(runs@) =~= snaps.push(merged(None, e)));
                    },
                }
            },
            None => {},
        }
        i += 1;
    }
    Reduction { runs, ends }
}

impl Ranked for RunSnapshot {
    /// The one that was active last comes first; runs without a moment come last.
    open spec fn leq(a: SnapshotView, b: SnapshotView) -> bool {
        match (active_at(a), active_at(b)) {
            (_, None) => true,
            (None, Some(_)) => false,
            (Some(x), Some(y)) => not_later(y, x),
        }
    }

    proof fn lemma_leq(a: SnapshotView, b: SnapshotView, c: SnapshotView) {
    }

    fn is_leq(a: &RunSnapshot, b: &RunSnapshot) -> (r: bool) {
        match (activity(a), activity(b)) {
            (_, None) => true,
            (None, Some(_)) => false,
            (Some(x), Some(y)) => is_not_later(&y, &x),
        }
    }
}

/// The run is of the skill, where one is asked for.
pub open spec fn of_skill(s: SnapshotView, slug: Option<Seq<char>>) -> bool {
    slug is None || s.skill == slug
}

/// The first `n` runs that are of the skill, with their durations.
pub open spec fn selected(
    s: Seq<SnapshotView>,
    n: int,
    slug: Option<Seq<char>>,
) -> Seq<SnapshotView>
    decreases n,
{
    if n <= 0 {
        seq![]
    } else if of_skill(s[n - 1], slug) {
        selected(s, n - 1, slug).push(finalized(s[n - 1]))
    } else {
        selected(s, n - 1, slug)
    }
}

/// The runs of day files that are of the skill. The skill is looked at once all
/// events of a run are known, so that an event may leave it out. How a run ended is what
/// its latest mark says.
pub open spec fn scanned_runs(
    days: Seq<Vec<String>>,
    slug: Option<Seq<char>>,
) -> Seq<SnapshotView> {
    let events = window_events(days, days.len() as int);
    let runs = settled_runs(events, events.len() as int);
    selected(runs, runs.len() as int, slug)
}

/// The runs of the day files of a window, the latest first, of one skill where one
/// is asked for.
pub fn scan_snapshots(days: &Vec<Vec<String>>, slug: Option<&str>) -> (r: Vec<RunSnapshot>)
    ensures
        viewed(r@) == in_rank::<RunSnapshot>(scanned_runs(days@, opt_str_view(slug))),
{
    let mut so_far = Reduction { runs: Vec::new(), ends: Vec::new() };
    let mut i: usize = 0;
    assert(viewed(so_far.runs@) =~= reduced(window_events(days@, 0), 0));
    assert(ending_views(so_far.ends@) =~= endings(window_events(days@, 0), 0));
    while i < days.len()
        invariant
            i <= days.len(),
            reduces(so_far, window_events(days@, i as int)),
        decreases days.len() - i,
    {
        let ghost events = window_events(days@, i as int);
        so_far = reduce_day(&days[i], so_far, Ghost(events));
        i += 1;
    }
    let Reduction { runs, ends } = so_far;
    let ghost events = window_events(days@, days@.len() as int);
    let ghost n = events.len() as int;
    let ghost snaps = viewed(runs@);
    let ghost all = settled_runs(events, n);
    let ghost want = opt_str_view(slug);
    let mut kept: Vec<RunSnapshot> = Vec::new();
    let mut k: usize = 0;
    assert(viewed(kept@) =~= selected(all, 0, want));
    assert(snaps.len() == runs@.len());
    assert(ending_views(ends@).len() == ends@.len());
    for s in it: runs
        invariant
            viewed(it.seq()) == snaps,
            snaps == reduced(events, n),
            ends@.len() == snaps.len(),
            ending_views(ends@) == endings(events, n),
            all == settled_runs(events, n),
            k == it.index(),
            want == opt_str_view(slug),
            viewed(kept@) == selected(all, it.index() as int, want),
    {
        assert(snaps[it.index() as int] == s@);
        assert(k < ends.len());
        assert(ending_views(ends@)[k as int] == opt_ending_view(ends@[k as int]));
        let s = settle(s, &ends[k]);
        assert(all[k as int] == s@);
        let keep = match slug {
            Some(_) => same_opt(opt_str(&s.skill), slug),
            None => true,
        };
        if keep {
            let ghost was = viewed(kept@);
            let ghost v = s@;
            kept.push(finalize_duration(s));
            assert(viewed(kept@) =~= was.push(finalized(v)));
        }
        k += 1;
    }
    sort(kept)
}

// ---------------------------------------------------------------------------
// Notes
// ---------------------------------------------------------------------------

/// The words of the first `n` characters: the stretches without white space. The
/// last one may still grow.
pub open spec fn words_so_far(s: Seq<char>, n: int) -> (Seq<Seq<char>>, Seq<char>)
    decreases n,
{
    if n <= 0 {
        (seq![], seq![])
    } else {
        let (done, word) = words_so_far(s, n - 1);
        if !is_white(s[n - 1]) {
            (done, word.push(s[n - 1]))
        } else if word.len() > 0 {
            (done.push(word), seq![])
        } else {
            (done, word)
        }
    }
}

/// The words of a text.
pub open spec fn words(s: Seq<char>) -> Seq<Seq<char>> {
    let (done, word) = words_so_far(s, s.len() as int);
    if word.len() > 0 {
        done.push(word)
    } else {
        done
    }
}

/// A note in lower case as the key that it is counted under: one space between
/// its words, and no punctuation at its end.
pub open spec fn note_key(lowered: Seq<char>) -> Seq<char> {
    drop_trailing(joined(words(lowered), " "@), CharClass::Punctuation)
}

/// The words of a text.
pub fn split_words(s: &str) -> (r: Vec<String>)
    ensures
        views(r@) == words(s@),
{
    let v = crate::text::chars_of(s);
    let mut done: Vec<String> = Vec::new();
    let mut word = String::new();
    let mut i: usize = 0;
    assert(views(done@) =~= seq![]);
    assert(word@ =~= seq![]);
    while i < v.len()
        invariant
            i <= v.len(),
            v@ == s@,
            words_so_far(s@, i as int) == (views(done@), word@),
        decreases v.len() - i,
    {
        if !is_whitespace(v[i]) {
            word.push(v[i]);
        } else if !word.as_str().is_empty() {
            let ghost was = views(done@);
            let ghost w = word@;
            done.push(word);
            assert(views(done@) =~= was.push(w));
            word = String::new();
            assert(word@ =~= seq![]);
        }
        i += 1;
    }
    if !word.as_str().is_empty() {
        let ghost was = views(done@);
        let ghost w = word@;
        done.push(word);
        assert(views(done@) =~= was.push(w));
    }
    done
}

/// The key of a note that is in lower case already.
pub fn collapse_note(lowered: &str) -> (r: String)
    ensures
        r@ == note_key(lowered@),
{
    let w = split_words(lowered);
    let collapsed = crate::text::join_strings(&w, " ");
    trim_end(collapsed.as_str(), CharClass::Punctuation).to_owned()
}

/// The key that a note is counted under, so that notes that differ in case, space
/// or final punctuation count as one.
pub fn normalize_note(raw: &str) -> (r: String)
    ensures
        r@ == note_key(lowercased(raw@)),
{
    let lowered = to_lowercase(raw);
    collapse_note(lowered.as_str())
}

/// A note and how often it occurs.
#[derive(Debug)]
pub struct NoteCount {
    pub note: String,
    pub count: u64,
}

impl View for NoteCount {
    type V = (Seq<char>, nat);

    open spec fn view(&self) -> (Seq<char>, nat) {
        (self.note@, self.count as nat)
    }
}

impl Ranked for NoteCount {
    /// The more frequent note comes first; of two equally frequent ones the one
    /// that comes first as text.
    open spec fn leq(a: (Seq<char>, nat), b: (Seq<char>, nat)) -> bool {
        a.1 > b.1 || (a.1 == b.1 && text_le(a.0, b.0))
    }

    proof fn lemma_leq(a: (Seq<char>, nat), b: (Seq<char>, nat), c: (Seq<char>, nat)) {
        lemma_text_lt_total(a.0, b.0);
        if text_lt(a.0, b.0) && text_lt(b.0, c.0) {
            lemma_text_lt_transitive(a.0, b.0, c.0);
        }
    }

    fn is_leq(a: &NoteCount, b: &NoteCount) -> (r: bool) {
        a.count > b.count || (a.count == b.count && String::is_leq(&a.note, &b.note))
    }
}

/// A note while it is counted: its key, the form in which it was first seen, and
/// how often it was seen.
#[verifier::ext_equal]
pub ghost struct TallyView {
    pub key: Seq<char>,
    pub note: Seq<char>,
    pub count: nat,
}

struct Tally {
    key: String,
    note: String,
    count: u64,
}

impl View for Tally {
    type V = TallyView;

    closed spec fn view(&self) -> TallyView {
        TallyView { key: self.key@, note: self.note@, count: self.count as nat }
    }
}

/// The run failed, or was broken off.
pub open spec fn is_failure(s: SnapshotView) -> bool {
    s.status == "failed"@ || s.status == "aborted"@
}

pub open spec fn is_success(s: SnapshotView) -> bool {
    s.status == "succeeded"@
}

/// The note of a failed run, without white space around it, where its key is not
/// empty.
pub open spec fn failure_note(s: SnapshotView) -> Option<Seq<char>> {
    if is_failure(s) && s.note is Some {
        let t = trimmed(s.note->0);
        if t.len() > 0 && note_key(lowercased(t)).len() > 0 {
            Some(t)
        } else {
            None
        }
    } else {
        None
    }
}

/// The position, from `from` on, of the key.
pub open spec fn tally_index(t: Seq<TallyView>, key: Seq<char>, from: int) -> Option<int>
    decreases t.len() - from,
{
    if from < 0 || from >= t.len() {
        None
    } else if t[from].key == key {
        Some(from)
    } else {
        tally_index(t, key, from + 1)
    }
}

/// The counts of the notes of the first `n` runs, in the order in which they were
/// first seen.
pub open spec fn tallied(rows: Seq<SnapshotView>, n: int) -> Seq<TallyView>
    decreases n,
{
    if n <= 0 {
        seq![]
    } else {
        let t = tallied(rows, n - 1);
        match failure_note(rows[n - 1]) {
            None => t,
            Some(note) => {
                let key = note_key(lowercased(note));
                match tally_index(t, key, 0) {
                    Some(i) => t.update(i, TallyView { count: t[i].count + 1, ..t[i] }),
                    None => t.push(TallyView { key, note, count: 1 }),
                }
            },
        }
    }
}

/// Notes and their counts, without the keys.
pub open spec fn note_counts(t: Seq<TallyView>) -> Seq<(Seq<char>, nat)> {
    Seq::new(t.len(), |i: int| (t[i].note, t[i].count))
}

/// The three most frequent notes of failed runs.
pub open spec fn top_notes(rows: Seq<SnapshotView>) -> Seq<(Seq<char>, nat)> {
    let all = in_rank::<NoteCount>(note_counts(tallied(rows, rows.len() as int)));
    if all.len() <= 3 {
        all
    } else {
        all.take(3)
    }
}

fn find_tally(t: &Vec<Tally>, key: &str) -> (r: Option<usize>)
    ensures
        match r {
            Some(i) => tally_index(viewed(t@), key@, 0) == Some(i as int) && i < t.len(),
            None => tally_index(viewed(t@), key@, 0) is None,
        },
{
    let mut i: usize = 0;
    while i < t.len()
        invariant
            i <= t.len(),
            tally_index(viewed(t@), key@, 0) == tally_index(viewed(t@), key@, i as int),
        decreases t.len() - i,
    {
        assert(viewed(t@)[i as int] == t@[i as int]@);
        if same(t[i].key.as_str(), key) {
            return Some(i);
        }
        i += 1;
    }
    None
}

fn has_failed(s: &RunSnapshot) -> (r: bool)
    ensures
        r == is_failure(s@),
{
    same(s.status.as_str(), "failed") || same(s.status.as_str(), "aborted")
}

/// Counts the note of one more run.
fn count_note(
    t: Vec<Tally>,
    s: &RunSnapshot,
    Ghost(rows): Ghost<Seq<SnapshotView>>,
    Ghost(n): Ghost<int>,
) -> (r: Vec<Tally>)
    requires
        0 <= n < rows.len(),
        n < u64::MAX,
        rows[n] == s@,
        viewed(t@) == tallied(rows, n),
        forall|i: int| 0 <= i < t@.len() ==> (#[trigger] t@[i]).count <= n,
    ensures
        viewed(r@) == tallied(rows, n + 1),
        forall|i: int| 0 <= i < r@.len() ==> (#[trigger] r@[i]).count <= n + 1,
{
    let mut t = t;
    let ghost was = viewed(t@);
    if !has_failed(s) {
        return t;
    }
    if let Some(n) = &s.note {
        let note = trim(n.as_str());
        if !note.is_empty() {
            let key = normalize_note(note);
            if !key.as_str().is_empty() {
                match find_tally(&t, key.as_str()) {
                    Some(i) => {
                        let old_entry = t.remove(i);
                        assert(old_entry@ == was[i as int]);
                        let entry = Tally {
                            key: old_entry.key,
                            note: old_entry.note,
                            count: old_entry.count + 1,
                        };
                        t.insert(i, entry);
                        assert(viewed(t@) =~= was.update(
                            i as int,
                            TallyView { count: was[i as int].count + 1, ..was[i as int] },
                        ));
                    },
                    None => {
                        let ghost k = key@;
                        t.push(Tally { key, note: note.to_owned(), count: 1 });
                        assert(viewed(t@) =~= was.push(
                            TallyView { key: k, note: note@, count: 1 },
                        ));
                    },
                }
            }
        }
    }
    t
}

// ---------------------------------------------------------------------------
// Durations
// ---------------------------------------------------------------------------

impl Ranked for u64 {
    open spec fn leq(a: u64, b: u64) -> bool {
        a <= b
    }

    proof fn lemma_leq(a: u64, b: u64, c: u64) {
    }

    fn is_leq(a: &u64, b: &u64) -> (r: bool) {
        *a <= *b
    }
}

/// The durations among the first `n` runs.
pub open spec fn durations(rows: Seq<SnapshotView>, n: int) -> Seq<u64>
    decreases n,
{
    if n <= 0 {
        seq![]
    } else {
        match rows[n - 1].duration_ms {
            Some(d) => durations(rows, n - 1).push(d),
            None => durations(rows, n - 1),
        }
    }
}

/// The value at the given hundredth of sorted values: at the position nearest to
/// that share of the way from the first to the last, the upper one of two.
pub open spec fn percentile_of(sorted: Seq<u64>, percent: int) -> Option<u64> {
    if sorted.len() == 0 {
        None
    } else {
        Some(sorted[((sorted.len() - 1) * percent + 50) / 100])
    }
}

/// The value at the given hundredth of sorted values.
pub fn percentile(sorted: &Vec<u64>, percent: u64) -> (r: Option<u64>)
    requires
        percent <= 100,
    ensures
        r == percentile_of(sorted@, percent as int),
{
    if sorted.len() == 0 {
        return None;
    }
    let last: u128 = (sorted.len() - 1) as u128;
    assert(last * percent <= last * 100) by (nonlinear_arith)
        requires
            percent <= 100,
    ;
    let at: u128 = (last * percent as u128 + 50) / 100;
    assert(at <= last);
    Some(sorted[at as usize])
}

// ---------------------------------------------------------------------------
// Cohorts
// ---------------------------------------------------------------------------

/// The share of succeeded runs among the marked ones. There is always a marked one.
#[derive(Debug, Clone, Copy, PartialEq, Eq, Structural)]
pub struct Rate {
    pub succeeded: u64,
    pub marked: u64,
}

/// The statistics of a cohort of runs. A run that was broken off counts as failed.
#[derive(Debug)]
pub struct StatsBucket {
    /// What the runs of the cohort have in common, by dimension.
    pub key: TextMap<Option<String>>,
    pub total: u64,
    pub succeeded: u64,
    pub failed: u64,
    pub unmarked: u64,
    /// Absent where no run is marked.
    pub success_rate: Option<Rate>,
    pub p50_ms: Option<u64>,
    pub p95_ms: Option<u64>,
    pub last_run_at: Option<Timestamp>,
    pub top_notes: Vec<NoteCount>,
}

/// The statistics of a cohort as a mathematical value.
#[verifier::ext_equal]
pub ghost struct BucketView {
    pub key: Map<Seq<char>, Option<Seq<char>>>,
    pub total: nat,
    pub succeeded: nat,
    pub failed: nat,
    pub unmarked: nat,
    pub success_rate: Option<Rate>,
    pub p50_ms: Option<u64>,
    pub p95_ms: Option<u64>,
    pub last_run_at: Option<Timestamp>,
    pub top_notes: Seq<(Seq<char>, nat)>,
}

/// A map of optional texts, with the values as sequences.
pub open spec fn key_contents(m: TextMap<Option<String>>) -> Map<Seq<char>, Option<Seq<char>>> {
    m.contents().map_values(|o: Option<String>| opt_view(o))
}

impl View for StatsBucket {
    type V = BucketView;

    open spec fn view(&self) -> BucketView {
        BucketView {
            key: key_contents(self.key),
            total: self.total as nat,
            succeeded: self.succeeded as nat,
            failed: self.failed as nat,
            unmarked: self.unmarked as nat,
            success_rate: self.success_rate,
            p50_ms: self.p50_ms,
            p95_ms: self.p95_ms,
            last_run_at: self.last_run_at,
            top_notes: viewed(self.top_notes@),
        }
    }
}

/// How many of the first `n` runs succeeded.
pub open spec fn succeeded_count(rows: Seq<SnapshotView>, n: int) -> nat
    decreases n,
{
    if n <= 0 {
        0
    } else {
        succeeded_count(rows, n - 1) + if is_success(rows[n - 1]) {
            1nat
        } else {
            0nat
        }
    }
}

/// How many of the first `n` runs failed.
pub open spec fn failed_count(rows: Seq<SnapshotView>, n: int) -> nat
    decreases n,
{
    if n <= 0 {
        0
    } else {
        failed_count(rows, n - 1) + if is_failure(rows[n - 1]) {
            1nat
        } else {
            0nat
        }
    }
}

/// The later of two moments.
pub open spec fn later_of(a: Option<Timestamp>, b: Option<Timestamp>) -> Option<Timestamp> {
    match (a, b) {
        (Some(x), Some(y)) => if not_later(y, x) {
            a
        } else {
            b
        },
        (Some(_), None) => a,
        (None, _) => b,
    }
}

/// When one of the first `n` runs last did something.
pub open spec fn last_active(rows: Seq<SnapshotView>, n: int) -> Option<Timestamp>
    decreases n,
{
    if n <= 0 {
        None
    } else {
        later_of(last_active(rows, n - 1), active_at(rows[n - 1]))
    }
}

/// The share of succeeded runs, where one is marked.
pub open spec fn rate_of(succeeded: nat, failed: nat) -> Option<Rate> {
    if succeeded + failed > 0 {
        Some(Rate { succeeded: succeeded as u64, marked: (succeeded + failed) as u64 })
    } else {
        None
    }
}

/// The statistics of a cohort.
pub open spec fn bucket_of(
    key: Map<Seq<char>, Option<Seq<char>>>,
    rows: Seq<SnapshotView>,
) -> BucketView {
    let n = rows.len() as int;
    let succeeded = succeeded_count(rows, n);
    let failed = failed_count(rows, n);
    let sorted = in_rank::<u64>(durations(rows, n));
    BucketView {
        key,
        total: rows.len(),
        succeeded,
        failed,
        unmarked: (rows.len() - succeeded - failed) as nat,
        success_rate: rate_of(succeeded, failed),
        p50_ms: percentile_of(sorted, 50),
        p95_ms: percentile_of(sorted, 95),
        last_run_at: last_active(rows, n),
        top_notes: top_notes(rows),
    }
}

proof fn lemma_counts(rows: Seq<SnapshotView>, n: int)
    requires
        0 <= n <= rows.len(),
    ensures
        succeeded_count(rows, n) + failed_count(rows, n) <= n,
    decreases n,
{
    reveal_strlit("succeeded");
    reveal_strlit("failed");
    reveal_strlit("aborted");
    if n > 0 {
        lemma_counts(rows, n - 1);
        assert("succeeded"@.len() != "failed"@.len());
        assert("succeeded"@.len() != "aborted"@.len());
    }
}

/// Every run of a cohort counts as succeeded, as failed or as unmarked, and there
/// is a rate exactly where one is marked.
pub proof fn law_bucket_counts_add_up(
    key: Map<Seq<char>, Option<Seq<char>>>,
    rows: Seq<SnapshotView>,
)
    ensures
        bucket_of(key, rows).succeeded + bucket_of(key, rows).failed + bucket_of(key, rows).unmarked
            == bucket_of(key, rows).total,
        bucket_of(key, rows).success_rate is Some <==> bucket_of(key, rows).succeeded + bucket_of(
            key,
            rows,
        ).failed > 0,
        bucket_of(key, rows).top_notes.len() <= 3,
{
    lemma_counts(rows, rows.len() as int);
}

/// What the rows of a slice of references stand for.
pub open spec fn row_views(rows: Seq<&RunSnapshot>) -> Seq<SnapshotView> {
    Seq::new(rows.len(), |i: int| rows[i]@)
}

/// The statistics of a cohort.
pub fn build_bucket(key: TextMap<Option<String>>, rows: &[&RunSnapshot]) -> (r: StatsBucket)
    ensures
        r@ == bucket_of(key_contents(key), row_views(rows@)),
        r.key == key,
{
    let ghost all = row_views(rows@);
    let mut succeeded: u64 = 0;
    let mut failed: u64 = 0;
    let mut unmarked: u64 = 0;
    let mut times: Vec<u64> = Vec::new();
    let mut notes: Vec<Tally> = Vec::new();
    let mut last: Option<Timestamp> = None;
    let mut i: usize = 0;
    proof {
        assert(viewed(times@) =~= durations(all, 0));
        assert(viewed(notes@) =~= tallied(all, 0));
    }
    while i < rows.len()
        invariant
            i <= rows.len(),
            all == row_views(rows@),
            succeeded == succeeded_count(all, i as int),
            failed == failed_count(all, i as int),
            succeeded + failed + unmarked == i,
            times@ == durations(all, i as int),
            viewed(notes@) == tallied(all, i as int),
            forall|j: int| 0 <= j < notes@.len() ==> (#[trigger] notes@[j]).count <= i,
            last == last_active(all, i as int),
        decreases rows.len() - i,
    {
        let s = rows[i];
        assert(all[i as int] == s@);
        proof {
            reveal_strlit("succeeded");
            reveal_strlit("failed");
            reveal_strlit("aborted");
            assert("succeeded"@.len() != "failed"@.len());
            assert("succeeded"@.len() != "aborted"@.len());
        }
        if same(s.status.as_str(), "succeeded") {
            succeeded += 1;
        } else if has_failed(s) {
            failed += 1;
        } else {
            unmarked += 1;
        }
        if let Some(d) = s.duration_ms {
            times.push(d);
        }
        notes = count_note(notes, s, Ghost(all), Ghost(i as int));
        if let Some(at) = activity(s) {
            last = match last {
                Some(prev) => if is_not_later(&at, &prev) {
                    Some(prev)
                } else {
                    Some(at)
                },
                None => Some(at),
            };
        }
        i += 1;
    }
    let marked: u64 = succeeded + failed;
    let success_rate = if marked > 0 {
        Some(Rate { succeeded, marked })
    } else {
        None
    };
    proof {
        assert(viewed(times@) =~= times@);
    }
    let sorted = sort(times);
    proof {
        assert(viewed(sorted@) =~= sorted@);
    }
    let p50_ms = percentile(&sorted, 50);
    let p95_ms = percentile(&sorted, 95);
    let top = rank_notes(notes);
    let r = StatsBucket {
        key,
        total: rows.len() as u64,
        succeeded,
        failed,
        unmarked,
        success_rate,
        p50_ms,
        p95_ms,
        last_run_at: last,
        top_notes: top,
    };
    assert(r@ =~= bucket_of(key_contents(key), all));
    r
}

/// The three most frequent notes.
fn rank_notes(notes: Vec<Tally>) -> (r: Vec<NoteCount>)
    ensures
        ({
            let all = in_rank::<NoteCount>(note_counts(viewed(notes@)));
            viewed(r@) == if all.len() <= 3 {
                all
            } else {
                all.take(3)
            }
        }),
{
    let ghost t = viewed(notes@);
    let mut counts: Vec<NoteCount> = Vec::new();
    for x in it: notes
        invariant
            viewed(it.seq()) == t,
            counts@.len() == it.index(),
            forall|j: int|
                0 <= j < it.index() ==> (#[trigger] counts@[j])@ == (t[j].note, t[j].count),
    {
        assert(t[it.index() as int] == x@);
        counts.push(NoteCount { note: x.note, count: x.count });
    }
    assert(viewed(counts@) =~= note_counts(t));
    let mut ranked = sort(counts);
    let ghost all = viewed(ranked@);
    if ranked.len() > 3 {
        ranked.truncate(3);
        assert(viewed(ranked@) =~= all.take(3));
    }
    ranked
}

// ---------------------------------------------------------------------------
// Grouping
// ---------------------------------------------------------------------------

/// What a run has along a dimension; nothing along one that is not known.
pub open spec fn coordinate(s: SnapshotView, dimension: Seq<char>) -> Option<Seq<char>> {
    if dimension == "version"@ {
        s.version
    } else if dimension == "agent"@ {
        s.agent
    } else {
        None
    }
}

/// What a run has along each dimension.
pub open spec fn coordinates(
    s: SnapshotView,
    dimensions: Seq<Seq<char>>,
) -> Seq<Option<Seq<char>>> {
    Seq::new(dimensions.len(), |i: int| coordinate(s, dimensions[i]))
}

/// `a` comes before `b`: nothing comes before any text.
pub open spec fn coordinate_lt(a: Option<Seq<char>>, b: Option<Seq<char>>) -> bool {
    match (a, b) {
        (None, Some(_)) => true,
        (Some(x), Some(y)) => text_lt(x, y),
        (_, None) => false,
    }
}

/// `a` comes before `b`, by the first dimension in which they differ.
pub open spec fn coordinates_lt(a: Seq<Option<Seq<char>>>, b: Seq<Option<Seq<char>>>) -> bool
    decreases a.len(),
{
    if b.len() == 0 {
        false
    } else if a.len() == 0 {
        true
    } else if a[0] != b[0] {
        coordinate_lt(a[0], b[0])
    } else {
        coordinates_lt(a.drop_first(), b.drop_first())
    }
}

/// `k` put into keys in order, unless it is there.
pub open spec fn with_key(keys: Seq<Seq<Option<Seq<char>>>>, k: Seq<Option<Seq<char>>>) -> Seq<
    Seq<Option<Seq<char>>>,
>
    decreases keys.len(),
{
    if keys.len() == 0 {
        seq![k]
    } else if keys[0] == k {
        keys
    } else if coordinates_lt(k, keys[0]) {
        seq![k] + keys
    } else {
        seq![keys[0]] + with_key(keys.drop_first(), k)
    }
}

/// The coordinates that the first `n` runs have, each once and in order.
pub open spec fn keys_so_far(rows: Seq<SnapshotView>, dimensions: Seq<Seq<char>>, n: int) -> Seq<
    Seq<Option<Seq<char>>>,
>
    decreases n,
{
    if n <= 0 {
        seq![]
    } else {
        with_key(keys_so_far(rows, dimensions, n - 1), coordinates(rows[n - 1], dimensions))
    }
}

/// The coordinates of the cohorts. Without dimensions there is one cohort, of all
/// runs there are.
pub open spec fn cohort_keys(rows: Seq<SnapshotView>, dimensions: Seq<Seq<char>>) -> Seq<
    Seq<Option<Seq<char>>>,
> {
    if dimensions.len() == 0 {
        seq![seq![]]
    } else {
        keys_so_far(rows, dimensions, rows.len() as int)
    }
}

/// Those of the first `n` runs that have the coordinates.
pub open spec fn cohort(
    rows: Seq<SnapshotView>,
    dimensions: Seq<Seq<char>>,
    key: Seq<Option<Seq<char>>>,
    n: int,
) -> Seq<SnapshotView>
    decreases n,
{
    if n <= 0 {
        seq![]
    } else if coordinates(rows[n - 1], dimensions) == key {
        cohort(rows, dimensions, key, n - 1).push(rows[n - 1])
    } else {
        cohort(rows, dimensions, key, n - 1)
    }
}

/// The first `n` dimensions with their coordinates.
pub open spec fn key_map(dimensions: Seq<Seq<char>>, key: Seq<Option<Seq<char>>>, n: int) -> Map<
    Seq<char>,
    Option<Seq<char>>,
>
    decreases n,
{
    if n <= 0 {
        Map::empty()
    } else {
        key_map(dimensions, key, n - 1).insert(dimensions[n - 1], key[n - 1])
    }
}

/// The statistics of each cohort, in the order of their coordinates.
pub open spec fn grouped(rows: Seq<SnapshotView>, dimensions: Seq<Seq<char>>) -> Seq<BucketView> {
    let keys = cohort_keys(rows, dimensions);
    Seq::new(
        keys.len(),
        |i: int|
            bucket_of(
                key_map(dimensions, keys[i], dimensions.len() as int),
                cohort(rows, dimensions, keys[i], rows.len() as int),
            ),
    )
}

pub open spec fn coords_view(v: Seq<Option<String>>) -> Seq<Option<Seq<char>>> {
    Seq::new(v.len(), |i: int| opt_view(v[i]))
}

spec fn keys_view(v: Seq<Vec<Option<String>>>) -> Seq<Seq<Option<Seq<char>>>> {
    Seq::new(v.len(), |i: int| coords_view(v[i]@))
}

fn coordinates_of(s: &RunSnapshot, dimensions: &[&str]) -> (r: Vec<Option<String>>)
    ensures
        coords_view(r@) == coordinates(s@, slice_views(dimensions@)),
{
    let mut r: Vec<Option<String>> = Vec::new();
    let mut i: usize = 0;
    while i < dimensions.len()
        invariant
            i <= dimensions.len(),
            r@.len() == i,
            forall|j: int|
                0 <= j < i ==> opt_view(#[trigger] r@[j]) == coordinate(s@, dimensions@[j]@),
        decreases dimensions.len() - i,
    {
        let c = if same(dimensions[i], "version") {
            crate::text::opt_owned(opt_str(&s.version))
        } else if same(dimensions[i], "agent") {
            crate::text::opt_owned(opt_str(&s.agent))
        } else {
            None
        };
        r.push(c);
        i += 1;
    }
    assert(coords_view(r@) =~= coordinates(s@, slice_views(dimensions@)));
    r
}

fn same_coords(a: &Vec<Option<String>>, b: &Vec<Option<String>>) -> (r: bool)
    ensures
        r == (coords_view(a@) == coords_view(b@)),
{
    if a.len() != b.len() {
        assert(coords_view(a@).len() != coords_view(b@).len());
        return false;
    }
    let mut i: usize = 0;
    while i < a.len()
        invariant
            i <= a.len(),
            a.len() == b.len(),
            forall|j: int| 0 <= j < i ==> coords_view(a@)[j] == coords_view(b@)[j],
        decreases a.len() - i,
    {
        if !same_opt(opt_str(&a[i]), opt_str(&b[i])) {
            assert(coords_view(a@)[i as int] != coords_view(b@)[i as int]);
            return false;
        }
        assert(coords_view(a@)[i as int] == coords_view(b@)[i as int]);
        i += 1;
    }
    assert(coords_view(a@) =~= coords_view(b@));
    true
}

proof fn lemma_coordinates_lt_at(a: Seq<Option<Seq<char>>>, b: Seq<Option<Seq<char>>>, n: int)
    requires
        0 <= n <= a.len(),
        n <= b.len(),
        forall|j: int| 0 <= j < n ==> a[j] == b[j],
    ensures
        coordinates_lt(a, b) == coordinates_lt(a.skip(n), b.skip(n)),
    decreases n,
{
    if n == 0 {
        assert(a.skip(0) =~= a);
        assert(b.skip(0) =~= b);
    } else {
        assert(a[0] == b[0]);
        assert forall|j: int| 0 <= j < n - 1 implies a.drop_first()[j] == b.drop_first()[j] by {
            assert(a[j + 1] == b[j + 1]);
        }
        lemma_coordinates_lt_at(a.drop_first(), b.drop_first(), n - 1);
        assert(a.drop_first().skip(n - 1) =~= a.skip(n));
        assert(b.drop_first().skip(n - 1) =~= b.skip(n));
    }
}

fn coords_before(a: &Vec<Option<String>>, b: &Vec<Option<String>>) -> (r: bool)
    ensures
        r == coordinates_lt(coords_view(a@), coords_view(b@)),
{
    let ghost x = coords_view(a@);
    let ghost y = coords_view(b@);
    let mut i: usize = 0;
    while i < a.len() && i < b.len()
        invariant
            i <= a.len(),
            i <= b.len(),
            x == coords_view(a@),
            y == coords_view(b@),
            forall|j: int| 0 <= j < i ==> x[j] == y[j],
        decreases a.len() - i,
    {
        assert(x[i as int] == opt_view(a@[i as int]));
        assert(y[i as int] == opt_view(b@[i as int]));
        if !same_opt(opt_str(&a[i]), opt_str(&b[i])) {
            proof {
                lemma_coordinates_lt_at(x, y, i as int);
            }
            return match (&a[i], &b[i]) {
                (None, Some(_)) => true,
                (Some(p), Some(q)) => before(p.as_str(), q.as_str()),
                _ => false,
            };
        }
        i += 1;
    }
    proof {
        lemma_coordinates_lt_at(x, y, i as int);
    }
    i < b.len()
}

proof fn lemma_with_key_at(
    keys: Seq<Seq<Option<Seq<char>>>>,
    k: Seq<Option<Seq<char>>>,
    i: int,
)
    requires
        0 <= i <= keys.len(),
        forall|j: int| 0 <= j < i ==> (#[trigger] keys[j]) != k && !coordinates_lt(k, keys[j]),
        i < keys.len() ==> keys[i] == k || coordinates_lt(k, keys[i]),
    ensures
        with_key(keys, k) == (if i < keys.len() && keys[i] == k {
            keys
        } else {
            keys.insert(i, k)
        }),
    decreases i,
{
    if i == 0 {
        if keys.len() == 0 {
            assert(keys.insert(0, k) =~= seq![k]);
        } else if keys[0] != k {
            assert(keys.insert(0, k) =~= seq![k] + keys);
        }
    } else {
        let rest = keys.drop_first();
        assert forall|j: int| 0 <= j < i - 1 implies (#[trigger] rest[j]) != k && !coordinates_lt(
            k,
            rest[j],
        ) by {
            assert(rest[j] == keys[j + 1]);
        }
        assert(keys[0] != k && !coordinates_lt(k, keys[0]));
        lemma_with_key_at(rest, k, i - 1);
        if i < keys.len() && keys[i] == k {
            assert(seq![keys[0]] + rest =~= keys);
        } else {
            assert(seq![keys[0]] + rest.insert(i - 1, k) =~= keys.insert(i, k));
        }
    }
}

/// Adds coordinates to those that are there, in order, unless they are there.
fn add_key(keys: &mut Vec<Vec<Option<String>>>, k: Vec<Option<String>>)
    ensures
        keys_view(final(keys)@) == with_key(keys_view(old(keys)@), coords_view(k@)),
{
    let ghost all = keys_view(keys@);
    let ghost want = coords_view(k@);
    let mut i: usize = 0;
    while i < keys.len() && !same_coords(&keys[i], &k) && !coords_before(&k, &keys[i])
        invariant
            i <= keys.len(),
            all == keys_view(keys@),
            want == coords_view(k@),
            forall|j: int| 0 <= j < i ==> (#[trigger] all[j]) != want && !coordinates_lt(want, all[j]),
        decreases keys.len() - i,
    {
        assert(all[i as int] == coords_view(keys@[i as int]@));
        i += 1;
    }
    proof {
        if i < keys.len() {
            assert(all[i as int] == coords_view(keys@[i as int]@));
        }
        lemma_with_key_at(all, want, i as int);
    }
    if i < keys.len() && same_coords(&keys[i], &k) {
        return;
    }
    keys.insert(i, k);
    assert(keys_view(keys@) =~= all.insert(i as int, want));
}

/// The map of dimensions to coordinates.
fn key_of(dimensions: &[&str], coords: &Vec<Option<String>>) -> (r: TextMap<Option<String>>)
    requires
        dimensions@.len() == coords@.len(),
    ensures
        r.wf(),
        key_contents(r) == key_map(
            slice_views(dimensions@),
            coords_view(coords@),
            dimensions@.len() as int,
        ),
{
    let ghost dims = slice_views(dimensions@);
    let ghost key = coords_view(coords@);
    let mut m: TextMap<Option<String>> = TextMap::new();
    let mut i: usize = 0;
    assert(key_contents(m) =~= key_map(dims, key, 0));
    while i < dimensions.len()
        invariant
            i <= dimensions.len(),
            dimensions@.len() == coords@.len(),
            dims == slice_views(dimensions@),
            key == coords_view(coords@),
            m.wf(),
            key_contents(m) == key_map(dims, key, i as int),
        decreases dimensions.len() - i,
    {
        let ghost was = key_contents(m);
        m.insert(dimensions[i].to_owned(), crate::text::opt_owned(opt_str(&coords[i])));
        assert(key_contents(m) =~= was.insert(dims[i as int], key[i as int]));
        i += 1;
    }
    m
}

/// The statistics of each cohort of runs that have the same along the dimensions.
pub fn group_rows(rows: &[&RunSnapshot], dimensions: &[&str]) -> (r: Vec<StatsBucket>)
    ensures
        viewed(r@) == grouped(row_views(rows@), slice_views(dimensions@)),
        forall|i: int| 0 <= i < r@.len() ==> (#[trigger] r@[i]).key.wf(),
{
    let ghost all = row_views(rows@);
    let ghost dims = slice_views(dimensions@);
    let mut coords: Vec<Vec<Option<String>>> = Vec::new();
    let mut keys: Vec<Vec<Option<String>>> = Vec::new();
    let mut i: usize = 0;
    assert(keys_view(keys@) =~= keys_so_far(all, dims, 0));
    while i < rows.len()
        invariant
            i <= rows.len(),
            all == row_views(rows@),
            dims == slice_views(dimensions@),
            coords@.len() == i,
            forall|j: int|
                0 <= j < i ==> coords_view((#[trigger] coords@[j])@) == coordinates(all[j], dims),
            keys_view(keys@) == keys_so_far(all, dims, i as int),
        decreases rows.len() - i,
    {
        assert(all[i as int] == rows@[i as int]@);
        let c = coordinates_of(rows[i], dimensions);
        coords.push(coordinates_of(rows[i], dimensions));
        add_key(&mut keys, c);
        i += 1;
    }
    if dimensions.len() == 0 {
        keys = Vec::new();
        let none: Vec<Option<String>> = Vec::new();
        assert(coords_view(none@) =~= seq![]);
        keys.push(none);
        assert(keys_view(keys@) =~= seq![seq![]]);
    }
    let ghost ks = cohort_keys(all, dims);
    let mut r: Vec<StatsBucket> = Vec::new();
    let mut k: usize = 0;
    proof {
        lemma_key_widths(all, dims, all.len() as int);
        assert(viewed(r@) =~= grouped(all, dims).take(0));
    }
    while k < keys.len()
        invariant
            k <= keys.len(),
            all == row_views(rows@),
            dims == slice_views(dimensions@),
            coords@.len() == rows@.len(),
            forall|j: int|
                0 <= j < rows@.len() ==> coords_view((#[trigger] coords@[j])@) == coordinates(
                    all[j],
                    dims,
                ),
            ks == cohort_keys(all, dims),
            keys_view(keys@) == ks,
            forall|j: int| 0 <= j < ks.len() ==> (#[trigger] ks[j]).len() == dims.len(),
            viewed(r@) == grouped(all, dims).take(k as int),
            forall|j: int| 0 <= j < r@.len() ==> (#[trigger] r@[j]).key.wf(),
        decreases keys.len() - k,
    {
        let key = &keys[k];
        assert(ks[k as int] == coords_view(key@));
        let members = members_of(rows, &coords, key, Ghost(dims));
        let b = build_bucket(key_of(dimensions, key), members.as_slice());
        let ghost was = viewed(r@);
        let ghost v = b@;
        r.push(b);
        proof {
            assert(v == grouped(all, dims)[k as int]);
            assert(viewed(r@) =~= was.push(v));
            assert(grouped(all, dims).take(k + 1) =~= grouped(all, dims).take(k as int).push(
                grouped(all, dims)[k as int],
            ));
        }
        k += 1;
    }
    assert(grouped(all, dims).take(k as int) =~= grouped(all, dims));
    r
}

proof fn lemma_key_widths(rows: Seq<SnapshotView>, dimensions: Seq<Seq<char>>, n: int)
    requires
        0 <= n <= rows.len(),
    ensures
        forall|j: int|
            0 <= j < keys_so_far(rows, dimensions, n).len() ==> (#[trigger] keys_so_far(
                rows,
                dimensions,
                n,
            )[j]).len() == dimensions.len(),
    decreases n,
{
    if n > 0 {
        lemma_key_widths(rows, dimensions, n - 1);
        lemma_with_key_width(
            keys_so_far(rows, dimensions, n - 1),
            coordinates(rows[n - 1], dimensions),
            dimensions.len(),
        );
    }
}

proof fn lemma_with_key_width(
    keys: Seq<Seq<Option<Seq<char>>>>,
    k: Seq<Option<Seq<char>>>,
    width: nat,
)
    requires
        k.len() == width,
        forall|j: int| 0 <= j < keys.len() ==> (#[trigger] keys[j]).len() == width,
    ensures
        forall|j: int| 0 <= j < with_key(keys, k).len() ==> (#[trigger] with_key(keys, k)[j]).len() == width,
    decreases keys.len(),
{
    if keys.len() > 0 && keys[0] != k && !coordinates_lt(k, keys[0]) {
        let rest = keys.drop_first();
        assert forall|j: int| 0 <= j < rest.len() implies (#[trigger] rest[j]).len() == width by {
            assert(rest[j] == keys[j + 1]);
        }
        lemma_with_key_width(rest, k, width);
        let w = with_key(keys, k);
        assert forall|j: int| 0 <= j < w.len() implies (#[trigger] w[j]).len() == width by {
            if j > 0 {
                assert(w[j] == with_key(rest, k)[j - 1]);
            } else {
                assert(w[0] == keys[0]);
            }
        }
    } else if keys.len() > 0 && keys[0] != k {
        let w = with_key(keys, k);
        assert forall|j: int| 0 <= j < w.len() implies (#[trigger] w[j]).len() == width by {
            if j > 0 {
                assert(w[j] == keys[j - 1]);
            }
        }
    }
}

/// The rows that have the coordinates.
fn members_of<'a>(
    rows: &[&'a RunSnapshot],
    coords: &Vec<Vec<Option<String>>>,
    key: &Vec<Option<String>>,
    Ghost(dims): Ghost<Seq<Seq<char>>>,
) -> (r: Vec<&'a RunSnapshot>)
    requires
        coords@.len() == rows@.len(),
        forall|j: int|
            0 <= j < rows@.len() ==> coords_view((#[trigger] coords@[j])@) == coordinates(
                row_views(rows@)[j],
                dims,
            ),
    ensures
        row_views(r@) == cohort(row_views(rows@), dims, coords_view(key@), rows@.len() as int),
{
    let ghost all = row_views(rows@);
    let mut r: Vec<&'a RunSnapshot> = Vec::new();
    let mut i: usize = 0;
    assert(row_views(r@) =~= cohort(all, dims, coords_view(key@), 0));
    while i < rows.len()
        invariant
            i <= rows.len(),
            all == row_views(rows@),
            coords@.len() == rows@.len(),
            forall|j: int|
                0 <= j < rows@.len() ==> coords_view((#[trigger] coords@[j])@) == coordinates(
                    all[j],
                    dims,
                ),
            row_views(r@) == cohort(all, dims, coords_view(key@), i as int),
        decreases rows.len() - i,
    {
        assert(all[i as int] == rows@[i as int]@);
        if same_coords(&coords[i], key) {
            let ghost was = row_views(r@);
            r.push(rows[i]);
            assert(row_views(r@) =~= was.push(all[i as int]));
        }
        i += 1;
    }
    r
}

/// References to snapshots.
fn refs(snapshots: &Vec<RunSnapshot>) -> (r: Vec<&RunSnapshot>)
    ensures
        row_views(r@) == viewed(snapshots@),
{
    let mut r: Vec<&RunSnapshot> = Vec::new();
    let mut i: usize = 0;
    while i < snapshots.len()
        invariant
            i <= snapshots.len(),
            r@.len() == i,
            forall|j: int| 0 <= j < i ==> (#[trigger] r@[j])@ == snapshots@[j]@,
        decreases snapshots.len() - i,
    {
        r.push(&snapshots[i]);
        i += 1;
    }
    assert(row_views(r@) =~= viewed(snapshots@));
    r
}

/// The statistics of each cohort of runs that have the same along the dimensions
/// (`version`, `agent`), in the order of what they have. Without dimensions there
/// is one cohort with an empty key.
pub fn group_buckets(snapshots: &Vec<RunSnapshot>, dimensions: &[&str]) -> (r: Vec<StatsBucket>)
    ensures
        viewed(r@) == grouped(viewed(snapshots@), slice_views(dimensions@)),
        forall|i: int| 0 <= i < r@.len() ==> (#[trigger] r@[i]).key.wf(),
{
    let rows = refs(snapshots);
    group_rows(rows.as_slice(), dimensions)
}

// ---------------------------------------------------------------------------
// Cohorts over time
// ---------------------------------------------------------------------------

/// The length of a slice of time. Weeks start on a Monday.
#[derive(Debug, Clone, Copy, PartialEq, Eq, Structural)]
pub enum TrendInterval {
    Day,
    Week,
}

/// The first day of the slice that a day is in.
pub open spec fn slice_start(interval: TrendInterval, day: int) -> int {
    match interval {
        TrendInterval::Day => day,
        TrendInterval::Week => day - days_from_monday(day),
    }
}

/// The number of days in a slice.
pub open spec fn slice_days(interval: TrendInterval) -> int {
    match interval {
        TrendInterval::Day => 1,
        TrendInterval::Week => 7,
    }
}

/// The interval that a text names.
pub open spec fn interval_named(s: Seq<char>) -> Option<TrendInterval> {
    if s == "day"@ || s == "daily"@ || s == "d"@ {
        Some(TrendInterval::Day)
    } else if s == "week"@ || s == "weekly"@ || s == "w"@ {
        Some(TrendInterval::Week)
    } else {
        None
    }
}

impl TrendInterval {
    /// The interval that a text names.
    pub fn from_str(s: &str) -> (r: Result<TrendInterval, String>)
        ensures
            match r {
                Ok(i) => interval_named(s@) == Some(i),
                Err(e) => interval_named(s@) is None && e@ == "unknown interval `"@ + s@
                    + "` (try: day, week)"@,
            },
    {
        if same(s, "day") || same(s, "daily") || same(s, "d") {
            Ok(TrendInterval::Day)
        } else if same(s, "week") || same(s, "weekly") || same(s, "w") {
            Ok(TrendInterval::Week)
        } else {
            let mut e = prefixed("unknown interval `", s);
            e.append("` (try: day, week)");
            Err(e)
        }
    }

    /// The first day of the slice that a day is in.
    pub fn period_start(self, d: i64) -> (r: i64)
        requires
            in_calendar(d as int),
        ensures
            r == slice_start(self, d as int),
            d - 6 <= r <= d,
    {
        match self {
            TrendInterval::Day => d,
            TrendInterval::Week => d - weekday_from_monday(d),
        }
    }

    /// The last day of the slice that starts on a day.
    pub fn period_end(self, start: i64) -> (r: i64)
        requires
            crate::time::FIRST_DAY - 6 <= start <= crate::time::LAST_DAY,
        ensures
            r == start + slice_days(self) - 1,
    {
        match self {
            TrendInterval::Day => start,
            TrendInterval::Week => start + 6,
        }
    }

    /// The first day of the slice that follows the one that starts on a day.
    pub fn advance(self, start: i64) -> (r: i64)
        requires
            crate::time::FIRST_DAY - 6 <= start <= crate::time::LAST_DAY,
        ensures
            r == start + slice_days(self),
    {
        match self {
            TrendInterval::Day => start + 1,
            TrendInterval::Week => start + 7,
        }
    }
}

/// A slice of time with the cohorts of the runs in it. Both days belong to it.
#[derive(Debug)]
pub struct TrendPoint {
    pub bucket_start: i64,
    pub bucket_end: i64,
    pub buckets: Vec<StatsBucket>,
}

/// A slice of time as a mathematical value.
#[verifier::ext_equal]
pub ghost struct PointView {
    pub start: int,
    pub end: int,
    pub buckets: Seq<BucketView>,
}

impl View for TrendPoint {
    type V = PointView;

    open spec fn view(&self) -> PointView {
        PointView {
            start: self.bucket_start as int,
            end: self.bucket_end as int,
            buckets: viewed(self.buckets@),
        }
    }
}

/// The run was active in the window, in the slice that starts on the day.
pub open spec fn in_slice(
    s: SnapshotView,
    interval: TrendInterval,
    since: int,
    until: int,
    start: int,
) -> bool {
    active_at(s) is Some && since <= day_of(active_at(s)->0) <= until && slice_start(
        interval,
        day_of(active_at(s)->0),
    ) == start
}

/// Those of the first `n` runs that were active in the slice.
pub open spec fn slice_rows(
    rows: Seq<SnapshotView>,
    interval: TrendInterval,
    since: int,
    until: int,
    start: int,
    n: int,
) -> Seq<SnapshotView>
    decreases n,
{
    if n <= 0 {
        seq![]
    } else if in_slice(rows[n - 1], interval, since, until, start) {
        slice_rows(rows, interval, since, until, start, n - 1).push(rows[n - 1])
    } else {
        slice_rows(rows, interval, since, until, start, n - 1)
    }
}

/// The number of slices from the one with the first day to the one with the last.
pub open spec fn slice_count(interval: TrendInterval, since: int, until: int) -> nat {
    let first = slice_start(interval, since);
    let last = slice_start(interval, until);
    if first <= last {
        ((last - first) / slice_days(interval) + 1) as nat
    } else {
        0
    }
}

/// The slice at a position in the series.
pub open spec fn point_of(
    rows: Seq<SnapshotView>,
    interval: TrendInterval,
    dimensions: Seq<Seq<char>>,
    since: int,
    until: int,
    i: int,
) -> PointView {
    let start = slice_start(interval, since) + i * slice_days(interval);
    PointView {
        start,
        end: start + slice_days(interval) - 1,
        buckets: grouped(
            slice_rows(rows, interval, since, until, start, rows.len() as int),
            dimensions,
        ),
    }
}

/// The series over a window: every slice, also one without runs.
pub open spec fn series(
    rows: Seq<SnapshotView>,
    interval: TrendInterval,
    dimensions: Seq<Seq<char>>,
    since: int,
    until: int,
) -> Seq<PointView> {
    Seq::new(
        slice_count(interval, since, until),
        |i: int| point_of(rows, interval, dimensions, since, until, i),
    )
}

proof fn lemma_slice_count(interval: TrendInterval, since: int, until: int, n: int)
    requires
        0 <= n,
        slice_start(interval, since) + n * slice_days(interval) > slice_start(interval, until),
        n > 0 ==> slice_start(interval, since) + (n - 1) * slice_days(interval) <= slice_start(
            interval,
            until,
        ),
    ensures
        n == slice_count(interval, since, until),
{
    match interval {
        TrendInterval::Day => {},
        TrendInterval::Week => {
            let first = slice_start(interval, since);
            let last = slice_start(interval, until);
            assert((since - 1) - (since - 1) % 7 == 7 * ((since - 1) / 7));
            assert((until - 1) - (until - 1) % 7 == 7 * ((until - 1) / 7));
            assert(last - first == 7 * ((until - 1) / 7 - (since - 1) / 7));
        },
    }
}

fn rows_in_slice<'a>(
    rows: &Vec<&'a RunSnapshot>,
    interval: TrendInterval,
    since: i64,
    until: i64,
    start: i64,
) -> (r: Vec<&'a RunSnapshot>)
    requires
        in_calendar(since as int),
        in_calendar(until as int),
    ensures
        row_views(r@) == slice_rows(
            row_views(rows@),
            interval,
            since as int,
            until as int,
            start as int,
            rows@.len() as int,
        ),
{
    let ghost all = row_views(rows@);
    let mut r: Vec<&'a RunSnapshot> = Vec::new();
    let mut i: usize = 0;
    assert(row_views(r@) =~= seq![]);
    while i < rows.len()
        invariant
            i <= rows.len(),
            in_calendar(since as int),
            in_calendar(until as int),
            all == row_views(rows@),
            row_views(r@) == slice_rows(
                all,
                interval,
                since as int,
                until as int,
                start as int,
                i as int,
            ),
        decreases rows.len() - i,
    {
        assert(all[i as int] == rows@[i as int]@);
        let inside = match activity(rows[i]) {
            Some(t) => {
                let day = date_of(&t);
                since <= day && day <= until && interval.period_start(day) == start
            },
            None => false,
        };
        if inside {
            let ghost was = row_views(r@);
            r.push(rows[i]);
            assert(row_views(r@) =~= was.push(all[i as int]));
        }
        i += 1;
    }
    r
}

/// The keys of cohorts are in order.
pub open spec fn keyed(s: Seq<StatsBucket>) -> bool {
    forall|i: int| 0 <= i < s.len() ==> (#[trigger] s[i]).key.wf()
}

/// The runs of a window in slices of time, and in each slice in cohorts. Every
/// slice of the window is there, even without runs.
pub fn group_time_buckets(
    snapshots: &Vec<RunSnapshot>,
    interval: TrendInterval,
    dimensions: &[&str],
    since: i64,
    until: i64,
) -> (r: Vec<TrendPoint>)
    requires
        in_calendar(since as int),
        in_calendar(until as int),
    ensures
        viewed(r@) == series(
            viewed(snapshots@),
            interval,
            slice_views(dimensions@),
            since as int,
            until as int,
        ),
        forall|i: int| 0 <= i < r@.len() ==> keyed((#[trigger] r@[i]).buckets@),
{
    let rows = refs(snapshots);
    let ghost all = viewed(snapshots@);
    let ghost dims = slice_views(dimensions@);
    let first = interval.period_start(since);
    let last = interval.period_start(until);
    let mut cursor: i64 = first;
    let mut r: Vec<TrendPoint> = Vec::new();
    while cursor <= last
        invariant
            in_calendar(since as int),
            in_calendar(until as int),
            first == slice_start(interval, since as int),
            last == slice_start(interval, until as int),
            since - 6 <= first <= since,
            until - 6 <= last <= until,
            row_views(rows@) == all,
            dims == slice_views(dimensions@),
            cursor == first + r@.len() * slice_days(interval),
            first <= cursor,
            r@.len() > 0 ==> cursor - slice_days(interval) <= last,
            forall|j: int|
                0 <= j < r@.len() ==> (#[trigger] r@[j])@ == point_of(
                    all,
                    interval,
                    dims,
                    since as int,
                    until as int,
                    j,
                ),
            forall|j: int| 0 <= j < r@.len() ==> keyed((#[trigger] r@[j]).buckets@),
        decreases last - cursor + 7,
    {
        let inside = rows_in_slice(&rows, interval, since, until, cursor);
        let buckets = group_rows(inside.as_slice(), dimensions);
        let point = TrendPoint { bucket_start: cursor, bucket_end: interval.period_end(cursor), buckets };
        assert(point@ =~= point_of(
            all,
            interval,
            dims,
            since as int,
            until as int,
            r@.len() as int,
        ));
        r.push(point);
        cursor = interval.advance(cursor);
    }
    proof {
        lemma_slice_count(interval, since as int, until as int, r@.len() as int);
        assert(viewed(r@) =~= series(all, interval, dims, since as int, until as int));
    }
    r
}

// ---------------------------------------------------------------------------
// Laws of grouping
// ---------------------------------------------------------------------------

proof fn lemma_coordinate_lt(a: Option<Seq<char>>, b: Option<Seq<char>>, c: Option<Seq<char>>)
    ensures
        !coordinate_lt(a, a),
        a == b || coordinate_lt(a, b) || coordinate_lt(b, a),
        coordinate_lt(a, b) && coordinate_lt(b, c) ==> coordinate_lt(a, c),
{
    if a is Some {
        lemma_text_lt_irreflexive(a->0);
    }
    if a is Some && b is Some {
        lemma_text_lt_total(a->0, b->0);
        if c is Some && coordinate_lt(a, b) && coordinate_lt(b, c) {
            lemma_text_lt_transitive(a->0, b->0, c->0);
        }
    }
}

proof fn lemma_coordinates_lt(
    a: Seq<Option<Seq<char>>>,
    b: Seq<Option<Seq<char>>>,
    c: Seq<Option<Seq<char>>>,
)
    ensures
        !coordinates_lt(a, a),
        a == b || coordinates_lt(a, b) || coordinates_lt(b, a),
        coordinates_lt(a, b) && coordinates_lt(b, c) ==> coordinates_lt(a, c),
    decreases a.len() + b.len() + c.len(),
{
    if a.len() == 0 && b.len() == 0 {
        assert(a =~= b);
    }
    if a.len() > 0 {
        lemma_coordinates_lt(a.drop_first(), seq![], seq![]);
    }
    if a.len() > 0 && b.len() > 0 {
        lemma_coordinate_lt(a[0], b[0], if c.len() > 0 { c[0] } else { None });
        if a[0] == b[0] {
            lemma_coordinates_lt(
                a.drop_first(),
                b.drop_first(),
                if c.len() > 0 { c.drop_first() } else { seq![] },
            );
            if a.drop_first() == b.drop_first() {
                assert(a =~= seq![a[0]] + a.drop_first());
                assert(b =~= seq![b[0]] + b.drop_first());
            }
        }
    }
}

/// Each key comes before the next.
pub open spec fn keys_ascend(keys: Seq<Seq<Option<Seq<char>>>>) -> bool {
    forall|i: int, j: int|
        0 <= i < j < keys.len() ==> coordinates_lt(#[trigger] keys[i], #[trigger] keys[j])
}

proof fn lemma_with_key(keys: Seq<Seq<Option<Seq<char>>>>, k: Seq<Option<Seq<char>>>)
    requires
        keys_ascend(keys),
    ensures
        keys_ascend(with_key(keys, k)),
        with_key(keys, k).contains(k),
        forall|x: Seq<Option<Seq<char>>>| #[trigger]
            with_key(keys, k).contains(x) <==> x == k || keys.contains(x),
    decreases keys.len(),
{
    let w = with_key(keys, k);
    if keys.len() == 0 {
        assert(w[0] == k);
    } else if keys[0] == k {
        assert(keys.contains(k));
    } else if coordinates_lt(k, keys[0]) {
        assert forall|i: int, j: int| 0 <= i < j < w.len() implies coordinates_lt(
            #[trigger] w[i],
            #[trigger] w[j],
        ) by {
            if i == 0 {
                if j > 1 {
                    assert(coordinates_lt(keys[0], keys[j - 1]));
                    lemma_coordinates_lt(k, keys[0], keys[j - 1]);
                }
            } else {
                assert(coordinates_lt(keys[i - 1], keys[j - 1]));
            }
        }
        assert(w[0] == k);
        assert forall|x: Seq<Option<Seq<char>>>| #[trigger] w.contains(x) <==> x == k
            || keys.contains(x) by {
            if keys.contains(x) {
                let i = choose|i: int| 0 <= i < keys.len() && keys[i] == x;
                assert(w[i + 1] == x);
            }
            if w.contains(x) && x != k {
                let i = choose|i: int| 0 <= i < w.len() && w[i] == x;
                assert(keys[i - 1] == x);
            }
        }
    } else {
        let rest = keys.drop_first();
        assert forall|i: int, j: int| 0 <= i < j < rest.len() implies coordinates_lt(
            #[trigger] rest[i],
            #[trigger] rest[j],
        ) by {
            assert(coordinates_lt(keys[i + 1], keys[j + 1]));
        }
        lemma_with_key(rest, k);
        lemma_coordinates_lt(k, keys[0], keys[0]);
        let t = with_key(rest, k);
        assert forall|i: int, j: int| 0 <= i < j < w.len() implies coordinates_lt(
            #[trigger] w[i],
            #[trigger] w[j],
        ) by {
            if i == 0 {
                assert(w[j] == t[j - 1]);
                assert(t.contains(t[j - 1]));
                if t[j - 1] != k {
                    assert(rest.contains(t[j - 1]));
                    let m = choose|m: int| 0 <= m < rest.len() && rest[m] == t[j - 1];
                    assert(coordinates_lt(keys[0], keys[m + 1]));
                }
            } else {
                assert(coordinates_lt(t[i - 1], t[j - 1]));
            }
        }
        assert forall|x: Seq<Option<Seq<char>>>| #[trigger] w.contains(x) <==> x == k
            || keys.contains(x) by {
            if w.contains(x) {
                let i = choose|i: int| 0 <= i < w.len() && w[i] == x;
                if i == 0 {
                    assert(keys[0] == x);
                } else {
                    assert(t[i - 1] == x);
                    assert(t.contains(x));
                    if x != k {
                        let m = choose|m: int| 0 <= m < rest.len() && rest[m] == x;
                        assert(keys[m + 1] == x);
                    }
                }
            }
            if x == k || keys.contains(x) {
                if x == k {
                    assert(t.contains(k));
                } else {
                    let m = choose|m: int| 0 <= m < keys.len() && keys[m] == x;
                    if m == 0 {
                        assert(w[0] == x);
                    } else {
                        assert(rest[m - 1] == x);
                        assert(t.contains(x));
                    }
                }
                if t.contains(x) {
                    let m = choose|m: int| 0 <= m < t.len() && t[m] == x;
                    assert(w[m + 1] == x);
                }
            }
        }
    }
}

proof fn lemma_keys_so_far(rows: Seq<SnapshotView>, dimensions: Seq<Seq<char>>, n: int)
    requires
        0 <= n <= rows.len(),
    ensures
        keys_ascend(keys_so_far(rows, dimensions, n)),
        forall|i: int|
            0 <= i < n ==> keys_so_far(rows, dimensions, n).contains(
                coordinates(#[trigger] rows[i], dimensions),
            ),
    decreases n,
{
    if n > 0 {
        lemma_keys_so_far(rows, dimensions, n - 1);
        let was = keys_so_far(rows, dimensions, n - 1);
        lemma_with_key(was, coordinates(rows[n - 1], dimensions));
        assert forall|i: int| 0 <= i < n implies keys_so_far(rows, dimensions, n).contains(
            coordinates(#[trigger] rows[i], dimensions),
        ) by {
            if i < n - 1 {
                assert(was.contains(coordinates(rows[i], dimensions)));
            }
        }
    }
}

/// The totals of the first `m` cohorts, over the first `n` runs.
pub open spec fn cohort_total(
    rows: Seq<SnapshotView>,
    dimensions: Seq<Seq<char>>,
    keys: Seq<Seq<Option<Seq<char>>>>,
    m: int,
    n: int,
) -> nat
    decreases m,
{
    if m <= 0 {
        0
    } else {
        cohort_total(rows, dimensions, keys, m - 1, n) + cohort(
            rows,
            dimensions,
            keys[m - 1],
            n,
        ).len()
    }
}

proof fn lemma_total_step(
    rows: Seq<SnapshotView>,
    dimensions: Seq<Seq<char>>,
    keys: Seq<Seq<Option<Seq<char>>>>,
    m: int,
    n: int,
    at: int,
)
    requires
        0 <= m <= keys.len(),
        0 < n <= rows.len(),
        0 <= at < keys.len(),
        keys_ascend(keys),
        keys[at] == coordinates(rows[n - 1], dimensions),
    ensures
        cohort_total(rows, dimensions, keys, m, n) == cohort_total(rows, dimensions, keys, m, n - 1) + (
        if at < m {
            1nat
        } else {
            0nat
        }),
    decreases m,
{
    if m > 0 {
        lemma_total_step(rows, dimensions, keys, m - 1, n, at);
        if m - 1 != at {
            if m - 1 < at {
                assert(coordinates_lt(keys[m - 1], keys[at]));
            } else {
                assert(coordinates_lt(keys[at], keys[m - 1]));
            }
            lemma_coordinates_lt(keys[at], keys[m - 1], keys[at]);
        }
    }
}

proof fn lemma_total(
    rows: Seq<SnapshotView>,
    dimensions: Seq<Seq<char>>,
    keys: Seq<Seq<Option<Seq<char>>>>,
    n: int,
)
    requires
        0 <= n <= rows.len(),
        keys_ascend(keys),
        forall|i: int| 0 <= i < n ==> keys.contains(coordinates(#[trigger] rows[i], dimensions)),
    ensures
        cohort_total(rows, dimensions, keys, keys.len() as int, n) == n,
    decreases n,
{
    if n > 0 {
        lemma_total(rows, dimensions, keys, n - 1);
        assert(keys.contains(coordinates(rows[n - 1], dimensions)));
        let at = choose|at: int|
            0 <= at < keys.len() && keys[at] == coordinates(rows[n - 1], dimensions);
        lemma_total_step(rows, dimensions, keys, keys.len() as int, n, at);
    } else {
        lemma_no_rows(rows, dimensions, keys, keys.len() as int);
    }
}

proof fn lemma_no_rows(
    rows: Seq<SnapshotView>,
    dimensions: Seq<Seq<char>>,
    keys: Seq<Seq<Option<Seq<char>>>>,
    m: int,
)
    ensures
        cohort_total(rows, dimensions, keys, m, 0) == 0,
    decreases m,
{
    if m > 0 {
        lemma_no_rows(rows, dimensions, keys, m - 1);
    }
}

/// Cohorts stand in the order of their coordinates, none twice, and every run is
/// in exactly one of them: their totals add up to the number of runs.
pub proof fn law_cohorts_partition_the_runs(rows: Seq<SnapshotView>, dimensions: Seq<Seq<char>>)
    ensures
        keys_ascend(cohort_keys(rows, dimensions)),
        forall|i: int|
            0 <= i < rows.len() ==> cohort_keys(rows, dimensions).contains(
                coordinates(#[trigger] rows[i], dimensions),
            ),
        cohort_total(
            rows,
            dimensions,
            cohort_keys(rows, dimensions),
            cohort_keys(rows, dimensions).len() as int,
            rows.len() as int,
        ) == rows.len(),
{
    let keys = cohort_keys(rows, dimensions);
    if dimensions.len() == 0 {
        assert forall|i: int| 0 <= i < rows.len() implies keys.contains(
            coordinates(#[trigger] rows[i], dimensions),
        ) by {
            assert(coordinates(rows[i], dimensions) =~= seq![]);
            assert(keys[0] == Seq::<Option<Seq<char>>>::empty());
        }
    } else {
        lemma_keys_so_far(rows, dimensions, rows.len() as int);
    }
    lemma_total(rows, dimensions, keys, rows.len() as int);
}

// ---------------------------------------------------------------------------
// Regressions
// ---------------------------------------------------------------------------

/// By how much a rate fell: a share of marked runs.
#[derive(Debug, Clone, Copy, PartialEq, Eq, Structural)]
pub struct RateDrop {
    pub numerator: u128,
    pub denominator: u128,
}

/// The latest version does worse than the one before it.
#[derive(Debug)]
pub struct RegressionInfo {
    pub current_version: String,
    pub prior_version: String,
    /// How far the current rate is below the prior one.
    pub delta_success_rate: RateDrop,
    pub current_success_rate: Rate,
    pub prior_success_rate: Rate,
}

/// A regression as a mathematical value.
pub ghost struct RegressionView {
    pub current_version: Seq<char>,
    pub prior_version: Seq<char>,
    pub delta_success_rate: RateDrop,
    pub current_success_rate: Rate,
    pub prior_success_rate: Rate,
}

impl View for RegressionInfo {
    type V = RegressionView;

    open spec fn view(&self) -> RegressionView {
        RegressionView {
            current_version: self.current_version@,
            prior_version: self.prior_version@,
            delta_success_rate: self.delta_success_rate,
            current_success_rate: self.current_success_rate,
            prior_success_rate: self.prior_success_rate,
        }
    }
}

pub open spec fn opt_regression_view(r: Option<RegressionInfo>) -> Option<RegressionView> {
    match r {
        Some(r) => Some(r@),
        None => None,
    }
}

/// The version of a cohort, where it has one.
pub open spec fn version_of(b: BucketView) -> Option<Seq<char>> {
    if b.key.dom().contains("version"@) {
        b.key["version"@]
    } else {
        None
    }
}

/// The position of the cohort with the greatest version among the first `n`,
/// leaving out the one at `skip`; the last of those with the same version.
pub open spec fn latest(buckets: Seq<BucketView>, n: int, skip: int) -> Option<int>
    decreases n,
{
    if n <= 0 {
        None
    } else {
        let found = latest(buckets, n - 1, skip);
        if n - 1 == skip || version_of(buckets[n - 1]) is None {
            found
        } else {
            match found {
                Some(i) => if text_lt(
                    version_of(buckets[n - 1])->0,
                    version_of(buckets[i])->0,
                ) {
                    Some(i)
                } else {
                    Some(n - 1)
                },
                None => Some(n - 1),
            }
        }
    }
}

/// The rate `a` is below the rate `b`.
pub open spec fn rate_lt(a: Rate, b: Rate) -> bool {
    a.succeeded * b.marked < b.succeeded * a.marked
}

/// The regression from the version before the latest to the latest, if both have
/// marked runs and the latest does worse.
pub open spec fn regression_of(buckets: Seq<BucketView>) -> Option<RegressionView> {
    let n = buckets.len() as int;
    match latest(buckets, n, -1) {
        None => None,
        Some(c) => match latest(buckets, n, c) {
            None => None,
            Some(p) => match (buckets[c].success_rate, buckets[p].success_rate) {
                (Some(x), Some(y)) => if rate_lt(x, y) {
                    Some(
                        RegressionView {
                            current_version: version_of(buckets[c])->0,
                            prior_version: version_of(buckets[p])->0,
                            delta_success_rate: RateDrop {
                                numerator: (y.succeeded * x.marked - x.succeeded * y.marked) as u128,
                                denominator: (x.marked * y.marked) as u128,
                            },
                            current_success_rate: x,
                            prior_success_rate: y,
                        },
                    )
                } else {
                    None
                },
                _ => None,
            },
        },
    }
}

/// The version that the runs of a cohort have in common.
pub fn bucket_version(b: &StatsBucket) -> (r: Option<&str>)
    requires
        b.key.wf(),
    ensures
        opt_str_view(r) == version_of(b@),
{
    match b.key.get("version") {
        Some(v) => opt_str(v),
        None => None,
    }
}

proof fn lemma_latest(buckets: Seq<BucketView>, n: int, skip: int)
    requires
        n <= buckets.len(),
    ensures
        latest(buckets, n, skip) matches Some(i) ==> 0 <= i < n && i != skip && version_of(
            buckets[i],
        ) is Some,
    decreases n,
{
    if n > 0 {
        lemma_latest(buckets, n - 1, skip);
    }
}

fn find_latest(buckets: &Vec<StatsBucket>, skip: Option<usize>) -> (r: Option<usize>)
    requires
        forall|i: int| 0 <= i < buckets@.len() ==> (#[trigger] buckets@[i]).key.wf(),
    ensures
        ({
            let s: int = match skip {
                Some(k) => k as int,
                None => -1,
            };
            match r {
                Some(i) => latest(viewed(buckets@), buckets@.len() as int, s) == Some(i as int) && i
                    < buckets@.len() && version_of(buckets@[i as int]@) is Some,
                None => latest(viewed(buckets@), buckets@.len() as int, s) is None,
            }
        }),
{
    let ghost all = viewed(buckets@);
    let ghost s: int = match skip {
        Some(k) => k as int,
        None => -1,
    };
    let mut found: Option<usize> = None;
    let mut i: usize = 0;
    while i < buckets.len()
        invariant
            i <= buckets.len(),
            all == viewed(buckets@),
            s == (match skip {
                Some(k) => k as int,
                None => -1,
            }),
            forall|i: int| 0 <= i < buckets@.len() ==> (#[trigger] buckets@[i]).key.wf(),
            match found {
                Some(k) => latest(all, i as int, s) == Some(k as int) && k < i,
                None => latest(all, i as int, s) is None,
            },
        decreases buckets.len() - i,
    {
        assert(all[i as int] == buckets@[i as int]@);
        proof {
            lemma_latest(all, i as int, s);
        }
        let left_out = match skip {
            Some(k) => k == i,
            None => false,
        };
        if !left_out {
            if let Some(v) = bucket_version(&buckets[i]) {
                found = match found {
                    Some(k) => match bucket_version(&buckets[k]) {
                        Some(w) => if before(v, w) {
                            Some(k)
                        } else {
                            Some(i)
                        },
                        None => Some(i),
                    },
                    None => Some(i),
                };
            }
        }
        i += 1;
    }
    proof {
        lemma_latest(all, all.len() as int, s);
    }
    found
}

proof fn lemma_product(a: u64, b: u64)
    ensures
        0 <= a * b <= 0xffff_ffff_ffff_ffff * 0xffff_ffff_ffff_ffff,
{
    assert(0 <= a * b <= 0xffff_ffff_ffff_ffff * 0xffff_ffff_ffff_ffff) by (nonlinear_arith)
        requires
            0 <= a <= 0xffff_ffff_ffff_ffff,
            0 <= b <= 0xffff_ffff_ffff_ffff,
    ;
}

/// The latest version does worse than the one before it: by the order of the
/// versions as text, and only where both have marked runs.
pub fn detect_regression(buckets: &Vec<StatsBucket>) -> (r: Option<RegressionInfo>)
    requires
        forall|i: int| 0 <= i < buckets@.len() ==> (#[trigger] buckets@[i]).key.wf(),
    ensures
        opt_regression_view(r) == regression_of(viewed(buckets@)),
{
    let c = match find_latest(buckets, None) {
        Some(c) => c,
        None => {
            return None;
        },
    };
    let p = match find_latest(buckets, Some(c)) {
        Some(p) => p,
        None => {
            return None;
        },
    };
    let current = &buckets[c];
    let prior = &buckets[p];
    match (current.success_rate, prior.success_rate) {
        (Some(x), Some(y)) => {
            proof {
                lemma_product(x.succeeded, y.marked);
                lemma_product(y.succeeded, x.marked);
                lemma_product(x.marked, y.marked);
            }
            let low: u128 = x.succeeded as u128 * y.marked as u128;
            let high: u128 = y.succeeded as u128 * x.marked as u128;
            let denominator: u128 = x.marked as u128 * y.marked as u128;
            if low < high {
                match (bucket_version(current), bucket_version(prior)) {
                    (Some(v), Some(w)) => Some(
                        RegressionInfo {
                            current_version: v.to_owned(),
                            prior_version: w.to_owned(),
                            delta_success_rate: RateDrop { numerator: high - low, denominator },
                            current_success_rate: x,
                            prior_success_rate: y,
                        },
                    ),
                    _ => None,
                }
            } else {
                None
            }
        },
        _ => None,
    }
}

/// The runs of one skill at a glance.
#[derive(Debug)]
pub struct SkillOverview {
    pub slug: String,
    pub current_version: Option<String>,
    pub runs_total: u64,
    pub succeeded: u64,
    pub failed: u64,
    pub success_rate: Option<Rate>,
    pub p50_ms: Option<u64>,
    pub p95_ms: Option<u64>,
    pub last_run_at: Option<Timestamp>,
    pub regression: Option<RegressionInfo>,
    /// There was no run.
    pub stale: bool,
}

/// An overview as a mathematical value.
#[verifier::ext_equal]
pub ghost struct OverviewView {
    pub slug: Seq<char>,
    pub current_version: Option<Seq<char>>,
    pub runs_total: nat,
    pub succeeded: nat,
    pub failed: nat,
    pub success_rate: Option<Rate>,
    pub p50_ms: Option<u64>,
    pub p95_ms: Option<u64>,
    pub last_run_at: Option<Timestamp>,
    pub regression: Option<RegressionView>,
    pub stale: bool,
}

impl View for SkillOverview {
    type V = OverviewView;

    open spec fn view(&self) -> OverviewView {
        OverviewView {
            slug: self.slug@,
            current_version: opt_view(self.current_version),
            runs_total: self.runs_total as nat,
            succeeded: self.succeeded as nat,
            failed: self.failed as nat,
            success_rate: self.success_rate,
            p50_ms: self.p50_ms,
            p95_ms: self.p95_ms,
            last_run_at: self.last_run_at,
            regression: opt_regression_view(self.regression),
            stale: self.stale,
        }
    }
}

/// The runs of one skill at a glance.
pub open spec fn overview_of(slug: Seq<char>, rows: Seq<SnapshotView>) -> OverviewView {
    let by_version = grouped(rows, seq!["version"@]);
    let all = bucket_of(Map::empty(), rows);
    OverviewView {
        slug,
        current_version: match latest(by_version, by_version.len() as int, -1) {
            Some(i) => version_of(by_version[i]),
            None => None,
        },
        runs_total: all.total,
        succeeded: all.succeeded,
        failed: all.failed,
        success_rate: all.success_rate,
        p50_ms: all.p50_ms,
        p95_ms: all.p95_ms,
        last_run_at: all.last_run_at,
        regression: regression_of(by_version),
        stale: all.total == 0,
    }
}

/// The runs of one skill at a glance: over all versions, and the latest version
/// against the one before it.
pub fn build_overview(slug: &str, snapshots: &Vec<RunSnapshot>) -> (r: SkillOverview)
    ensures
        r@ == overview_of(slug@, viewed(snapshots@)),
{
    let rows = refs(snapshots);
    let dims = ["version"];
    assert(slice_views(dims@) =~= seq!["version"@]);
    let by_version = group_rows(rows.as_slice(), dims.as_slice());
    let key: TextMap<Option<String>> = TextMap::new();
    assert(key_contents(key) =~= Map::empty());
    let all = build_bucket(key, rows.as_slice());
    let current_version = match find_latest(&by_version, None) {
        Some(i) => match bucket_version(&by_version[i]) {
            Some(v) => Some(v.to_owned()),
            None => None,
        },
        None => None,
    };
    let regression = detect_regression(&by_version);
    SkillOverview {
        slug: slug.to_owned(),
        current_version,
        runs_total: all.total,
        succeeded: all.succeeded,
        failed: all.failed,
        success_rate: all.success_rate,
        p50_ms: all.p50_ms,
        p95_ms: all.p95_ms,
        last_run_at: all.last_run_at,
        regression,
        stale: all.total == 0,
    }
}

} // verus!
