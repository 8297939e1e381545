//! Which runs are marked, id by id.

use vstd::prelude::*;

use crate::commands::mark::{bulk_report, failed_ids, ids_in, marked_ids, run_ids_of, BulkMarks};
use crate::json::JsonView;
use crate::picks::{lemma_picked, positions};
use crate::text::{pieces, trimmed};

verus! {

proof fn lemma_ids(s: Seq<Seq<char>>, n: int, f: spec_fn(int) -> Option<Seq<char>>)
    requires
        0 <= n <= s.len(),
        forall|i: int| #[trigger]
            f(i) == (if trimmed(s[i]).len() > 0 {
                Some(trimmed(s[i]))
            } else {
                None
            }),
    ensures
        ids_in(s, n) == positions(n).filter_map(f),
    decreases n,
{
    lemma_picked(n, f);
    if n > 0 {
        lemma_ids(s, n - 1, f);
    }
}

/// The ids are what stands between the commas, without the white space round it and without
/// what is blank, in order.
pub proof fn law_ids_stand_between_commas(s: Seq<char>)
    ensures
        run_ids_of(s) == positions(pieces(s, ","@).len() as int).filter_map(
            |i: int|
                if trimmed(pieces(s, ","@)[i]).len() > 0 {
                    Some(trimmed(pieces(s, ","@)[i]))
                } else {
                    None
                },
        ),
{
    let f = |i: int|
        if trimmed(pieces(s, ","@)[i]).len() > 0 {
            Some(trimmed(pieces(s, ","@)[i]))
        } else {
            None
        };
    lemma_ids(pieces(s, ","@), pieces(s, ","@).len() as int, f);
}

proof fn lemma_marked(
    ids: Seq<String>,
    results: Seq<Result<(), String>>,
    n: int,
    f: spec_fn(int) -> Option<Seq<char>>,
    g: spec_fn(int) -> Option<(Seq<char>, Seq<char>)>,
)
    requires
        0 <= n <= ids.len(),
        n <= results.len(),
        forall|i: int| #[trigger]
            f(i) == (if results[i] is Ok {
                Some(ids[i]@)
            } else {
                None
            }),
        forall|i: int| #[trigger]
            g(i) == (if results[i] is Ok {
                None
            } else {
                Some((ids[i]@, results[i]->Err_0@))
            }),
    ensures
        marked_ids(ids, results, n) == positions(n).filter_map(f),
        failed_ids(ids, results, n) == positions(n).filter_map(g),
    decreases n,
{
    lemma_picked(n, f);
    lemma_picked(n, g);
    if n > 0 {
        lemma_marked(ids, results, n - 1, f, g);
    }
}

/// Each run whose marking went well is told as marked, and each other one as failed, with
/// what went wrong, in order.
pub proof fn law_each_run_is_marked_or_failed(ids: Seq<String>, results: Seq<Result<(), String>>)
    requires
        ids.len() == results.len(),
    ensures
        marked_ids(ids, results, ids.len() as int) == positions(ids.len() as int).filter_map(
            |i: int|
                if results[i] is Ok {
                    Some(ids[i]@)
                } else {
                    None
                },
        ),
        failed_ids(ids, results, ids.len() as int) == positions(ids.len() as int).filter_map(
            |i: int|
                if results[i] is Ok {
                    None
                } else {
                    Some((ids[i]@, results[i]->Err_0@))
                },
        ),
{
    let f = |i: int|
        if results[i] is Ok {
            Some(ids[i]@)
        } else {
            None
        };
    let g = |i: int|
        if results[i] is Ok {
            None
        } else {
            Some((ids[i]@, results[i]->Err_0@))
        };
    lemma_marked(ids, results, ids.len() as int, f, g);
}

/// Marking several runs went well exactly where none failed.
pub proof fn law_all_is_well_without_a_failure(
    status: Seq<char>,
    note: Option<Seq<char>>,
    marks: BulkMarks,
    total: nat,
    github: bool,
)
    ensures
        bulk_report(status, note, marks, total, github) matches JsonView::Object(m) && {
            &&& m.contains(("ok"@, JsonView::Bool(marks.failed@.len() == 0)))
            &&& m.contains(("total"@, JsonView::Int(total as int)))
            &&& m.contains(("status"@, JsonView::Text(status)))
            &&& m.len() == 6 + (if github {
                1int
            } else {
                0
            })
        },
{
    let m = bulk_report(status, note, marks, total, github)->Object_0;
    assert(m[0] == ("status"@, JsonView::Text(status)));
    assert(m[4] == ("total"@, JsonView::Int(total as int)));
    assert(m[5] == ("ok"@, JsonView::Bool(marks.failed@.len() == 0)));
}

} // verus!
