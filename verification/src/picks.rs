//! What is picked from the positions of a sequence, in order.

use vstd::prelude::*;

verus! {

/// The first `n` positions, in order.
pub open spec fn positions(n: int) -> Seq<int> {
    Seq::new(n as nat, |i: int| i)
}

/// What is picked from `n` positions is what is picked from all of them but the last, and
/// what the last one gives.
pub proof fn lemma_picked<X>(n: int, f: spec_fn(int) -> Option<X>)
    requires
        0 <= n,
    ensures
        n == 0 ==> positions(n).filter_map(f) == Seq::<X>::empty(),
        n > 0 ==> positions(n).filter_map(f) == (match f(n - 1) {
            Some(x) => positions(n - 1).filter_map(f).push(x),
            None => positions(n - 1).filter_map(f),
        }),
{
    let all = positions(n);
    if n > 0 {
        assert(all.drop_last() =~= positions(n - 1));
        assert(all.last() == n - 1);
        match f(n - 1) {
            Some(x) => {
                assert(all.filter_map(f) =~= positions(n - 1).filter_map(f).push(x));
            },
            None => {},
        }
    } else {
        assert(all =~= seq![]);
        assert(all.filter_map(f) =~= seq![]);
    }
}

/// What is picked is what some position gives, and what a position gives is picked.
pub proof fn lemma_picked_contains<X>(n: int, f: spec_fn(int) -> Option<X>, x: X)
    requires
        0 <= n,
    ensures
        positions(n).filter_map(f).contains(x) <==> exists|i: int| 0 <= i < n && #[trigger] f(i) == Some(x),
    decreases n,
{
    lemma_picked(n, f);
    if n > 0 {
        lemma_picked_contains(n - 1, f, x);
        let was = positions(n - 1).filter_map(f);
        let now = positions(n).filter_map(f);
        if was.contains(x) {
            let k = choose|k: int| 0 <= k < was.len() && was[k] == x;
            assert(now[k] == x);
        }
        if f(n - 1) == Some(x) {
            assert(now.last() == x);
            assert(now[now.len() - 1] == x);
        }
        if now.contains(x) {
            let k = choose|k: int| 0 <= k < now.len() && now[k] == x;
            if k < was.len() {
                assert(was[k] == x);
            } else {
                assert(f(n - 1) == Some(x));
            }
        }
    }
}

} // verus!
