//! What sorting leaves, and what a map holds, entry by entry.

use vstd::prelude::*;

use crate::order::{
    arranged, in_rank, law_arranging_sorts, placed, sorted_texts, text_lt, Ranked, TextMap,
};

verus! {

/// Sorted values are in order, each of them before those behind it, and they are the values
/// that were given, as often as each was.
pub proof fn law_sorted_values_are_in_order<T: Ranked>(s: Seq<T::V>)
    ensures
        forall|i: int, j: int|
            0 <= i < j < in_rank::<T>(s).len() ==> T::leq(
                #[trigger] in_rank::<T>(s)[i],
                #[trigger] in_rank::<T>(s)[j],
            ),
        in_rank::<T>(s).to_multiset() == s.to_multiset(),
        in_rank::<T>(s).len() == s.len(),
{
    law_arranging_sorts::<T>(s, s.len() as int);
    assert(s.take(s.len() as int) =~= s);
}

proof fn lemma_already<T: Ranked>(s: Seq<T::V>, n: int)
    requires
        0 <= n <= s.len(),
        forall|i: int, j: int|
            0 <= i < j < s.len() ==> T::leq(#[trigger] s[i], #[trigger] s[j]),
    ensures
        arranged::<T>(s, n) == s.take(n),
    decreases n,
{
    if n > 0 {
        lemma_already::<T>(s, n - 1);
        let t = s.take(n - 1);
        if n > 1 {
            assert(t.last() == s[n - 2]);
            assert(T::leq(s[n - 2], s[n - 1]));
        }
        assert(s.take(n) =~= t.push(s[n - 1]));
    } else {
        assert(s.take(0) =~= seq![]);
    }
}

/// Values that are in order already stay as they are, those that are equal in rank among
/// them.
pub proof fn law_values_in_order_stay<T: Ranked>(s: Seq<T::V>)
    requires
        forall|i: int, j: int|
            0 <= i < j < s.len() ==> T::leq(#[trigger] s[i], #[trigger] s[j]),
    ensures
        in_rank::<T>(s) == s,
{
    lemma_already::<T>(s, s.len() as int);
    assert(s.take(s.len() as int) =~= s);
}

/// A value comes behind those that may stand before it, also behind its equals.
pub proof fn law_a_value_comes_behind_its_equals<T: Ranked>(s: Seq<T::V>, x: T::V)
    requires
        forall|i: int| 0 <= i < s.len() ==> T::leq(#[trigger] s[i], x),
    ensures
        placed::<T>(s, x) == s.push(x),
{
    if s.len() > 0 {
        assert(T::leq(s[s.len() - 1], x));
    }
}

/// Sorted texts are in the order of texts, and all of them are left.
pub proof fn law_sorted_texts_are_in_order(s: Seq<Seq<char>>, i: int, j: int)
    requires
        0 <= i < j < sorted_texts(s).len(),
    ensures
        sorted_texts(s)[i] == sorted_texts(s)[j] || text_lt(sorted_texts(s)[i], sorted_texts(s)[j]),
        sorted_texts(s).to_multiset() == s.to_multiset(),
{
    law_sorted_values_are_in_order::<String>(s);
    assert(<String as Ranked>::leq(in_rank::<String>(s)[i], in_rank::<String>(s)[j]));
}

/// A map holds under the key of each entry its value, and under no other key anything.
pub proof fn law_maps_hold_their_entries<V>(m: TextMap<V>, i: int, k: Seq<char>)
    requires
        m.wf(),
        0 <= i < m.entries@.len(),
    ensures
        m.contents().dom().contains(m.entries@[i].0@),
        m.contents()[m.entries@[i].0@] == m.entries@[i].1,
        m.contents().dom().contains(k) <==> exists|j: int|
            0 <= j < m.entries@.len() && (#[trigger] m.entries@[j]).0@ == k,
{
    m.lemma_entry(i);
    let keys = crate::order::keys_of(m.entries@);
    if keys.contains(k) {
        let j = choose|j: int| 0 <= j < keys.len() && keys[j] == k;
        assert(m.entries@[j].0@ == k);
    }
    if exists|j: int| 0 <= j < m.entries@.len() && (#[trigger] m.entries@[j]).0@ == k {
        let j = choose|j: int| 0 <= j < m.entries@.len() && (#[trigger] m.entries@[j]).0@ == k;
        assert(keys[j] == k);
    }
}

} // verus!
