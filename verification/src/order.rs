//! The order of text, character by character, and maps keyed by text that are
//! kept in that order.

use vstd::prelude::*;

use crate::text::{chars_of, views};

pub mod laws;

verus! {

/// `a` comes before `b`: at the first place where they differ its character is
/// the smaller one, or it ends there.
pub open spec fn text_lt(a: Seq<char>, b: Seq<char>) -> bool
    decreases a.len(),
{
    if b.len() == 0 {
        false
    } else if a.len() == 0 {
        true
    } else if a[0] != b[0] {
        a[0] < b[0]
    } else {
        text_lt(a.drop_first(), b.drop_first())
    }
}

pub open spec fn text_le(a: Seq<char>, b: Seq<char>) -> bool {
    a == b || text_lt(a, b)
}

pub proof fn lemma_text_lt_irreflexive(a: Seq<char>)
    ensures
        !text_lt(a, a),
    decreases a.len(),
{
    if a.len() > 0 {
        lemma_text_lt_irreflexive(a.drop_first());
    }
}

pub proof fn lemma_text_lt_transitive(a: Seq<char>, b: Seq<char>, c: Seq<char>)
    requires
        text_lt(a, b),
        text_lt(b, c),
    ensures
        text_lt(a, c),
    decreases a.len(),
{
    if a.len() > 0 && a[0] == b[0] && b[0] == c[0] {
        lemma_text_lt_transitive(a.drop_first(), b.drop_first(), c.drop_first());
    }
}

pub proof fn lemma_text_lt_total(a: Seq<char>, b: Seq<char>)
    ensures
        a == b || text_lt(a, b) || text_lt(b, a),
    decreases a.len(),
{
    if a.len() > 0 && b.len() > 0 && a[0] == b[0] {
        lemma_text_lt_total(a.drop_first(), b.drop_first());
        if a.drop_first() == b.drop_first() {
            assert(a =~= seq![a[0]] + a.drop_first());
            assert(b =~= seq![b[0]] + b.drop_first());
        }
    } else if a.len() == 0 && b.len() == 0 {
        assert(a =~= b);
    }
}

proof fn lemma_text_lt_at(a: Seq<char>, b: Seq<char>, n: int)
    requires
        0 <= n <= a.len(),
        n <= b.len(),
        a.take(n) == b.take(n),
    ensures
        text_lt(a, b) == text_lt(a.skip(n), b.skip(n)),
    decreases n,
{
    if n == 0 {
        assert(a.skip(0) =~= a);
        assert(b.skip(0) =~= b);
    } else {
        assert(a.take(n)[0] == a[0]);
        assert(b.take(n)[0] == b[0]);
        assert(a.drop_first().take(n - 1) =~= a.take(n).drop_first());
        assert(b.drop_first().take(n - 1) =~= b.take(n).drop_first());
        lemma_text_lt_at(a.drop_first(), b.drop_first(), n - 1);
        assert(a.drop_first().skip(n - 1) =~= a.skip(n));
        assert(b.drop_first().skip(n - 1) =~= b.skip(n));
    }
}

/// Whether `a` comes before `b`.
pub fn before(a: &str, b: &str) -> (r: bool)
    ensures
        r == text_lt(a@, b@),
{
    let x = chars_of(a);
    let y = chars_of(b);
    let mut i: usize = 0;
    while i < x.len() && i < y.len()
        invariant
            i <= x.len(),
            i <= y.len(),
            x@ == a@,
            y@ == b@,
            x@.take(i as int) == y@.take(i as int),
        decreases x.len() - i,
    {
        if x[i] != y[i] {
            proof {
                lemma_text_lt_at(a@, b@, i as int);
            }
            return x[i] < y[i];
        }
        assert(x@.take(i + 1) =~= x@.take(i as int).push(x@[i as int]));
        assert(y@.take(i + 1) =~= y@.take(i as int).push(y@[i as int]));
        i += 1;
    }
    proof {
        lemma_text_lt_at(a@, b@, i as int);
    }
    i < y.len()
}

// ---------------------------------------------------------------------------
// Maps
// ---------------------------------------------------------------------------

/// A map from text to `V`, as its entries in the order of their keys.
#[derive(Debug)]
pub struct TextMap<V> {
    pub entries: Vec<(String, V)>,
}

/// The keys of a sequence of entries.
pub open spec fn keys_of<V>(s: Seq<(String, V)>) -> Seq<Seq<char>> {
    Seq::new(s.len(), |i: int| s[i].0@)
}

/// Each key comes before the next.
pub open spec fn ascending(keys: Seq<Seq<char>>) -> bool {
    forall|i: int, j: int| 0 <= i < j < keys.len() ==> text_lt(#[trigger] keys[i], #[trigger] keys[j])
}

/// The entry for `key` stands at position `i`.
pub open spec fn holds_at<V>(s: Seq<(String, V)>, key: Seq<char>, i: int) -> bool {
    0 <= i < s.len() && s[i].0@ == key
}

/// The value that entries hold for a key that is among their keys.
pub open spec fn lookup<V>(s: Seq<(String, V)>, key: Seq<char>) -> V {
    s[choose|i: int| holds_at(s, key, i)].1
}

impl<V> TextMap<V> {
    /// Keys ascend, so none occurs twice.
    pub open spec fn wf(self) -> bool {
        ascending(keys_of(self.entries@))
    }

    /// The map that the entries stand for.
    pub open spec fn contents(self) -> Map<Seq<char>, V> {
        Map::new(
            |k: Seq<char>| keys_of(self.entries@).contains(k),
            |k: Seq<char>| lookup(self.entries@, k),
        )
    }

    pub proof fn lemma_entry(self, i: int)
        requires
            self.wf(),
            0 <= i < self.entries@.len(),
        ensures
            self.contents().dom().contains(self.entries@[i].0@),
            self.contents()[self.entries@[i].0@] == self.entries@[i].1,
    {
        let key = self.entries@[i].0@;
        let keys = keys_of(self.entries@);
        assert(keys[i] == key);
        assert(keys.contains(key));
        assert(holds_at(self.entries@, key, i));
        let k = choose|j: int| holds_at(self.entries@, key, j);
        assert(keys[k] == key);
        if k < i {
            assert(text_lt(keys[k], keys[i]));
            lemma_text_lt_irreflexive(key);
        } else if i < k {
            assert(text_lt(keys[i], keys[k]));
            lemma_text_lt_irreflexive(key);
        }
    }

    /// A map without entries.
    pub fn new() -> (r: Self)
        ensures
            r.wf(),
            r.entries@ == Seq::<(String, V)>::empty(),
            r.contents() == Map::<Seq<char>, V>::empty(),
    {
        let r = TextMap { entries: Vec::new() };
        assert(r.contents() =~= Map::<Seq<char>, V>::empty());
        r
    }

    /// How many entries there are.
    pub fn len(&self) -> (r: usize)
        ensures
            r == self.entries@.len(),
    {
        self.entries.len()
    }

    /// The position of the first key that does not come before `key`.
    fn position(&self, key: &str) -> (r: usize)
        requires
            self.wf(),
        ensures
            r <= self.entries@.len(),
            forall|j: int| 0 <= j < r ==> text_lt((#[trigger] self.entries@[j]).0@, key@),
            r < self.entries@.len() ==> text_le(key@, self.entries@[r as int].0@),
    {
        let mut i: usize = 0;
        while i < self.entries.len() && before(self.entries[i].0.as_str(), key)
            invariant
                i <= self.entries@.len(),
                forall|j: int| 0 <= j < i ==> text_lt((#[trigger] self.entries@[j]).0@, key@),
            decreases self.entries@.len() - i,
        {
            i += 1;
        }
        proof {
            if i < self.entries@.len() {
                lemma_text_lt_total(self.entries@[i as int].0@, key@);
            }
        }
        i
    }

    proof fn lemma_absent(self, key: Seq<char>, at: int)
        requires
            self.wf(),
            0 <= at <= self.entries@.len(),
            forall|j: int| 0 <= j < at ==> text_lt((#[trigger] self.entries@[j]).0@, key),
            at < self.entries@.len() ==> text_lt(key, self.entries@[at].0@),
        ensures
            !self.contents().dom().contains(key),
            forall|j: int| at <= j < self.entries@.len() ==> text_lt(key, (#[trigger] self.entries@[j]).0@),
    {
        let keys = keys_of(self.entries@);
        assert forall|j: int| at <= j < self.entries@.len() implies text_lt(
            key,
            (#[trigger] self.entries@[j]).0@,
        ) by {
            if at < j {
                assert(text_lt(keys[at], keys[j]));
                lemma_text_lt_transitive(key, keys[at], keys[j]);
            }
        }
        lemma_text_lt_irreflexive(key);
        assert(!keys.contains(key)) by {
            if keys.contains(key) {
                let j = choose|j: int| 0 <= j < keys.len() && keys[j] == key;
                assert(self.entries@[j].0@ == key);
            }
        }
    }

    /// The value for a key.
    pub fn get(&self, key: &str) -> (r: Option<&V>)
        requires
            self.wf(),
        ensures
            match r {
                Some(v) => self.contents().dom().contains(key@) && self.contents()[key@] == *v,
                None => !self.contents().dom().contains(key@),
            },
    {
        let i = self.position(key);
        if i < self.entries.len() && crate::text::same(self.entries[i].0.as_str(), key) {
            proof {
                self.lemma_entry(i as int);
            }
            Some(&self.entries[i].1)
        } else {
            proof {
                self.lemma_absent(key@, i as int);
            }
            None
        }
    }

    /// Whether there is an entry for a key.
    pub fn contains_key(&self, key: &str) -> (r: bool)
        requires
            self.wf(),
        ensures
            r == self.contents().dom().contains(key@),
    {
        self.get(key).is_some()
    }

    /// Sets the value for a key.
    pub fn insert(&mut self, key: String, value: V)
        requires
            old(self).wf(),
        ensures
            final(self).wf(),
            final(self).contents() == old(self).contents().insert(key@, value),
            old(self).contents().dom().contains(key@) ==> final(self).entries@.len() == old(
                self,
            ).entries@.len(),
            !old(self).contents().dom().contains(key@) ==> final(self).entries@.len() == old(
                self,
            ).entries@.len() + 1,
    {
        let i = self.position(key.as_str());
        let ghost before = *self;
        let ghost keys = keys_of(self.entries@);
        if i < self.entries.len() && crate::text::same(self.entries[i].0.as_str(), key.as_str()) {
            proof {
                self.lemma_entry(i as int);
            }
            let ghost k = key@;
            self.entries.set(i, (key, value));
            proof {
                assert(keys_of(self.entries@) =~= keys);
                self.lemma_same_contents_but(before, k, value, i as int);
            }
        } else {
            proof {
                self.lemma_absent(key@, i as int);
            }
            let ghost k = key@;
            self.entries.insert(i, (key, value));
            proof {
                let now = keys_of(self.entries@);
                assert(now =~= keys.insert(i as int, k));
                assert forall|a: int, b: int| 0 <= a < b < now.len() implies text_lt(
                    #[trigger] now[a],
                    #[trigger] now[b],
                ) by {
                    let a0 = if a < i { a } else { a - 1 };
                    let b0 = if b < i { b } else { b - 1 };
                    if a != i && b != i {
                        assert(text_lt(keys[a0], keys[b0]));
                    } else if a == i {
                        assert(before.entries@[b0].0@ == keys[b0]);
                    } else {
                        assert(before.entries@[a0].0@ == keys[a0]);
                    }
                }
                self.lemma_same_contents_plus(before, k, value, i as int);
            }
        }
    }

    proof fn lemma_same_contents_but(self, before: Self, key: Seq<char>, value: V, at: int)
        requires
            self.wf(),
            before.wf(),
            0 <= at < before.entries@.len(),
            self.entries@.len() == before.entries@.len(),
            self.entries@[at].0@ == key,
            self.entries@[at].1 == value,
            before.entries@[at].0@ == key,
            forall|j: int| 0 <= j < before.entries@.len() && j != at ==> #[trigger] self.entries@[j]
                == before.entries@[j],
        ensures
            self.contents() == before.contents().insert(key, value),
    {
        let m = before.contents().insert(key, value);
        assert forall|k: Seq<char>| self.contents().dom().contains(k) <==> m.dom().contains(k) by {
            let now = keys_of(self.entries@);
            let was = keys_of(before.entries@);
            assert(now =~= was);
            if k == key {
                assert(now[at] == key);
            }
        }
        assert forall|k: Seq<char>| self.contents().dom().contains(k) implies self.contents()[k]
            == m[k] by {
            let now = keys_of(self.entries@);
            let j = choose|j: int| 0 <= j < now.len() && now[j] == k;
            self.lemma_entry(j);
            before.lemma_entry(j);
            if j != at {
                if k == key {
                    if j < at {
                        assert(text_lt(now[j], now[at]));
                    } else {
                        assert(text_lt(now[at], now[j]));
                    }
                    lemma_text_lt_irreflexive(key);
                }
            }
        }
        assert(self.contents() =~= m);
    }

    proof fn lemma_same_contents_plus(self, before: Self, key: Seq<char>, value: V, at: int)
        requires
            self.wf(),
            before.wf(),
            !before.contents().dom().contains(key),
            0 <= at <= before.entries@.len(),
            self.entries@.len() == before.entries@.len() + 1,
            self.entries@[at].0@ == key,
            self.entries@[at].1 == value,
            forall|j: int| 0 <= j < at ==> #[trigger] self.entries@[j] == before.entries@[j],
            forall|j: int|
                at <= j < before.entries@.len() ==> self.entries@[j + 1] == #[trigger] before.entries@[j],
        ensures
            self.contents() == before.contents().insert(key, value),
    {
        let m = before.contents().insert(key, value);
        let now = keys_of(self.entries@);
        let was = keys_of(before.entries@);
        assert forall|k: Seq<char>| #[trigger] self.contents().dom().contains(k) implies m.dom().contains(
            k,
        ) && self.contents()[k] == m[k] by {
            let j = choose|j: int| 0 <= j < now.len() && now[j] == k;
            self.lemma_entry(j);
            if j < at {
                assert(was[j] == k);
                before.lemma_entry(j);
            } else if j > at {
                assert(self.entries@[(j - 1) + 1] == before.entries@[j - 1]);
                assert(was[j - 1] == k);
                before.lemma_entry(j - 1);
            }
        }
        assert forall|k: Seq<char>| #[trigger] m.dom().contains(k) implies self.contents().dom().contains(
            k,
        ) by {
            if k == key {
                assert(now[at] == key);
            } else {
                let j = choose|j: int| 0 <= j < was.len() && was[j] == k;
                if j < at {
                    assert(now[j] == was[j]);
                } else {
                    assert(self.entries@[j + 1] == before.entries@[j]);
                    assert(now[j + 1] == was[j]);
                }
            }
        }
        assert(self.contents().dom() =~= m.dom());
        assert(self.contents() =~= m);
    }

    /// The keys, in order.
    pub fn keys(&self) -> (r: Vec<String>)
        ensures
            crate::text::views(r@) == keys_of(self.entries@),
    {
        let mut r: Vec<String> = Vec::new();
        let mut i: usize = 0;
        while i < self.entries.len()
            invariant
                i <= self.entries@.len(),
                r@.len() == i,
                forall|j: int| 0 <= j < i ==> (#[trigger] r@[j])@ == self.entries@[j].0@,
            decreases self.entries@.len() - i,
        {
            r.push(self.entries[i].0.clone());
            i += 1;
        }
        assert(crate::text::views(r@) =~= keys_of(self.entries@));
        r
    }
}

// ---------------------------------------------------------------------------
// Sorting
// ---------------------------------------------------------------------------

/// A type whose values are sorted somewhere, by what they stand for.
pub trait Ranked: View + Sized {
    /// `a` may stand before `b`.
    spec fn leq(a: Self::V, b: Self::V) -> bool;

    /// Of two values one may stand before the other, and the relation is transitive.
    proof fn lemma_leq(a: Self::V, b: Self::V, c: Self::V)
        ensures
            Self::leq(a, b) || Self::leq(b, a),
            Self::leq(a, b) && Self::leq(b, c) ==> Self::leq(a, c),
    ;

    /// Whether `a` may stand before `b`.
    fn is_leq(a: &Self, b: &Self) -> (r: bool)
        ensures
            r == Self::leq(a@, b@),
    ;
}

/// What the values of a sequence stand for.
pub open spec fn viewed<T: View>(s: Seq<T>) -> Seq<T::V> {
    Seq::new(s.len(), |i: int| s[i]@)
}

/// `x` put into a sequence from its end: behind the last value that may stand
/// before it.
pub open spec fn placed<T: Ranked>(s: Seq<T::V>, x: T::V) -> Seq<T::V>
    decreases s.len(),
{
    if s.len() == 0 || T::leq(s.last(), x) {
        s.push(x)
    } else {
        placed::<T>(s.drop_last(), x).push(s.last())
    }
}

/// The first `n` values in order. Those of which neither has to stand before the
/// other stay as they were.
pub open spec fn arranged<T: Ranked>(s: Seq<T::V>, n: int) -> Seq<T::V>
    decreases n,
{
    if n <= 0 {
        seq![]
    } else {
        placed::<T>(arranged::<T>(s, n - 1), s[n - 1])
    }
}

/// All values in order.
pub open spec fn in_rank<T: Ranked>(s: Seq<T::V>) -> Seq<T::V> {
    arranged::<T>(s, s.len() as int)
}

/// Each value may stand before those behind it.
pub open spec fn ranked<T: Ranked>(s: Seq<T::V>) -> bool {
    forall|i: int, j: int| 0 <= i < j < s.len() ==> T::leq(#[trigger] s[i], #[trigger] s[j])
}

proof fn lemma_placed<T: Ranked>(s: Seq<T::V>, x: T::V)
    requires
        ranked::<T>(s),
    ensures
        ranked::<T>(placed::<T>(s, x)),
        placed::<T>(s, x).to_multiset() == s.to_multiset().insert(x),
        placed::<T>(s, x).len() == s.len() + 1,
        forall|i: int|
            0 <= i <= s.len() ==> (#[trigger] placed::<T>(s, x)[i]) == x || s.contains(
                placed::<T>(s, x)[i],
            ),
    decreases s.len(),
{
    let r = placed::<T>(s, x);
    if s.len() == 0 || T::leq(s.last(), x) {
        s.to_multiset_ensures();
        assert forall|i: int, j: int| 0 <= i < j < r.len() implies T::leq(
            #[trigger] r[i],
            #[trigger] r[j],
        ) by {
            if j == s.len() {
                if i < s.len() - 1 {
                    assert(T::leq(s[i], s[s.len() - 1]));
                    T::lemma_leq(s[i], s.last(), x);
                }
            } else {
                assert(T::leq(s[i], s[j]));
            }
        }
        assert forall|i: int| 0 <= i <= s.len() implies (#[trigger] r[i]) == x || s.contains(r[i]) by {
            if i < s.len() {
                assert(s[i] == r[i]);
            }
        }
    } else {
        let t = s.drop_last();
        assert forall|i: int, j: int| 0 <= i < j < t.len() implies T::leq(
            #[trigger] t[i],
            #[trigger] t[j],
        ) by {
            assert(T::leq(s[i], s[j]));
        }
        lemma_placed::<T>(t, x);
        let p = placed::<T>(t, x);
        T::lemma_leq(s.last(), x, x);
        assert forall|i: int, j: int| 0 <= i < j < r.len() implies T::leq(
            #[trigger] r[i],
            #[trigger] r[j],
        ) by {
            if j < p.len() {
                assert(T::leq(p[i], p[j]));
            } else {
                assert(p[i] == r[i]);
                if p[i] != x {
                    assert(t.contains(p[i]));
                    let k = choose|k: int| 0 <= k < t.len() && t[k] == p[i];
                    assert(s[k] == p[i]);
                    assert(T::leq(s[k], s[s.len() - 1]));
                }
            }
        }
        p.to_multiset_ensures();
        t.to_multiset_ensures();
        assert(s =~= t.push(s.last()));
        assert(r.to_multiset() =~= s.to_multiset().insert(x));
        assert forall|i: int| 0 <= i <= s.len() implies (#[trigger] r[i]) == x || s.contains(r[i]) by {
            if i < s.len() {
                assert(r[i] == p[i]);
                if p[i] != x {
                    assert(t.contains(p[i]));
                    let k = choose|k: int| 0 <= k < t.len() && t[k] == p[i];
                    assert(s[k] == p[i]);
                }
            } else {
                assert(s[s.len() - 1] == r[i]);
            }
        }
    }
}

/// Arranging values leaves all of them, in order.
pub proof fn law_arranging_sorts<T: Ranked>(s: Seq<T::V>, n: int)
    requires
        0 <= n <= s.len(),
    ensures
        ranked::<T>(arranged::<T>(s, n)),
        arranged::<T>(s, n).to_multiset() == s.take(n).to_multiset(),
        arranged::<T>(s, n).len() == n,
    decreases n,
{
    if n > 0 {
        law_arranging_sorts::<T>(s, n - 1);
        lemma_placed::<T>(arranged::<T>(s, n - 1), s[n - 1]);
        assert(s.take(n) =~= s.take(n - 1).push(s[n - 1]));
        s.take(n - 1).to_multiset_ensures();
    } else {
        assert(s.take(0) =~= seq![]);
    }
}

proof fn lemma_placed_at<T: Ranked>(s: Seq<T::V>, x: T::V, i: int)
    requires
        0 <= i <= s.len(),
        i > 0 ==> T::leq(s[i - 1], x),
        forall|j: int| i <= j < s.len() ==> !T::leq(#[trigger] s[j], x),
    ensures
        placed::<T>(s, x) == s.insert(i, x),
    decreases s.len() - i,
{
    if i == s.len() {
        assert(s.insert(i, x) =~= s.push(x));
    } else {
        assert(!T::leq(s[s.len() - 1], x));
        lemma_placed_at::<T>(s.drop_last(), x, i);
        assert(s.drop_last().insert(i, x).push(s.last()) =~= s.insert(i, x));
    }
}

/// Puts a value where it belongs among values in order.
fn place<T: Ranked>(v: &mut Vec<T>, x: T)
    ensures
        viewed(final(v)@) == placed::<T>(viewed(old(v)@), x@),
{
    let ghost was = viewed(v@);
    let mut i: usize = v.len();
    while i > 0 && !T::is_leq(&v[i - 1], &x)
        invariant
            i <= v.len(),
            was == viewed(v@),
            forall|j: int| i <= j < v.len() ==> !T::leq(#[trigger] was[j], x@),
        decreases i,
    {
        i -= 1;
    }
    proof {
        lemma_placed_at::<T>(was, x@, i as int);
    }
    let ghost t = x@;
    v.insert(i, x);
    assert(viewed(v@) =~= was.insert(i as int, t));
}

/// The values in order.
pub fn sort<T: Ranked>(v: Vec<T>) -> (r: Vec<T>)
    ensures
        viewed(r@) == in_rank::<T>(viewed(v@)),
{
    let ghost all = viewed(v@);
    let mut r: Vec<T> = Vec::new();
    assert(viewed(r@) =~= arranged::<T>(all, 0));
    for x in it: v
        invariant
            viewed(it.seq()) == all,
            viewed(r@) == arranged::<T>(all, it.index() as int),
    {
        assert(all[it.index() as int] == x@);
        place(&mut r, x);
    }
    r
}

impl Ranked for String {
    open spec fn leq(a: Seq<char>, b: Seq<char>) -> bool {
        text_le(a, b)
    }

    proof fn lemma_leq(a: Seq<char>, b: Seq<char>, c: Seq<char>) {
        lemma_text_lt_total(a, b);
        if text_lt(a, b) && text_lt(b, c) {
            lemma_text_lt_transitive(a, b, c);
        }
    }

    fn is_leq(a: &String, b: &String) -> (r: bool) {
        let later: bool = before(b.as_str(), a.as_str());
        proof {
            lemma_text_lt_irreflexive(a@);
            lemma_text_lt_total(a@, b@);
            if text_lt(a@, b@) && text_lt(b@, a@) {
                lemma_text_lt_transitive(a@, b@, a@);
            }
            assert(later == text_lt(b@, a@));
            assert(text_le(a@, b@) == !later);
            assert(<String as Ranked>::leq(a@, b@) == text_le(a@, b@));
        }
        !later
    }
}

/// Texts in their order.
pub open spec fn sorted_texts(s: Seq<Seq<char>>) -> Seq<Seq<char>> {
    in_rank::<String>(s)
}

/// The strings in their order.
pub fn sort_strings(v: Vec<String>) -> (r: Vec<String>)
    ensures
        views(r@) == sorted_texts(views(v@)),
{
    assert(viewed(v@) =~= views(v@));
    let r = sort(v);
    assert(viewed(r@) =~= views(r@));
    r
}

// ---------------------------------------------------------------------------
// The keys of a map in order
// ---------------------------------------------------------------------------

/// The members of a finite set of texts, in their order.
pub open spec fn in_order(dom: Set<Seq<char>>) -> Seq<Seq<char>> {
    choose|s: Seq<Seq<char>>| ascending(s) && #[trigger] s.to_set() == dom
}

proof fn lemma_last_is_greatest(s: Seq<Seq<char>>, x: Seq<char>)
    requires
        ascending(s),
        s.contains(x),
    ensures
        text_le(x, s.last()),
{
    let i = choose|i: int| 0 <= i < s.len() && s[i] == x;
    if i < s.len() - 1 {
        assert(text_lt(s[i], s[s.len() - 1]));
    }
}

proof fn lemma_drop_last_set(s: Seq<Seq<char>>)
    requires
        ascending(s),
        s.len() > 0,
    ensures
        ascending(s.drop_last()),
        s.drop_last().to_set() == s.to_set().remove(s.last()),
{
    let t = s.drop_last();
    assert forall|x: Seq<char>| #[trigger] t.to_set().contains(x) implies s.to_set().remove(
        s.last(),
    ).contains(x) by {
        let i = choose|i: int| 0 <= i < t.len() && t[i] == x;
        assert(s[i] == x);
        assert(text_lt(s[i], s[s.len() - 1]));
        lemma_text_lt_irreflexive(x);
    }
    assert forall|x: Seq<char>| #[trigger] s.to_set().remove(s.last()).contains(x) implies t.to_set().contains(
        x,
    ) by {
        let i = choose|i: int| 0 <= i < s.len() && s[i] == x;
        assert(t[i] == x);
    }
    assert(t.to_set() =~= s.to_set().remove(s.last()));
    assert forall|i: int, j: int| 0 <= i < j < t.len() implies text_lt(
        #[trigger] t[i],
        #[trigger] t[j],
    ) by {
        assert(text_lt(s[i], s[j]));
    }
}

/// A set of texts has one order.
pub proof fn lemma_ascending_unique(a: Seq<Seq<char>>, b: Seq<Seq<char>>)
    requires
        ascending(a),
        ascending(b),
        a.to_set() == b.to_set(),
    ensures
        a == b,
    decreases a.len(),
{
    if a.len() == 0 {
        if b.len() > 0 {
            assert(b.to_set().contains(b[0]));
            assert(a.to_set().contains(b[0]));
        }
        assert(a =~= b);
    } else {
        assert(a.to_set().contains(a.last()));
        assert(b.contains(a.last()));
        assert(b.to_set().contains(b.last()));
        assert(a.contains(b.last()));
        lemma_last_is_greatest(a, b.last());
        lemma_last_is_greatest(b, a.last());
        if a.last() != b.last() {
            lemma_text_lt_transitive(a.last(), b.last(), a.last());
            lemma_text_lt_irreflexive(a.last());
        }
        lemma_drop_last_set(a);
        lemma_drop_last_set(b);
        lemma_ascending_unique(a.drop_last(), b.drop_last());
        assert(a =~= a.drop_last().push(a.last()));
        assert(b =~= b.drop_last().push(b.last()));
    }
}

pub proof fn lemma_in_order(s: Seq<Seq<char>>)
    requires
        ascending(s),
    ensures
        in_order(s.to_set()) == s,
{
    let t = in_order(s.to_set());
    assert(ascending(s) && s.to_set() == s.to_set());
    lemma_ascending_unique(s, t);
}

impl<V> TextMap<V> {
    /// The entries stand in the order of the keys of the map.
    pub proof fn lemma_keys_in_order(self)
        requires
            self.wf(),
        ensures
            keys_of(self.entries@) == in_order(self.contents().dom()),
    {
        let keys = keys_of(self.entries@);
        assert(keys.to_set() =~= self.contents().dom());
        lemma_in_order(keys);
    }
}

/// The texts in their order, each once.
pub fn distinct_sorted(v: &Vec<String>) -> (r: Vec<String>)
    ensures
        crate::text::views(r@) == in_order(crate::text::views(v@).to_set()),
{
    let ghost s = crate::text::views(v@);
    let mut m: TextMap<bool> = TextMap::new();
    let mut i: usize = 0;
    assert(m.contents().dom() =~= s.take(0).to_set());
    while i < v.len()
        invariant
            i <= v.len(),
            s == crate::text::views(v@),
            m.wf(),
            m.contents().dom() == s.take(i as int).to_set(),
        decreases v.len() - i,
    {
        m.insert(v[i].clone(), true);
        assert(s.take(i + 1) =~= s.take(i as int).push(v@[i as int]@));
        assert(s.take(i + 1).to_set() =~= s.take(i as int).to_set().insert(v@[i as int]@)) by {
            let a = s.take(i as int);
            let x = v@[i as int]@;
            assert forall|y: Seq<char>| a.push(x).contains(y) implies a.contains(y) || y == x by {}
            assert forall|y: Seq<char>| a.contains(y) || y == x implies a.push(x).contains(y) by {
                if a.contains(y) {
                    let j = choose|j: int| 0 <= j < a.len() && a[j] == y;
                    assert(a.push(x)[j] == y);
                } else {
                    assert(a.push(x)[a.len() as int] == y);
                }
            }
        }
        i += 1;
    }
    proof {
        assert(s.take(i as int) =~= s);
        m.lemma_keys_in_order();
    }
    m.keys()
}

/// A map of texts, with the values as sequences.
pub open spec fn text_contents(m: TextMap<String>) -> Map<Seq<char>, Seq<char>> {
    m.contents().map_values(|s: String| s@)
}

/// A map of bytes, with the values as sequences.
pub open spec fn byte_contents(m: TextMap<Vec<u8>>) -> Map<Seq<char>, Seq<u8>> {
    m.contents().map_values(|d: Vec<u8>| d@)
}

} // verus!
