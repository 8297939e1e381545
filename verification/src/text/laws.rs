//! What the operations on text do, said of the characters themselves.

use vstd::prelude::*;

use crate::order::{lemma_text_lt_irreflexive, lemma_text_lt_total, text_le, text_lt};
use crate::text::{
    ascii_lower, cut_first, cut_last, drop_leading, drop_trailing, ellipsized, find_first,
    find_last, has_prefix, has_suffix, head, is_white, joined, lemma_drop_leading_is_skip,
    lemma_drop_trailing_is_take, lemma_find_from, lines_of, newline, occurs_at, padded_left,
    padded_right, pieces, replaced, rfind_from, trimmed, without_prefix, without_suffix, CharClass,
};

verus! {

/// A text stands in another one at a place.
pub open spec fn stands_in(s: Seq<char>, p: Seq<char>, i: int) -> bool {
    0 <= i && i + p.len() <= s.len() && forall|k: int|
        0 <= k < p.len() ==> #[trigger] s[i + k] == p[k]
}

proof fn lemma_stands_in(s: Seq<char>, p: Seq<char>, i: int)
    ensures
        occurs_at(s, p, i) <==> stands_in(s, p, i),
{
    if occurs_at(s, p, i) {
        assert forall|k: int| 0 <= k < p.len() implies #[trigger] s[i + k] == p[k] by {
            assert(s.subrange(i, i + p.len())[k] == s[i + k]);
        }
    }
    if stands_in(s, p, i) {
        assert forall|k: int| 0 <= k < p.len() implies s.subrange(i, i + p.len())[k] == p[k] by {
            assert(s[i + k] == p[k]);
        }
        assert(s.subrange(i, i + p.len()) =~= p);
    }
}

// ---------------------------------------------------------------------------
// Searching
// ---------------------------------------------------------------------------

/// The first place of a text in another one is one where it stands, and it stands at none
/// before. Where it stands nowhere there is no such place.
pub proof fn law_the_first_place_is_found(s: Seq<char>, p: Seq<char>)
    ensures
        match find_first(s, p) {
            Some(i) => stands_in(s, p, i) && forall|j: int|
                0 <= j < i ==> !#[trigger] stands_in(s, p, j),
            None => forall|j: int| !#[trigger] stands_in(s, p, j),
        },
{
    lemma_find_from(s, p, 0);
    match find_first(s, p) {
        Some(i) => {
            lemma_stands_in(s, p, i);
            assert forall|j: int| 0 <= j < i implies !#[trigger] stands_in(s, p, j) by {
                lemma_stands_in(s, p, j);
            }
        },
        None => {
            assert forall|j: int| !#[trigger] stands_in(s, p, j) by {
                lemma_stands_in(s, p, j);
                if stands_in(s, p, j) {
                    assert(occurs_at(s, p, j));
                }
            }
        },
    }
}

proof fn lemma_rfind(s: Seq<char>, p: Seq<char>, from: int)
    ensures
        match rfind_from(s, p, from) {
            Some(i) => i <= from && occurs_at(s, p, i) && forall|j: int|
                i < j <= from ==> !#[trigger] occurs_at(s, p, j),
            None => forall|j: int| j <= from ==> !#[trigger] occurs_at(s, p, j),
        },
    decreases from + 1,
{
    if from >= 0 && !occurs_at(s, p, from) {
        lemma_rfind(s, p, from - 1);
    }
}

/// The last place of a text in another one is one where it stands, and it stands at none
/// behind it.
pub proof fn law_the_last_place_is_found(s: Seq<char>, p: Seq<char>)
    ensures
        match find_last(s, p) {
            Some(i) => stands_in(s, p, i) && forall|j: int|
                i < j ==> !#[trigger] stands_in(s, p, j),
            None => forall|j: int| !#[trigger] stands_in(s, p, j),
        },
{
    let n = s.len() - p.len();
    lemma_rfind(s, p, n);
    assert forall|j: int| stands_in(s, p, j) <==> #[trigger] occurs_at(s, p, j) by {
        lemma_stands_in(s, p, j);
    }
    match find_last(s, p) {
        Some(i) => {
            lemma_stands_in(s, p, i);
            assert forall|j: int| i < j implies !#[trigger] stands_in(s, p, j) by {
                lemma_stands_in(s, p, j);
                assert(j <= n ==> !occurs_at(s, p, j));
            }
        },
        None => {
            assert forall|j: int| !#[trigger] stands_in(s, p, j) by {
                lemma_stands_in(s, p, j);
                assert(j <= n ==> !occurs_at(s, p, j));
            }
        },
    }
}

/// A text cut at the first place of a mark is what stands before the mark, the mark, and
/// what stands behind it; the mark does not stand further to the front. A text without the
/// mark is not cut.
pub proof fn law_cut_at_the_first_mark(s: Seq<char>, p: Seq<char>)
    ensures
        match cut_first(s, p) {
            Some((a, b)) => s == a + p + b && forall|j: int|
                0 <= j < a.len() ==> !#[trigger] stands_in(s, p, j),
            None => forall|j: int| !#[trigger] stands_in(s, p, j),
        },
{
    law_the_first_place_is_found(s, p);
    match find_first(s, p) {
        Some(i) => {
            assert(s =~= s.take(i) + p + s.skip(i + p.len())) by {
                assert forall|k: int| 0 <= k < p.len() implies s[i + k] == #[trigger] p[k] by {}
                assert forall|k: int| i <= k < i + p.len() implies s[k] == p[k - i] by {
                    assert(s[i + (k - i)] == p[k - i]);
                }
            }
        },
        None => {},
    }
}

/// A text cut at the last place of a mark is what stands before the mark, the mark, and
/// what stands behind it; the mark does not stand further to the end.
pub proof fn law_cut_at_the_last_mark(s: Seq<char>, p: Seq<char>)
    ensures
        match cut_last(s, p) {
            Some((a, b)) => s == a + p + b && forall|j: int|
                a.len() < j ==> !#[trigger] stands_in(s, p, j),
            None => forall|j: int| !#[trigger] stands_in(s, p, j),
        },
{
    law_the_last_place_is_found(s, p);
    match find_last(s, p) {
        Some(i) => {
            assert(s =~= s.take(i) + p + s.skip(i + p.len())) by {
                assert forall|k: int| i <= k < i + p.len() implies s[k] == p[k - i] by {
                    assert(s[i + (k - i)] == p[k - i]);
                }
            }
        },
        None => {},
    }
}

/// A character stands nowhere in a text.
pub open spec fn lacks(s: Seq<char>, c: char) -> bool {
    forall|i: int| 0 <= i < s.len() ==> #[trigger] s[i] != c
}

pub proof fn lemma_cut_first(a: Seq<char>, p: Seq<char>, b: Seq<char>)
    requires
        p.len() == 1,
        lacks(a, p[0]),
    ensures
        cut_first(a + p + b, p) == Some((a, b)),
{
    let s = a + p + b;
    law_the_first_place_is_found(s, p);
    let n = a.len() as int;
    assert(stands_in(s, p, n)) by {
        assert(s[n + 0] == p[0]);
    }
    let i = find_first(s, p)->0;
    if i < n {
        assert(s[i + 0] == p[0]);
        assert(s[i] == a[i]);
    }
    assert(s.take(n) =~= a);
    assert(s.skip(n + 1) =~= b);
}

pub proof fn lemma_uncut(a: Seq<char>, p: Seq<char>)
    requires
        p.len() >= 1,
        lacks(a, p[0]),
    ensures
        cut_first(a, p) is None,
        cut_last(a, p) is None,
{
    law_the_first_place_is_found(a, p);
    law_the_last_place_is_found(a, p);
    if find_first(a, p) is Some {
        let i = find_first(a, p)->0;
        assert(a[i + 0] == p[0]);
    }
    if find_last(a, p) is Some {
        let i = find_last(a, p)->0;
        assert(a[i + 0] == p[0]);
    }
}

pub proof fn lemma_cut_last(a: Seq<char>, p: Seq<char>, b: Seq<char>)
    requires
        p.len() >= 1,
        lacks(b, p[0]),
        forall|k: int| 1 <= k < p.len() ==> #[trigger] p[k] != p[0],
    ensures
        cut_last(a + p + b, p) == Some((a, b)),
{
    let s = a + p + b;
    law_the_last_place_is_found(s, p);
    let n = a.len() as int;
    assert(stands_in(s, p, n)) by {
        assert forall|k: int| 0 <= k < p.len() implies #[trigger] s[n + k] == p[k] by {}
    }
    let i = find_last(s, p)->0;
    if i > n {
        assert(s[i + 0] == p[0]);
        if i < n + p.len() {
            assert(s[i] == p[i - n]);
        } else {
            assert(s[i] == b[i - n - p.len()]);
        }
    }
    assert(s.take(n) =~= a);
    assert(s.skip(n + p.len()) =~= b);
}

/// A text starts with another one exactly where that one and something behind it make the
/// text; what is behind it is what is left without it.
pub proof fn law_a_start_comes_off(s: Seq<char>, p: Seq<char>, t: Seq<char>)
    ensures
        without_prefix(s, p) == Some(t) <==> s == p + t,
        has_prefix(s, p) <==> without_prefix(s, p) is Some,
        has_prefix(p + t, p),
{
    assert((p + t).take(p.len() as int) =~= p);
    assert((p + t).skip(p.len() as int) =~= t);
    if has_prefix(s, p) {
        assert(s =~= p + s.skip(p.len() as int));
    }
}

/// A text ends with another one exactly where something and that one behind it make the
/// text; what is before it is what is left without it.
pub proof fn law_an_end_comes_off(s: Seq<char>, p: Seq<char>, t: Seq<char>)
    ensures
        without_suffix(s, p) == Some(t) <==> s == t + p,
        has_suffix(s, p) <==> without_suffix(s, p) is Some,
        has_suffix(t + p, p),
{
    assert((t + p).skip(t.len() as int) =~= p);
    assert((t + p).take(t.len() as int) =~= t);
    if has_suffix(s, p) {
        assert(s =~= s.take(s.len() - p.len()) + p);
    }
}

// ---------------------------------------------------------------------------
// Trimming
// ---------------------------------------------------------------------------

/// White space is what Unicode calls so: tab, line feed, line tabulation, form feed,
/// carriage return, next line, and the spaces and separators of lines and paragraphs.
pub proof fn law_white_space(c: char)
    ensures
        is_white(c) <==> {
            let n = c as int;
            n == 9 || n == 10 || n == 11 || n == 12 || n == 13 || n == 32 || n == 0x85 || n == 0xa0
                || n == 0x1680 || n == 0x2000 || n == 0x2001 || n == 0x2002 || n == 0x2003 || n
                == 0x2004 || n == 0x2005 || n == 0x2006 || n == 0x2007 || n == 0x2008 || n
                == 0x2009 || n == 0x200a || n == 0x2028 || n == 0x2029 || n == 0x202f || n
                == 0x205f || n == 0x3000
        },
{
}

pub proof fn lemma_led(s: Seq<char>, k: CharClass)
    ensures
        forall|i: int|
            0 <= i < s.len() - drop_leading(s, k).len() ==> k.holds(#[trigger] s[i]),
    decreases s.len(),
{
    if s.len() > 0 && k.holds(s[0]) {
        lemma_led(s.drop_first(), k);
        assert forall|i: int| 0 <= i < s.len() - drop_leading(s, k).len() implies k.holds(
            #[trigger] s[i],
        ) by {
            if i > 0 {
                assert(s.drop_first()[i - 1] == s[i]);
            }
        }
    }
}

pub proof fn lemma_trailed(s: Seq<char>, k: CharClass)
    ensures
        forall|i: int| drop_trailing(s, k).len() <= i < s.len() ==> k.holds(#[trigger] s[i]),
    decreases s.len(),
{
    if s.len() > 0 && k.holds(s.last()) {
        lemma_trailed(s.drop_last(), k);
        assert forall|i: int| drop_trailing(s, k).len() <= i < s.len() implies k.holds(
            #[trigger] s[i],
        ) by {
            if i < s.len() - 1 {
                assert(s.drop_last()[i] == s[i]);
            }
        }
    }
}

/// Trimming takes white space from both ends and nothing else: what is left neither starts
/// nor ends with white space.
pub proof fn law_trimming_takes_the_white_space(s: Seq<char>) -> (r: (Seq<char>, Seq<char>))
    ensures
        s == r.0 + trimmed(s) + r.1,
        forall|i: int| 0 <= i < r.0.len() ==> is_white(#[trigger] r.0[i]),
        forall|i: int| 0 <= i < r.1.len() ==> is_white(#[trigger] r.1[i]),
        trimmed(s).len() > 0 ==> !is_white(trimmed(s)[0]) && !is_white(trimmed(s).last()),
{
    let k = CharClass::White;
    let t = drop_leading(s, k);
    let a = s.len() - t.len();
    lemma_drop_leading_is_skip(s, k);
    lemma_led(s, k);
    lemma_drop_trailing_is_take(t, k);
    lemma_trailed(t, k);
    let n = trimmed(s).len() as int;
    assert(s =~= s.take(a) + t.take(n) + t.skip(n));
    if n > 0 {
        assert(trimmed(s)[0] == t[0]);
    }
    assert forall|i: int| 0 <= i < t.skip(n).len() implies is_white(#[trigger] t.skip(n)[i]) by {
        assert(k.holds(t[n + i]));
    }
    assert forall|i: int| 0 <= i < s.take(a).len() implies is_white(#[trigger] s.take(a)[i]) by {
        assert(k.holds(s[i]));
    }
    (s.take(a), t.skip(n))
}

// ---------------------------------------------------------------------------
// Pieces and lines
// ---------------------------------------------------------------------------

/// No piece holds the separator: a text is cut wherever it stands.
pub proof fn law_no_piece_holds_the_separator(s: Seq<char>, p: Seq<char>, i: int, j: int)
    requires
        p.len() > 0,
        0 <= i < pieces(s, p).len(),
    ensures
        !stands_in(pieces(s, p)[i], p, j),
    decreases s.len(),
{
    law_the_first_place_is_found(s, p);
    match find_first(s, p) {
        Some(n) => {
            let rest = s.skip(n + p.len());
            if i == 0 {
                if stands_in(s.take(n), p, j) {
                    assert forall|k: int| 0 <= k < p.len() implies #[trigger] s[j + k] == p[k] by {
                        assert(s.take(n)[j + k] == s[j + k]);
                    }
                    assert(stands_in(s, p, j));
                }
            } else {
                law_no_piece_holds_the_separator(rest, p, i - 1, j);
                assert(pieces(s, p)[i] == pieces(rest, p)[i - 1]);
            }
        },
        None => {},
    }
}

/// What stands before the first separator is the first piece, and what stands behind it is
/// cut in the same way; a text without the separator is one piece.
pub proof fn law_pieces_stand_between_separators(a: Seq<char>, p: Seq<char>, b: Seq<char>)
    requires
        p.len() == 1,
        lacks(a, p[0]),
    ensures
        pieces(a + p + b, p) == seq![a] + pieces(b, p),
        pieces(a, p) == seq![a],
{
    lemma_cut_first(a, p, b);
    lemma_uncut(a, p);
    let s = a + p + b;
    law_the_first_place_is_found(s, p);
    let i = find_first(s, p)->0;
    assert(s.take(i) == a && s.skip(i + 1) == b);
}

/// One text is joined to itself, and a further one comes behind the others and the
/// separator.
pub proof fn law_joining_puts_the_separator_between(
    parts: Seq<Seq<char>>,
    x: Seq<char>,
    sep: Seq<char>,
)
    ensures
        joined(seq![x], sep) == x,
        joined(Seq::<Seq<char>>::empty(), sep) == Seq::<char>::empty(),
        parts.len() > 0 ==> joined(parts.push(x), sep) == joined(parts, sep) + sep + x,
{
    assert(parts.push(x).drop_last() =~= parts);
}

/// No line holds a line feed.
pub proof fn law_no_line_holds_a_line_feed(s: Seq<char>, i: int, j: int)
    requires
        0 <= i < lines_of(s).len(),
        0 <= j < lines_of(s)[i].len(),
    ensures
        lines_of(s)[i][j] != '\n',
    decreases s.len(),
{
    law_the_first_place_is_found(s, newline());
    match find_first(s, newline()) {
        Some(n) => {
            let rest = s.skip(n + 1);
            if i == 0 {
                if s[j] == '\n' {
                    assert forall|k: int| 0 <= k < newline().len() implies #[trigger] s[j + k]
                        == newline()[k] by {}
                    assert(stands_in(s, newline(), j));
                }
            } else {
                assert(lines_of(s)[i] == lines_of(rest)[i - 1]);
                law_no_line_holds_a_line_feed(rest, i - 1, j);
            }
        },
        None => {
            if s[j] == '\n' {
                assert forall|k: int| 0 <= k < newline().len() implies #[trigger] s[j + k]
                    == newline()[k] by {}
                assert(stands_in(s, newline(), j));
            }
        },
    }
}

/// The lines of a text: the text before the first line feed, without the carriage return
/// that ends it, then the lines of what is behind; a text without a line feed is one line,
/// and an empty text is none.
pub proof fn law_lines_end_at_line_feeds(a: Seq<char>, b: Seq<char>)
    requires
        forall|i: int| 0 <= i < a.len() ==> #[trigger] a[i] != '\n',
    ensures
        lines_of(Seq::<char>::empty()).len() == 0,
        a.len() > 0 ==> lines_of(a) == seq![a],
        lines_of(a.push('\n') + b) == seq![
            if a.len() > 0 && a.last() == '\r' {
                a.drop_last()
            } else {
                a
            },
        ] + lines_of(b),
{
    law_the_first_place_is_found(a, newline());
    if find_first(a, newline()) is Some {
        let i = find_first(a, newline())->0;
        assert(a[i + 0] == newline()[0]);
    }
    crate::text::lemma_first_line(a, b);
}

// ---------------------------------------------------------------------------
// Characters and widths
// ---------------------------------------------------------------------------

/// In small ASCII letters each capital letter from A to Z is the small one, and every other
/// character stays.
pub proof fn law_small_letters(s: Seq<char>, i: int)
    requires
        0 <= i < s.len(),
    ensures
        ascii_lower(s).len() == s.len(),
        65 <= s[i] as int <= 90 ==> ascii_lower(s)[i] as int == s[i] as int + 32,
        !(65 <= s[i] as int <= 90) ==> ascii_lower(s)[i] == s[i],
{
}

/// Replacing one character leaves the others and the length as they are.
pub proof fn law_replacing_takes_each(s: Seq<char>, a: char, b: char, i: int)
    requires
        0 <= i < s.len(),
    ensures
        replaced(s, a, b).len() == s.len(),
        s[i] == a ==> replaced(s, a, b)[i] == b,
        s[i] != a ==> replaced(s, a, b)[i] == s[i],
{
}

/// A text of no more than `n` characters stays whole; of a longer one the first `n` are
/// left, and with an ellipsis one fewer and the ellipsis behind them.
pub proof fn law_long_texts_are_cut(s: Seq<char>, n: int)
    requires
        1 <= n,
    ensures
        s.len() <= n ==> head(s, n) == s && ellipsized(s, n) == s,
        s.len() > n ==> head(s, n) == s.subrange(0, n) && ellipsized(s, n) == s.subrange(0, n - 1)
            + seq!['\u{2026}'],
{
    if s.len() > n {
        assert(ellipsized(s, n) =~= s.subrange(0, n - 1) + seq!['\u{2026}']);
    }
}

/// A text that is filled up is as wide as asked for, or as itself where it is wider: the
/// text and nothing but spaces on the one side.
pub proof fn law_filled_up_texts_are_wide_enough(s: Seq<char>, n: int, i: int)
    requires
        0 <= n,
    ensures
        padded_right(s, n).len() == (if s.len() < n {
            n
        } else {
            s.len() as int
        }),
        padded_left(s, n).len() == padded_right(s, n).len(),
        padded_right(s, n).take(s.len() as int) == s,
        padded_left(s, n).skip(padded_left(s, n).len() - s.len()) == s,
        s.len() <= i < n ==> padded_right(s, n)[i] == ' ',
        0 <= i < n - s.len() ==> padded_left(s, n)[i] == ' ',
{
    assert(padded_right(s, n).take(s.len() as int) =~= s);
    assert(padded_left(s, n).skip(padded_left(s, n).len() - s.len()) =~= s);
}

// ---------------------------------------------------------------------------
// Order
// ---------------------------------------------------------------------------

/// Of two texts that differ, the one with the smaller character at the first place where
/// they differ comes first.
pub proof fn law_the_first_difference_decides(a: Seq<char>, b: Seq<char>, n: int)
    requires
        0 <= n < a.len(),
        n < b.len(),
        forall|i: int| 0 <= i < n ==> #[trigger] a[i] == b[i],
        a[n] != b[n],
    ensures
        text_lt(a, b) <==> (a[n] as int) < b[n] as int,
        text_le(a, b) <==> text_lt(a, b),
    decreases n,
{
    if n > 0 {
        assert(a[0] == b[0]);
        assert forall|i: int| 0 <= i < n - 1 implies #[trigger] a.drop_first()[i]
            == b.drop_first()[i] by {
            assert(a[i + 1] == b[i + 1]);
        }
        law_the_first_difference_decides(a.drop_first(), b.drop_first(), n - 1);
    }
}

/// A text comes before every longer one that starts with it.
pub proof fn law_a_start_comes_first(a: Seq<char>, t: Seq<char>)
    requires
        t.len() > 0,
    ensures
        text_lt(a, a + t),
        !text_lt(a + t, a),
        text_le(a, a),
        !text_lt(a, a),
    decreases a.len(),
{
    lemma_text_lt_irreflexive(a);
    if a.len() > 0 {
        law_a_start_comes_first(a.drop_first(), t);
        assert((a + t).drop_first() =~= a.drop_first() + t);
    }
}

/// Of two texts the one comes before the other or they are the same.
pub proof fn law_texts_are_in_one_order(a: Seq<char>, b: Seq<char>)
    ensures
        text_le(a, b) || text_lt(b, a),
        text_le(a, b) && text_le(b, a) ==> a == b,
{
    lemma_text_lt_total(a, b);
    if text_lt(a, b) && text_lt(b, a) {
        crate::order::lemma_text_lt_transitive(a, b, a);
        lemma_text_lt_irreflexive(a);
    }
}

} // verus!
