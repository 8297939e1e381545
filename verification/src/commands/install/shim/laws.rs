//! What holds of entries in a shared file, whatever else is in it.

use vstd::prelude::*;

use crate::commands::install::shim::{
    block_at, block_end, block_of, block_start, lemma_block_at, lemma_sigil, upserted,
    without_block,
};
use crate::text::{
    absent, drop_leading, drop_trailing, find_first, lemma_absent, lemma_absent_in_part,
    lemma_drop_leading_is_skip, lemma_drop_trailing_is_take, lemma_find_from, lemma_find_from_is,
    lemma_find_same_start, occurs_at, one_line, trimmed, CharClass,
};

verus! {

/// Behind the text the mark stands where it is put, and no earlier: neither in the text
/// nor from the text into the mark.
pub open spec fn fits(text: Seq<char>, mark: Seq<char>) -> bool {
    absent(text + mark.drop_last(), mark)
}

/// What stands before and behind an entry that is put into a file which has none of the
/// skill.
pub open spec fn around(existing: Seq<char>, end_marker: Seq<char>) -> (Seq<char>, Seq<char>) {
    let feed = CharClass::One('\n');
    match find_first(existing, end_marker) {
        Some(i) => {
            let after = i + end_marker.len();
            let tail = drop_leading(existing.skip(after), feed);
            (
                drop_trailing(existing.take(after), feed) + "\n\n"@,
                if tail.len() == 0 {
                    "\n"@
                } else {
                    "\n\n"@ + tail
                },
            )
        },
        None => if trimmed(existing).len() == 0 {
            (seq![], "\n"@)
        } else {
            (drop_trailing(existing, feed) + "\n\n"@, "\n"@)
        },
    }
}

/// The body of an entry, with the line feeds around it.
pub open spec fn set_off(body: Seq<char>) -> Seq<char> {
    "\n"@ + body + "\n"@
}

/// The mark stands in the text at the position and nowhere else.
pub open spec fn once(text: Seq<char>, mark: Seq<char>, i: int) -> bool {
    occurs_at(text, mark, i) && forall|j: int| #[trigger] occurs_at(text, mark, j) ==> j == i
}

/// Marks are not empty.
proof fn lemma_marks_len(slug: Seq<char>)
    ensures
        block_start(slug).len() == slug.len() + 27,
        block_end(slug).len() == slug.len() + 25,
        block_start(slug)[0] == '<',
        block_end(slug)[0] == '<',
{
    reveal_strlit("<!-- knack:skill:");
    reveal_strlit(":start -->");
    reveal_strlit(":end -->");
    assert(block_start(slug)[0] == "<!-- knack:skill:"@[0]);
    assert(block_end(slug)[0] == "<!-- knack:skill:"@[0]);
}

proof fn lemma_marks(slug: Seq<char>)
    requires
        one_line(slug),
    ensures
        one_line(block_start(slug)),
        one_line(block_end(slug)),
{
    reveal_strlit("<!-- knack:skill:");
    reveal_strlit(":start -->");
    reveal_strlit(":end -->");
    assert(one_line("<!-- knack:skill:"@));
    assert(one_line(":start -->"@));
    assert(one_line(":end -->"@));
    let a = "<!-- knack:skill:"@;
    assert forall|i: int| 0 <= i < block_start(slug).len() implies #[trigger] block_start(slug)[i]
        != '\n' by {
        if i < a.len() {
            assert(block_start(slug)[i] == a[i]);
        } else if i < a.len() + slug.len() {
            assert(block_start(slug)[i] == slug[i - a.len()]);
        } else {
            assert(block_start(slug)[i] == ":start -->"@[i - a.len() - slug.len()]);
        }
    }
    assert forall|i: int| 0 <= i < block_end(slug).len() implies #[trigger] block_end(slug)[i]
        != '\n' by {
        if i < a.len() {
            assert(block_end(slug)[i] == a[i]);
        } else if i < a.len() + slug.len() {
            assert(block_end(slug)[i] == slug[i - a.len()]);
        } else {
            assert(block_end(slug)[i] == ":end -->"@[i - a.len() - slug.len()]);
        }
    }
}

/// A mark that fits is found where it was put.
proof fn lemma_find_fitting(a: Seq<char>, p: Seq<char>, b: Seq<char>)
    requires
        p.len() > 0,
        fits(a, p),
    ensures
        find_first(a + p + b, p) == Some(a.len() as int),
{
    let s = a + p + b;
    let n = a.len() as int;
    let t = a + p.drop_last();
    assert(s.subrange(n, n + p.len()) =~= p);
    assert forall|j: int| 0 <= j < n implies !#[trigger] occurs_at(s, p, j) by {
        if occurs_at(s, p, j) {
            assert(t.subrange(j, j + p.len()) =~= s.subrange(j, j + p.len()));
            assert(occurs_at(t, p, j));
        }
    }
    lemma_find_from_is(s, p, 0, n);
}

/// A mark without a line feed stands before a line feed or behind it.
proof fn lemma_beside(s: Seq<char>, p: Seq<char>, n: int, j: int)
    requires
        one_line(p),
        occurs_at(s, p, j),
        0 <= n < s.len(),
        s[n] == '\n',
    ensures
        j + p.len() <= n || j > n,
{
    if j <= n < j + p.len() {
        assert(s.subrange(j, j + p.len())[n - j] == s[n]);
        assert(p[n - j] == '\n');
    }
}

/// A mark without a line feed fits behind a text that has none of it and ends with a line
/// feed, or is empty.
proof fn lemma_one_line_fits(a: Seq<char>, p: Seq<char>)
    requires
        one_line(p),
        p.len() > 0,
        absent(a, p),
        a.len() == 0 || a.last() == '\n',
    ensures
        fits(a, p),
{
    let t = a + p.drop_last();
    assert forall|j: int| !#[trigger] occurs_at(t, p, j) by {
        if occurs_at(t, p, j) {
            if a.len() > 0 {
                lemma_beside(t, p, a.len() - 1, j);
                assert(a.subrange(j, j + p.len()) =~= t.subrange(j, j + p.len()));
                assert(occurs_at(a, p, j));
            }
        }
    }
}

/// A text that has none of a mark without a line feed has none with line feeds added.
proof fn lemma_feed_added(a: Seq<char>, p: Seq<char>)
    requires
        one_line(p),
        p.len() > 0,
        absent(a, p),
    ensures
        absent(a.push('\n'), p),
        absent(seq!['\n'] + a, p),
{
    let s = a.push('\n');
    assert forall|j: int| !#[trigger] occurs_at(s, p, j) by {
        if occurs_at(s, p, j) {
            lemma_beside(s, p, a.len() as int, j);
            assert(a.subrange(j, j + p.len()) =~= s.subrange(j, j + p.len()));
            assert(occurs_at(a, p, j));
        }
    }
    let t = seq!['\n'] + a;
    assert forall|j: int| !#[trigger] occurs_at(t, p, j) by {
        if occurs_at(t, p, j) {
            lemma_beside(t, p, 0, j);
            assert(a.subrange(j - 1, j - 1 + p.len()) =~= t.subrange(j, j + p.len()));
            assert(occurs_at(a, p, j - 1));
        }
    }
}

/// What stands around a new entry has none of a mark that the file has none of.
proof fn lemma_around(existing: Seq<char>, end_marker: Seq<char>, p: Seq<char>)
    requires
        one_line(p),
        p.len() > 0,
        absent(existing, p),
    ensures
        ({
            let (a, b) = around(existing, end_marker);
            &&& absent(a, p) && absent(b, p)
            &&& a.len() == 0 || a.last() == '\n'
            &&& b.len() > 0 && b[0] == '\n'
        }),
{
    lemma_sigil();
    let feed = CharClass::One('\n');
    let (a, b) = around(existing, end_marker);
    let none = Seq::<char>::empty();
    assert(absent(none, p));
    lemma_feed_added(none, p);
    assert("\n"@ =~= none.push('\n'));
    match find_first(existing, end_marker) {
        Some(i) => {
            lemma_find_from(existing, end_marker, 0);
            let after = i + end_marker.len();
            let head = drop_trailing(existing.take(after), feed);
            let tail = drop_leading(existing.skip(after), feed);
            lemma_drop_trailing_is_take(existing.take(after), feed);
            lemma_drop_leading_is_skip(existing.skip(after), feed);
            assert(head =~= existing.subrange(0, head.len() as int));
            lemma_absent_in_part(existing, p, 0, head.len() as int);
            lemma_feed_added(head, p);
            lemma_feed_added(head.push('\n'), p);
            assert(a =~= head.push('\n').push('\n'));
            if tail.len() > 0 {
                let from = existing.len() - tail.len();
                assert(tail =~= existing.subrange(from, existing.len() as int));
                lemma_absent_in_part(existing, p, from, existing.len() as int);
                lemma_feed_added(tail, p);
                lemma_feed_added(seq!['\n'] + tail, p);
                assert(b =~= seq!['\n'] + (seq!['\n'] + tail));
            }
        },
        None => if trimmed(existing).len() > 0 {
            let head = drop_trailing(existing, feed);
            lemma_drop_trailing_is_take(existing, feed);
            assert(head =~= existing.subrange(0, head.len() as int));
            lemma_absent_in_part(existing, p, 0, head.len() as int);
            lemma_feed_added(head, p);
            lemma_feed_added(head.push('\n'), p);
            assert(a =~= head.push('\n').push('\n'));
        },
    }
}

/// Where the name of a skill stands on one line, its marks fit into every file and around
/// every body that does not hold them.
pub proof fn law_marks_of_names_fit(
    existing: Seq<char>,
    slug: Seq<char>,
    body: Seq<char>,
    end_marker: Seq<char>,
)
    requires
        one_line(slug),
        absent(existing, block_start(slug)),
        absent(body, block_end(slug)),
    ensures
        fits(around(existing, end_marker).0, block_start(slug)),
        fits(set_off(body), block_end(slug)),
{
    lemma_marks(slug);
    lemma_marks_len(slug);
    lemma_sigil();
    lemma_around(existing, end_marker, block_start(slug));
    lemma_one_line_fits(around(existing, end_marker).0, block_start(slug));
    lemma_feed_added(body, block_end(slug));
    lemma_feed_added(body.push('\n'), block_end(slug));
    assert(set_off(body) =~= seq!['\n'] + body.push('\n'));
    lemma_one_line_fits(set_off(body), block_end(slug));
}

/// An entry whose start mark is found where it stands is found whole.
proof fn lemma_entry_found(a: Seq<char>, slug: Seq<char>, body: Seq<char>, b: Seq<char>)
    requires
        fits(set_off(body), block_end(slug)),
        find_first(a + block_of(slug, body) + b, block_start(slug)) == Some(a.len() as int),
    ensures
        block_at(a + block_of(slug, body) + b, block_start(slug), block_end(slug)) == Some(
            (a.len() as int, (a.len() + block_of(slug, body).len()) as int),
        ),
{
    lemma_marks_len(slug);
    lemma_sigil();
    let t = a + block_of(slug, body) + b;
    let end = block_end(slug);
    let after = a.len() + block_start(slug).len();
    assert(t.skip(after as int) =~= set_off(body) + end + b);
    lemma_find_fitting(set_off(body), end, b);
}

/// A new entry is found where it was put.
proof fn lemma_new_entry(
    existing: Seq<char>,
    slug: Seq<char>,
    body: Seq<char>,
    end_marker: Seq<char>,
)
    requires
        block_at(existing, block_start(slug), block_end(slug)) is None,
        fits(around(existing, end_marker).0, block_start(slug)),
        fits(set_off(body), block_end(slug)),
    ensures
        ({
            let (a, b) = around(existing, end_marker);
            let block = block_of(slug, body);
            &&& upserted(existing, slug, body, end_marker) == a + block + b
            &&& block_at(a + block + b, block_start(slug), block_end(slug)) == Some(
                (a.len() as int, (a.len() + block.len()) as int),
            )
        }),
{
    lemma_marks_len(slug);
    lemma_sigil();
    let (a, b) = around(existing, end_marker);
    let block = block_of(slug, body);
    let rest = set_off(body) + block_end(slug) + b;
    assert(upserted(existing, slug, body, end_marker) =~= a + block + b);
    assert(a + block + b =~= a + block_start(slug) + rest);
    lemma_find_fitting(a, block_start(slug), rest);
    lemma_entry_found(a, slug, body, b);
}

/// Putting in an entry that is found there leaves the text as it is.
proof fn lemma_same_again(
    a: Seq<char>,
    slug: Seq<char>,
    body: Seq<char>,
    b: Seq<char>,
    end_marker: Seq<char>,
)
    requires
        block_at(a + block_of(slug, body) + b, block_start(slug), block_end(slug)) == Some(
            (a.len() as int, (a.len() + block_of(slug, body).len()) as int),
        ),
    ensures
        upserted(a + block_of(slug, body) + b, slug, body, end_marker) == a + block_of(slug, body) + b,
{
    let t = a + block_of(slug, body) + b;
    let e = (a.len() + block_of(slug, body).len()) as int;
    assert(t.take(a.len() as int) =~= a);
    assert(t.skip(e) =~= b);
}

/// Replacing an entry leaves what stands before and behind it, and the new entry is found
/// in its place.
pub proof fn law_entries_are_replaced_in_place(
    existing: Seq<char>,
    slug: Seq<char>,
    body: Seq<char>,
    end_marker: Seq<char>,
)
    requires
        block_at(existing, block_start(slug), block_end(slug)) is Some,
        fits(set_off(body), block_end(slug)),
    ensures
        block_at(existing, block_start(slug), block_end(slug)) matches Some((s, e)) && {
            let next = upserted(existing, slug, body, end_marker);
            let block = block_of(slug, body);
            &&& next == existing.take(s) + block + existing.skip(e)
            &&& block_at(next, block_start(slug), block_end(slug)) == Some((s, s + block.len()))
        },
{
    lemma_marks_len(slug);
    let start = block_start(slug);
    let block = block_of(slug, body);
    let next = upserted(existing, slug, body, end_marker);
    let (s, e) = block_at(existing, start, block_end(slug))->0;
    lemma_block_at(existing, start, block_end(slug));
    lemma_find_from(existing, start, 0);
    let a = existing.take(s);
    assert(existing.take(s + start.len()) =~= a + start) by {
        assert(existing.subrange(s, s + start.len()) == start);
    }
    assert(next.take(s + start.len()) =~= a + start);
    lemma_find_same_start(existing, next, start, s);
    lemma_entry_found(a, slug, body, existing.skip(e));
}

/// Putting the same entry in twice is putting it in once.
pub proof fn law_upsert_is_idempotent(
    existing: Seq<char>,
    slug: Seq<char>,
    body: Seq<char>,
    end_marker: Seq<char>,
)
    requires
        block_at(existing, block_start(slug), block_end(slug)) is Some || fits(
            around(existing, end_marker).0,
            block_start(slug),
        ),
        fits(set_off(body), block_end(slug)),
    ensures
        upserted(upserted(existing, slug, body, end_marker), slug, body, end_marker) == upserted(
            existing,
            slug,
            body,
            end_marker,
        ),
{
    match block_at(existing, block_start(slug), block_end(slug)) {
        Some((s, e)) => {
            lemma_block_at(existing, block_start(slug), block_end(slug));
            law_entries_are_replaced_in_place(existing, slug, body, end_marker);
            lemma_same_again(existing.take(s), slug, body, existing.skip(e), end_marker);
        },
        None => {
            let (a, b) = around(existing, end_marker);
            lemma_new_entry(existing, slug, body, end_marker);
            lemma_same_again(a, slug, body, b, end_marker);
        },
    }
}

/// An entry that was put in is found afterwards, as it was put in.
pub proof fn law_upserted_entry_is_there(
    existing: Seq<char>,
    slug: Seq<char>,
    body: Seq<char>,
    end_marker: Seq<char>,
)
    requires
        block_at(existing, block_start(slug), block_end(slug)) is Some || fits(
            around(existing, end_marker).0,
            block_start(slug),
        ),
        fits(set_off(body), block_end(slug)),
    ensures
        ({
            let next = upserted(existing, slug, body, end_marker);
            block_at(next, block_start(slug), block_end(slug)) matches Some((s, e))
                && next.subrange(s, e) == block_of(slug, body)
        }),
{
    let block = block_of(slug, body);
    let next = upserted(existing, slug, body, end_marker);
    match block_at(existing, block_start(slug), block_end(slug)) {
        Some((s, e)) => {
            lemma_block_at(existing, block_start(slug), block_end(slug));
            law_entries_are_replaced_in_place(existing, slug, body, end_marker);
            assert(next.subrange(s, (s + block.len()) as int) =~= block);
        },
        None => {
            let (a, b) = around(existing, end_marker);
            lemma_new_entry(existing, slug, body, end_marker);
            assert(next.subrange(a.len() as int, (a.len() + block.len()) as int) =~= block);
        },
    }
}

/// The start mark is not in the end mark, nor the other way round.
proof fn lemma_marks_differ(slug: Seq<char>)
    ensures
        absent(block_start(slug), block_end(slug)),
        absent(block_end(slug), block_start(slug)),
{
    lemma_marks_len(slug);
    reveal_strlit("<!-- knack:skill:");
    reveal_strlit(":start -->");
    reveal_strlit(":end -->");
    let start = block_start(slug);
    let end = block_end(slug);
    assert(start[1] == "<!-- knack:skill:"@[1] && start[2] == "<!-- knack:skill:"@[2]);
    assert forall|j: int| !#[trigger] occurs_at(start, end, j) by {
        if occurs_at(start, end, j) {
            let t = start.subrange(j, j + end.len());
            assert(t[0] == start[j]);
            assert(j == 0);
            let k = slug.len() + 18;
            assert(t[k as int] == start[k as int]);
            assert(start[k as int] == ":start -->"@[1]);
            assert(end[k as int] == ":end -->"@[1]);
        }
    }
}

/// Around an entry its marks stand only where it has them.
proof fn lemma_marks_once(a: Seq<char>, slug: Seq<char>, body: Seq<char>, b: Seq<char>)
    requires
        one_line(slug),
        absent(body, block_start(slug)),
        absent(body, block_end(slug)),
        forall|j: int| #[trigger] occurs_at(a + block_start(slug), block_start(slug), j) ==> j == a.len(),
        absent(a + block_start(slug), block_end(slug)),
        absent(block_end(slug) + b, block_start(slug)),
        forall|j: int| #[trigger] occurs_at(block_end(slug) + b, block_end(slug), j) ==> j == 0,
    ensures
        once(a + block_of(slug, body) + b, block_start(slug), a.len() as int),
        once(
            a + block_of(slug, body) + b,
            block_end(slug),
            a.len() + block_of(slug, body).len() - block_end(slug).len(),
        ),
{
    lemma_marks(slug);
    lemma_marks_len(slug);
    lemma_sigil();
    let start = block_start(slug);
    let end = block_end(slug);
    let next = a + block_of(slug, body) + b;
    let head = a + start;
    let tail = end + b;
    let n1 = (a.len() + start.len()) as int;
    let n2 = (n1 + 1 + body.len()) as int;
    assert(next =~= head + set_off(body) + tail);
    assert(next[n1] == '\n');
    assert(next[n2] == '\n');
    assert(next.subrange(a.len() as int, n1) =~= start);
    assert(next.subrange(n2 + 1, n2 + 1 + end.len()) =~= end);
    assert forall|j: int| #[trigger] occurs_at(next, start, j) implies j == a.len() by {
        lemma_mark_place(head, body, tail, start, j);
    }
    assert forall|j: int| #[trigger] occurs_at(next, end, j) implies j == n2 + 1 by {
        lemma_mark_place(head, body, tail, end, j);
    }
}

/// A mark in a text of three parts stands in one of them.
proof fn lemma_mark_place(head: Seq<char>, body: Seq<char>, tail: Seq<char>, p: Seq<char>, j: int)
    requires
        one_line(p),
        occurs_at(head + set_off(body) + tail, p, j),
    ensures
        occurs_at(head, p, j) || occurs_at(body, p, j - head.len() - 1) || occurs_at(
            tail,
            p,
            j - head.len() - body.len() - 2,
        ),
{
    lemma_sigil();
    let s = head + set_off(body) + tail;
    let n1 = head.len() as int;
    let n2 = (n1 + 1 + body.len()) as int;
    assert(s[n1] == '\n');
    assert(s[n2] == '\n');
    lemma_beside(s, p, n1, j);
    lemma_beside(s, p, n2, j);
    let found = s.subrange(j, j + p.len());
    if j + p.len() <= n1 {
        assert(head.subrange(j, j + p.len()) =~= found);
    } else if j + p.len() <= n2 {
        assert(body.subrange(j - n1 - 1, j - n1 - 1 + p.len()) =~= found);
    } else {
        assert(tail.subrange(j - n2 - 1, j - n2 - 1 + p.len()) =~= found);
    }
}

/// After an entry was put in, the file holds it once, and no other mark of the skill: it
/// held none before, or one pair.
pub proof fn law_upserted_marks_stand_once(
    existing: Seq<char>,
    slug: Seq<char>,
    body: Seq<char>,
    end_marker: Seq<char>,
)
    requires
        one_line(slug),
        absent(body, block_start(slug)),
        absent(body, block_end(slug)),
        match block_at(existing, block_start(slug), block_end(slug)) {
            Some((s, e)) => once(existing, block_start(slug), s) && once(
                existing,
                block_end(slug),
                e - block_end(slug).len(),
            ),
            None => absent(existing, block_start(slug)) && absent(existing, block_end(slug)),
        },
    ensures
        ({
            let next = upserted(existing, slug, body, end_marker);
            block_at(next, block_start(slug), block_end(slug)) matches Some((s, e)) && {
                &&& next.subrange(s, e) == block_of(slug, body)
                &&& once(next, block_start(slug), s)
                &&& once(next, block_end(slug), e - block_end(slug).len())
            }
        }),
{
    lemma_marks(slug);
    lemma_marks_len(slug);
    lemma_sigil();
    let start = block_start(slug);
    let end = block_end(slug);
    let none = Seq::<char>::empty();
    assert(absent(none, start));
    law_marks_of_names_fit(none, slug, body, end_marker);
    match block_at(existing, start, end) {
        Some((s, e)) => {
            lemma_block_at(existing, start, end);
            lemma_find_from(existing, start, 0);
            law_entries_are_replaced_in_place(existing, slug, body, end_marker);
            law_upserted_entry_is_there(existing, slug, body, end_marker);
            let a = existing.take(s);
            let b = existing.skip(e);
            let head = a + start;
            let tail = end + b;
            let from = e - end.len();
            assert(existing.subrange(s, s + start.len()) == start);
            assert(existing.subrange(from, e) == end);
            assert(head =~= existing.take(s + start.len()));
            assert(tail =~= existing.skip(from));
            assert forall|p: Seq<char>, j: int| #[trigger] occurs_at(head, p, j) implies occurs_at(
                existing,
                p,
                j,
            ) by {
                assert(existing.subrange(j, j + p.len()) =~= head.subrange(j, j + p.len()));
            }
            assert forall|p: Seq<char>, j: int| #[trigger] occurs_at(tail, p, j) implies occurs_at(
                existing,
                p,
                from + j,
            ) by {
                assert(existing.subrange(from + j, from + j + p.len()) =~= tail.subrange(
                    j,
                    j + p.len(),
                ));
            }
            assert forall|j: int| !#[trigger] occurs_at(head, end, j) by {
                if occurs_at(head, end, j) {
                    assert(occurs_at(existing, end, j));
                }
            }
            assert forall|j: int| !#[trigger] occurs_at(tail, start, j) by {
                if occurs_at(tail, start, j) {
                    assert(occurs_at(existing, start, from + j));
                }
            }
            assert forall|j: int| #[trigger] occurs_at(tail, end, j) implies j == 0 by {
                assert(occurs_at(existing, end, from + j));
            }
            lemma_marks_once(a, slug, body, b);
        },
        None => {
            let (a, b) = around(existing, end_marker);
            law_marks_of_names_fit(existing, slug, body, end_marker);
            lemma_new_entry(existing, slug, body, end_marker);
            law_upserted_entry_is_there(existing, slug, body, end_marker);
            lemma_around(existing, end_marker, start);
            lemma_around(existing, end_marker, end);
            lemma_marks_differ(slug);
            lemma_alone_before(a, start, start);
            lemma_alone_before(a, start, end);
            lemma_alone_behind(end, b, start);
            lemma_alone_behind(end, b, end);
            assert forall|j: int| #[trigger] occurs_at(a + start, start, j) implies j == a.len() by {
                assert(occurs_at(start, start, j - a.len()));
            }
            assert forall|j: int| #[trigger] occurs_at(end + b, end, j) implies j == 0 by {
                assert(occurs_at(end, end, j));
            }
            lemma_marks_once(a, slug, body, b);
        },
    }
}

/// What stands in a mark behind a text that has none of it stands in the mark.
proof fn lemma_alone_before(a: Seq<char>, mark: Seq<char>, p: Seq<char>)
    requires
        one_line(p),
        p.len() > 0,
        absent(a, p),
        a.len() == 0 || a.last() == '\n',
    ensures
        forall|j: int| #[trigger] occurs_at(a + mark, p, j) ==> occurs_at(mark, p, j - a.len()),
{
    let s = a + mark;
    assert forall|j: int| #[trigger] occurs_at(s, p, j) implies occurs_at(mark, p, j - a.len()) by {
        if a.len() > 0 {
            lemma_beside(s, p, a.len() - 1, j);
        }
        let found = s.subrange(j, j + p.len());
        if j < a.len() {
            assert(a.subrange(j, j + p.len()) =~= found);
            assert(occurs_at(a, p, j));
        } else {
            assert(mark.subrange(j - a.len(), j - a.len() + p.len()) =~= found);
        }
    }
}

/// What stands in a mark before a text that has none of it stands in the mark.
proof fn lemma_alone_behind(mark: Seq<char>, b: Seq<char>, p: Seq<char>)
    requires
        one_line(p),
        p.len() > 0,
        absent(b, p),
        b.len() > 0 && b[0] == '\n',
    ensures
        forall|j: int| #[trigger] occurs_at(mark + b, p, j) ==> occurs_at(mark, p, j),
{
    let s = mark + b;
    let n = mark.len() as int;
    assert forall|j: int| #[trigger] occurs_at(s, p, j) implies occurs_at(mark, p, j) by {
        lemma_beside(s, p, n, j);
        let found = s.subrange(j, j + p.len());
        if j > n {
            assert(b.subrange(j - n, j - n + p.len()) =~= found);
            assert(occurs_at(b, p, j - n));
        } else {
            assert(mark.subrange(j, j + p.len()) =~= found);
        }
    }
}

/// Taking out an entry that was appended to a file gives the file back, and once it is
/// out there is nothing to take out.
pub proof fn law_remove_undoes_append(
    text: Seq<char>,
    slug: Seq<char>,
    body: Seq<char>,
    end_marker: Seq<char>,
)
    requires
        text.len() > 0,
        text.last() != '\n',
        trimmed(text.push('\n')).len() > 0,
        absent(text.push('\n'), block_start(slug)),
        absent(text.push('\n'), end_marker),
        fits(text + "\n\n"@, block_start(slug)),
        fits(set_off(body), block_end(slug)),
    ensures
        without_block(upserted(text.push('\n'), slug, body, end_marker), slug) == Some(
            text.push('\n'),
        ),
        without_block(text.push('\n'), slug) is None,
{
    lemma_sigil();
    let existing = text.push('\n');
    let feed = CharClass::One('\n');
    lemma_absent(existing, block_start(slug));
    lemma_absent(existing, end_marker);
    assert(existing.drop_last() =~= text);
    assert(drop_trailing(text, feed) == text);
    assert(drop_trailing(existing, feed) == text);
    let a = text + "\n\n"@;
    assert(around(existing, end_marker) == (a, "\n"@));
    let block = block_of(slug, body);
    lemma_new_entry(existing, slug, body, end_marker);
    let next = a + block + "\n"@;
    assert(next.take(a.len() as int) =~= a);
    assert(next.skip((a.len() + block.len()) as int) =~= "\n"@);
    assert(a.drop_last().drop_last() =~= text);
    reveal_with_fuel(drop_trailing, 3);
    assert(drop_trailing(a, feed) == text);
    let tail = "\n"@;
    assert(tail.drop_first() =~= Seq::<char>::empty());
    reveal_with_fuel(drop_leading, 2);
    assert(drop_leading(tail, feed) =~= Seq::<char>::empty());
    assert(text + "\n"@ =~= existing);
}

/// Taking out the only entry of a file that was missing or blank leaves nothing, so that
/// the file goes.
pub proof fn law_remove_undoes_the_first_entry(
    text: Seq<char>,
    slug: Seq<char>,
    body: Seq<char>,
    end_marker: Seq<char>,
)
    requires
        trimmed(text).len() == 0,
        absent(text, block_start(slug)),
        absent(text, end_marker),
        fits(set_off(body), block_end(slug)),
    ensures
        without_block(upserted(text, slug, body, end_marker), slug) == Some(Seq::<char>::empty()),
        trimmed(Seq::<char>::empty()).len() == 0,
{
    lemma_sigil();
    lemma_marks_len(slug);
    let feed = CharClass::One('\n');
    lemma_absent(text, block_start(slug));
    lemma_absent(text, end_marker);
    let none = Seq::<char>::empty();
    assert(around(text, end_marker).0 =~= none);
    assert(fits(none, block_start(slug)));
    let block = block_of(slug, body);
    lemma_new_entry(text, slug, body, end_marker);
    let next = none + block + "\n"@;
    assert(upserted(text, slug, body, end_marker) =~= next);
    assert(next.take(0) =~= none);
    assert(next.skip(block.len() as int) =~= "\n"@);
    let tail = "\n"@;
    assert(tail.drop_first() =~= none);
    reveal_with_fuel(drop_leading, 2);
    assert(drop_leading(tail, feed) =~= none);
    assert(drop_trailing(none, feed) =~= none);
}

} // verus!
