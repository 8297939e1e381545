//! How a document comes apart into the block at its head and its body.

use vstd::prelude::*;

use crate::frontmatter::{after_opening, fence_from, frontmatter, is_fence, split_doc};
use crate::text::laws::{law_the_first_place_is_found, stands_in};
use crate::text::{
    drop_leading, drop_trailing, find_first, find_from, full_lines, has_prefix,
    lemma_drop_leading_is_skip, lemma_drop_trailing_is_take, lemma_drop_trailing_takes,
    lemma_find_from, lemma_find_from_is, newline, occurs_at, CharClass,
};

verus! {

/// A line closes a block: three dashes or three dots, and nothing else but the end of the
/// line.
pub open spec fn closes(line: Seq<char>) -> bool {
    let t = drop_trailing(line, CharClass::LineEnd);
    t == seq!['-', '-', '-'] || t == seq!['.', '.', '.']
}

proof fn lemma_closes(line: Seq<char>)
    ensures
        is_fence(line) <==> closes(line),
{
    reveal_strlit("---");
    reveal_strlit("...");
    assert("---"@ =~= seq!['-', '-', '-']);
    assert("..."@ =~= seq!['.', '.', '.']);
}

proof fn lemma_skipped_lines(s: Seq<char>, from: int, n: int)
    requires
        0 <= from <= n,
        n + 4 <= s.len(),
        from < n ==> s[n - 1] == '\n',
        forall|i: int|
            0 <= i < full_lines(s.subrange(from, n)).len() ==> !closes(
                #[trigger] full_lines(s.subrange(from, n))[i],
            ),
        s.subrange(n, n + 3) == seq!['-', '-', '-'] || s.subrange(n, n + 3) == seq!['.', '.', '.'],
        s[n + 3] == '\n',
    ensures
        fence_from(s, from) == Some((n, n + 4)),
    decreases n - from,
{
    lemma_find_from(s, newline(), from);
    if from == n {
        assert(s.subrange(n, n + 3)[0] == s[n]);
        assert(s.subrange(n, n + 3)[1] == s[n + 1]);
        assert(s.subrange(n, n + 3)[2] == s[n + 2]);
        assert(s.subrange(n + 3, n + 4) =~= newline());
        assert forall|j: int| n <= j < n + 3 implies !#[trigger] occurs_at(s, newline(), j) by {
            if occurs_at(s, newline(), j) {
                assert(s.subrange(j, j + 1)[0] == s[j]);
            }
        }
        lemma_find_from_is(s, newline(), n, n + 3);
        let line = s.subrange(n, n + 4);
        lemma_drop_trailing_takes(line, CharClass::LineEnd, 3);
        assert(line.take(3) =~= s.subrange(n, n + 3));
        lemma_closes(line);
    } else {
        let block = s.subrange(from, n);
        assert(s.subrange(n - 1, n) =~= newline());
        assert(occurs_at(s, newline(), n - 1));
        let j = find_from(s, newline(), from)->0;
        let end = j + 1;
        assert(end <= n);
        assert(s.subrange(j, j + 1)[0] == s[j]);
        assert(block.subrange(j - from, j - from + 1) =~= newline());
        assert forall|k: int| 0 <= k < j - from implies !#[trigger] occurs_at(
            block,
            newline(),
            k,
        ) by {
            if occurs_at(block, newline(), k) {
                assert(s.subrange(from + k, from + k + 1) =~= block.subrange(k, k + 1));
                assert(occurs_at(s, newline(), from + k));
            }
        }
        lemma_find_from_is(block, newline(), 0, j - from);
        let rest = s.subrange(end, n);
        assert(block.take(end - from) =~= s.subrange(from, end));
        assert(block.skip(end - from) =~= rest);
        assert(full_lines(block) =~= seq![s.subrange(from, end)] + full_lines(rest));
        assert(full_lines(block)[0] == s.subrange(from, end));
        lemma_closes(s.subrange(from, end));
        assert forall|i: int| 0 <= i < full_lines(rest).len() implies !closes(
            #[trigger] full_lines(rest)[i],
        ) by {
            assert(full_lines(block)[i + 1] == full_lines(rest)[i]);
        }
        lemma_skipped_lines(s, end, n);
    }
}

/// A document that starts with three dashes has a block at its head: the lines up to the
/// first one that closes it. What stands behind, but for the ends of lines before it, is
/// the body.
pub proof fn law_the_block_ends_at_the_first_closing_line(
    x: Seq<char>,
    block: Seq<char>,
    close: Seq<char>,
    body: Seq<char>,
)
    requires
        forall|i: int| 0 <= i < x.len() ==> #[trigger] x[i] != '\n',
        block.len() == 0 || block.last() == '\n',
        forall|i: int|
            0 <= i < full_lines(block).len() ==> !closes(#[trigger] full_lines(block)[i]),
        close == seq!['-', '-', '-'] || close == seq!['.', '.', '.'],
    ensures
        ({
            let head = seq!['-', '-', '-'] + x + seq!['\n'] + block + close;
            let md = head + seq!['\n'] + body;
            &&& split_doc(md) == (head, drop_leading(body, CharClass::LineEnd))
            &&& frontmatter(md) == Some(block)
        }),
{
    reveal_strlit("---");
    assert("---"@ =~= seq!['-', '-', '-']);
    let top = seq!['-', '-', '-'] + x + seq!['\n'];
    let head = top + block + close;
    let md = head + seq!['\n'] + body;
    assert(md[0] == '-');
    assert(drop_leading(md, CharClass::One('\u{feff}')) == md);
    assert(drop_leading(md, CharClass::White) == md);
    assert(md.take(3) =~= "---"@);
    law_the_first_place_is_found(md, newline());
    let n = top.len() as int;
    assert(stands_in(md, newline(), n - 1)) by {
        assert(md[(n - 1) + 0] == '\n');
    }
    let j = find_first(md, newline())->0;
    if j < n - 1 {
        assert(md[j + 0] == newline()[0]);
        if j >= 3 {
            assert(md[j] == x[j - 3]);
        }
    }
    assert(after_opening(md) == Some(n));
    let s = md.skip(n);
    let m = block.len() as int;
    assert(s.subrange(0, m) =~= block);
    assert(s.subrange(m, m + 3) =~= close);
    assert(s[m + 3] == '\n');
    if 0 < m {
        assert(s[m - 1] == block[m - 1]);
    }
    lemma_skipped_lines(s, 0, m);
    assert(s.take(m) =~= block);
    let whole = md.take(n + m + 4);
    assert(whole =~= head.push('\n'));
    assert(whole.take(n + m + 3) =~= head);
    lemma_drop_trailing_takes(whole, CharClass::LineEnd, n + m + 3);
    assert(md.skip(n + m + 4) =~= body);
}

/// A document that does not start with three dashes has no block: but for a mark of byte
/// order all of it is the body.
pub proof fn law_other_documents_are_all_body(md: Seq<char>)
    requires
        md.len() < 3 || !(md[0] == '-' && md[1] == '-' && md[2] == '-'),
        md.len() == 0 || md[0] != '\u{feff}',
    ensures
        split_doc(md).0.len() == 0,
        split_doc(md).1 == md,
{
    reveal_strlit("---");
    if has_prefix(md, "---"@) {
        assert(md.take(3)[0] == md[0] && md.take(3)[1] == md[1] && md.take(3)[2] == md[2]);
    }
}

/// Nothing of a document is lost but ends of lines between the block and the body: they
/// stand in it one behind the other.
pub proof fn law_nothing_of_a_document_is_lost(md: Seq<char>) -> (between: Seq<char>)
    requires
        md.len() == 0 || md[0] != '\u{feff}',
    ensures
        md == split_doc(md).0 + between + split_doc(md).1,
        forall|i: int|
            0 <= i < between.len() ==> #[trigger] between[i] == '\r' || between[i] == '\n',
        split_doc(md).0.len() == 0 ==> between.len() == 0,
{
    let k = CharClass::LineEnd;
    match after_opening(md) {
        Some(i) => {
            law_the_first_place_is_found(md, newline());
            match fence_from(md.skip(i), 0) {
                Some((a, b)) => {
                    crate::frontmatter::lemma_fence(md.skip(i), 0);
                    let head = md.take(i + b);
                    let rest = md.skip(i + b);
                    lemma_drop_trailing_is_take(head, k);
                    lemma_drop_leading_is_skip(rest, k);
                    crate::text::laws::lemma_trailed(head, k);
                    crate::text::laws::lemma_led(rest, k);
                    let h = drop_trailing(head, k);
                    let r = drop_leading(rest, k);
                    let between = head.skip(h.len() as int) + rest.take(rest.len() - r.len());
                    assert(md =~= head + rest);
                    assert(head =~= h + head.skip(h.len() as int));
                    assert(rest =~= rest.take(rest.len() - r.len()) + r);
                    assert(md =~= h + between + r);
                    assert forall|j: int| 0 <= j < between.len() implies #[trigger] between[j]
                        == '\r' || between[j] == '\n' by {
                        let n = head.len() - h.len();
                        if j < n {
                            assert(k.holds(head[h.len() + j]));
                        } else {
                            assert(k.holds(rest[j - n]));
                        }
                    }
                    assert(h.len() > 0) by {
                        assert(!k.holds(md.skip(i)[a]));
                        assert(head[i + a] == md.skip(i)[a]);
                        if h.len() == 0 {
                            assert(k.holds(head[i + a]));
                        }
                    }
                    between
                },
                None => {
                    assert(md =~= Seq::<char>::empty() + Seq::<char>::empty() + md);
                    Seq::empty()
                },
            }
        },
        None => {
            assert(md =~= Seq::<char>::empty() + Seq::<char>::empty() + md);
            Seq::empty()
        },
    }
}

} // verus!
