//! What a difference shows of the two texts, read off its own lines.

use vstd::prelude::*;

use crate::commands::diff::{
    file_diff, line_changes, marked_line, marked_text, same_skill, shown_diff, shown_files, side,
    version_diff, whole_line, Tag, VersionTexts,
};
use crate::text::laws::{lacks, lemma_cut_first, lemma_uncut};
use crate::text::{find_first, has_suffix, lemma_find_from, lemma_find_from_is, occurs_at, pieces};

verus! {

/// The lines of a difference, with their marks. Each of them ends with a line feed.
pub open spec fn diff_lines(t: Seq<char>) -> Seq<Seq<char>> {
    pieces(t, seq!['\n']).drop_last()
}

/// What stands on the lines of a difference that do not have the mark, one behind the
/// other, without the marks.
pub open spec fn shown_but(t: Seq<char>, mark: char) -> Seq<char> {
    shown_on(diff_lines(t), mark)
}

/// What stands on those of the lines that do not have the mark, without the marks.
pub open spec fn shown_on(lines: Seq<Seq<char>>, mark: char) -> Seq<char>
    decreases lines.len(),
{
    if lines.len() == 0 {
        seq![]
    } else if lines.last()[0] == mark {
        shown_on(lines.drop_last(), mark)
    } else {
        shown_on(lines.drop_last(), mark) + lines.last().drop_first()
    }
}

/// A text without its line feeds.
pub open spec fn feedless(s: Seq<char>) -> Seq<char> {
    s.filter(|c: char| c != '\n')
}

/// The mark of a line, as a character.
pub open spec fn mark_of(t: Tag) -> char {
    match t {
        Tag::Equal => ' ',
        Tag::Delete => '-',
        Tag::Insert => '+',
    }
}

proof fn lemma_no_feed(s: Seq<char>)
    requires
        forall|i: int| 0 <= i < s.len() ==> #[trigger] s[i] != '\n',
    ensures
        feedless(s) == s,
    decreases s.len(),
{
    reveal(Seq::filter);
    if s.len() > 0 {
        lemma_no_feed(s.drop_last());
        assert(s =~= s.drop_last().push(s.last()));
    } else {
        assert(feedless(s) =~= s);
    }
}

proof fn lemma_feedless_add(a: Seq<char>, b: Seq<char>)
    ensures
        feedless(a + b) == feedless(a) + feedless(b),
{
    Seq::filter_distributes_over_add(a, b, |c: char| c != '\n');
}

/// A value without its line feed is what is left of it without any.
proof fn lemma_whole_line(v: Seq<char>)
    requires
        whole_line(v),
    ensures
        has_suffix(v, "\n"@) ==> v.last() == '\n' && feedless(v) == v.drop_last(),
        !has_suffix(v, "\n"@) ==> v.last() != '\n' && feedless(v) == v,
        forall|i: int| 0 <= i < feedless(v).len() ==> #[trigger] feedless(v)[i] != '\n',
{
    reveal_strlit("\n");
    reveal(Seq::filter);
    let head = v.drop_last();
    assert forall|i: int| 0 <= i < head.len() implies #[trigger] head[i] != '\n' by {
        if head[i] == '\n' {
            assert(crate::text::one_line(head));
        }
    }
    lemma_no_feed(head);
    assert(v.skip(v.len() - 1) =~= seq![v.last()]);
    assert("\n"@ =~= seq!['\n']);
    if v.last() == '\n' {
        assert(has_suffix(v, "\n"@));
    } else {
        assert forall|i: int| 0 <= i < v.len() implies #[trigger] v[i] != '\n' by {
            if i < v.len() - 1 {
                assert(head[i] != '\n');
            }
        }
        lemma_no_feed(v);
        if has_suffix(v, "\n"@) {
            assert(seq![v.last()][0] == seq!['\n'][0]);
        }
    }
}

/// One more line at the end of lines is one more piece.
proof fn lemma_one_more_line(a: Seq<char>, x: Seq<char>)
    requires
        a.len() > 0 ==> a.last() == '\n',
        forall|i: int| 0 <= i < x.len() ==> #[trigger] x[i] != '\n',
    ensures
        pieces(a + x + seq!['\n'], seq!['\n']) == pieces(a, seq!['\n']).drop_last().push(x).push(
            seq![],
        ),
        pieces(a, seq!['\n']).last() == Seq::<char>::empty(),
        pieces(a, seq!['\n']).len() > 0,
    decreases a.len(),
{
    let nl = seq!['\n'];
    let t = a + x + nl;
    lemma_find_from(a, nl, 0);
    if a.len() == 0 {
        assert(t =~= x + nl);
        assert(t.subrange(x.len() as int, x.len() as int + 1) =~= nl);
        assert forall|j: int| 0 <= j < x.len() implies !#[trigger] occurs_at(t, nl, j) by {
            if occurs_at(t, nl, j) {
                assert(t.subrange(j, j + 1)[0] == t[j]);
                assert(t[j] == x[j]);
            }
        }
        lemma_find_from_is(t, nl, 0, x.len() as int);
        assert(t.take(x.len() as int) =~= x);
        assert(t.skip(x.len() as int + 1) =~= seq![]);
        lemma_find_from(seq![], nl, 0);
        assert(pieces(seq![], nl) =~= seq![Seq::<char>::empty()]);
        assert(a =~= seq![]);
        assert(pieces(a, nl) =~= seq![Seq::<char>::empty()]);
        assert(pieces(t, nl) =~= seq![x] + seq![Seq::<char>::empty()]);
        assert(pieces(a, nl).drop_last().push(x).push(seq![]) =~= pieces(t, nl));
    } else {
        assert(a.subrange(a.len() - 1, a.len() as int) =~= nl);
        assert(occurs_at(a, nl, a.len() - 1));
        let i = find_first(a, nl)->0;
        assert(t.subrange(i, i + 1) =~= a.subrange(i, i + 1));
        assert forall|j: int| 0 <= j < i implies !#[trigger] occurs_at(t, nl, j) by {
            if occurs_at(t, nl, j) {
                assert(t.subrange(j, j + 1) =~= a.subrange(j, j + 1));
                assert(occurs_at(a, nl, j));
            }
        }
        lemma_find_from_is(t, nl, 0, i);
        let rest = a.skip(i + 1);
        assert(t.take(i) =~= a.take(i));
        assert(t.skip(i + 1) =~= rest + x + nl);
        if rest.len() > 0 {
            assert(rest.last() == a.last());
        }
        lemma_one_more_line(rest, x);
        let head = seq![a.take(i)];
        assert(pieces(a, nl) == head + pieces(rest, nl));
        assert(pieces(t, nl) == head + pieces(rest + x + nl, nl));
        assert(pieces(a, nl).drop_last() =~= head + pieces(rest, nl).drop_last());
        assert(pieces(t, nl) =~= pieces(a, nl).drop_last().push(x).push(seq![]));
    }
}

/// The line of a change: its mark, and the value without its line feed.
pub open spec fn line_of(c: (Tag, Seq<char>)) -> Seq<char> {
    seq![mark_of(c.0)] + feedless(c.1)
}

/// The lines of the first `n` changes.
pub open spec fn first_lines(s: Seq<(Tag, Seq<char>)>, n: int) -> Seq<Seq<char>> {
    Seq::new(n as nat, |i: int| line_of(s[i]))
}

proof fn lemma_marked_line(c: (Tag, Seq<char>))
    requires
        whole_line(c.1),
    ensures
        marked_line(c) == line_of(c) + seq!['\n'],
        forall|i: int| 0 <= i < line_of(c).len() ==> #[trigger] line_of(c)[i] != '\n',
{
    reveal_strlit(" ");
    reveal_strlit("-");
    reveal_strlit("+");
    reveal_strlit("\n");
    lemma_whole_line(c.1);
    assert(" "@ =~= seq![' '] && "-"@ =~= seq!['-'] && "+"@ =~= seq!['+'] && "\n"@ =~= seq!['\n']);
    if has_suffix(c.1, "\n"@) {
        assert(c.1 =~= c.1.drop_last() + seq!['\n']);
        assert(marked_line(c) =~= line_of(c) + seq!['\n']);
    } else {
        assert(marked_line(c) =~= line_of(c) + seq!['\n']);
    }
    assert forall|i: int| 0 <= i < line_of(c).len() implies #[trigger] line_of(c)[i] != '\n' by {
        if i > 0 {
            assert(line_of(c)[i] == feedless(c.1)[i - 1]);
        }
    }
}

pub proof fn lemma_lines(s: Seq<(Tag, Seq<char>)>, n: int)
    requires
        0 <= n <= s.len(),
        forall|i: int| 0 <= i < s.len() ==> whole_line((#[trigger] s[i]).1),
    ensures
        marked_text(s, n).len() > 0 ==> marked_text(s, n).last() == '\n',
        pieces(marked_text(s, n), seq!['\n']).len() == n + 1,
        diff_lines(marked_text(s, n)) == first_lines(s, n),
    decreases n,
{
    if n > 0 {
        lemma_lines(s, n - 1);
        let was = marked_text(s, n - 1);
        let c = s[n - 1];
        assert(whole_line(c.1));
        lemma_marked_line(c);
        assert(marked_text(s, n) =~= was + line_of(c) + seq!['\n']);
        lemma_one_more_line(was, line_of(c));
        let p = pieces(marked_text(s, n), seq!['\n']);
        assert(p.drop_last() =~= diff_lines(was).push(line_of(c)));
        assert(diff_lines(marked_text(s, n)) =~= first_lines(s, n));
    } else {
        let t = marked_text(s, n);
        assert(t =~= seq![]);
        lemma_find_from(t, seq!['\n'], 0);
        assert(pieces(t, seq!['\n']) =~= seq![t]);
        assert(diff_lines(t) =~= first_lines(s, 0));
    }
}

/// A difference has one line for each line that stayed, went or came, in order: its mark,
/// which is a blank, a minus or a plus, and the line.
pub proof fn law_each_change_has_its_line(s: Seq<(Tag, Seq<char>)>, i: int)
    requires
        forall|i: int| 0 <= i < s.len() ==> whole_line((#[trigger] s[i]).1),
        0 <= i < s.len(),
    ensures
        diff_lines(marked_text(s, s.len() as int)).len() == s.len(),
        diff_lines(marked_text(s, s.len() as int))[i] == seq![
            match s[i].0 {
                Tag::Equal => ' ',
                Tag::Delete => '-',
                Tag::Insert => '+',
            },
        ] + feedless(s[i].1),
{
    lemma_lines(s, s.len() as int);
}

proof fn lemma_shown(s: Seq<(Tag, Seq<char>)>, without: Tag, mark: char, n: int)
    requires
        mark == mark_of(without),
        0 <= n <= s.len(),
        forall|i: int| 0 <= i < s.len() ==> whole_line((#[trigger] s[i]).1),
    ensures
        shown_on(first_lines(s, n), mark) == feedless(side(s, without, n)),
    decreases n,
{
    let all = first_lines(s, n);
    if n > 0 {
        lemma_shown(s, without, mark, n - 1);
        let c = s[n - 1];
        let l = line_of(c);
        assert(all.drop_last() =~= first_lines(s, n - 1));
        assert(all.last() == l);
        assert(l[0] == mark_of(c.0));
        assert(l.drop_first() =~= feedless(c.1));
        lemma_feedless_add(side(s, without, n - 1), c.1);
    } else {
        reveal(Seq::filter);
        assert(feedless(side(s, without, n)) =~= seq![]);
    }
}

/// Both texts can be read off their difference, line feeds aside: the lines with a blank
/// or a minus make up the first, and those with a blank or a plus make up the second.
pub proof fn law_both_texts_are_shown(s: Seq<(Tag, Seq<char>)>, a: Seq<char>, b: Seq<char>)
    requires
        forall|i: int| 0 <= i < s.len() ==> whole_line((#[trigger] s[i]).1),
        side(s, Tag::Insert, s.len() as int) == a,
        side(s, Tag::Delete, s.len() as int) == b,
    ensures
        shown_but(marked_text(s, s.len() as int), '+') == a.filter(|c: char| c != '\n'),
        shown_but(marked_text(s, s.len() as int), '-') == b.filter(|c: char| c != '\n'),
{
    let n = s.len() as int;
    lemma_lines(s, n);
    lemma_shown(s, Tag::Insert, '+', n);
    lemma_shown(s, Tag::Delete, '-', n);
    assert(shown_but(marked_text(s, n), '+') == feedless(a));
    assert(shown_but(marked_text(s, n), '-') == feedless(b));
}

/// Of two versions each of the three texts that differs is told under its own name, and no
/// other, in order.
pub proof fn law_every_text_that_differs_is_told(left: VersionTexts, right: VersionTexts)
    ensures
        ({
            let d = version_diff(left, right);
            let names = Seq::new(d.len(), |i: int| d[i].0);
            &&& names == (if left.skill_md@ != right.skill_md@ {
                seq!["SKILL.md"@]
            } else {
                seq![]
            }) + (if left.intuition_md@ != right.intuition_md@ {
                seq!["intuition.md"@]
            } else {
                seq![]
            }) + (if left.meta_yaml@ != right.meta_yaml@ {
                seq!["meta.knack.yaml"@]
            } else {
                seq![]
            })
        }),
{
    let d = version_diff(left, right);
    let names = Seq::new(d.len(), |i: int| d[i].0);
    assert(names =~= (if left.skill_md@ != right.skill_md@ {
        seq!["SKILL.md"@]
    } else {
        seq![]
    }) + (if left.intuition_md@ != right.intuition_md@ {
        seq!["intuition.md"@]
    } else {
        seq![]
    }) + (if left.meta_yaml@ != right.meta_yaml@ {
        seq!["meta.knack.yaml"@]
    } else {
        seq![]
    }));
}

/// The difference of a text is that of its two forms, and there is none where they are the
/// same.
pub proof fn law_a_difference_is_of_both_forms(name: Seq<char>, a: Seq<char>, b: Seq<char>)
    ensures
        file_diff(name, a, a).len() == 0,
        a != b ==> file_diff(name, a, b).len() == 1 && file_diff(name, a, b)[0].0 == name
            && file_diff(name, a, b)[0].1 == marked_text(
            line_changes(a, b),
            line_changes(a, b).len() as int,
        ),
{
}

proof fn lemma_shown_files(
    d: Seq<(Seq<char>, Seq<char>)>,
    left: Seq<char>,
    right: Seq<char>,
    n: int,
    parts: Seq<Seq<char>>,
)
    requires
        0 <= n <= d.len(),
        parts.len() == d.len(),
        forall|i: int|
            0 <= i < d.len() ==> #[trigger] parts[i] == "--- "@ + d[i].0 + " @ "@ + left + "\n"@
                + ("+++ "@ + d[i].0 + " @ "@ + right + "\n"@) + d[i].1,
    ensures
        shown_files(d, left, right, n) == parts.take(n).flatten(),
    decreases n,
{
    if n > 0 {
        lemma_shown_files(d, left, right, n - 1, parts);
        assert(parts.take(n) =~= parts.take(n - 1).push(parts[n - 1]));
        parts.take(n - 1).lemma_flatten_push(parts[n - 1]);
        assert(shown_files(d, left, right, n) =~= shown_files(d, left, right, n - 1) + parts[n
            - 1]);
    } else {
        assert(parts.take(0) =~= seq![]);
    }
}

/// The differences of all files are shown one behind the other, each below the names of both
/// versions; where there is none, that they are identical.
pub proof fn law_all_differences_are_shown(
    d: Seq<(Seq<char>, Seq<char>)>,
    left: Seq<char>,
    right: Seq<char>,
    parts: Seq<Seq<char>>,
)
    requires
        parts.len() == d.len(),
        forall|i: int|
            0 <= i < d.len() ==> #[trigger] parts[i] == "--- "@ + d[i].0 + " @ "@ + left + "\n"@
                + ("+++ "@ + d[i].0 + " @ "@ + right + "\n"@) + d[i].1,
    ensures
        d.len() > 0 ==> shown_diff(d, left, right) == parts.flatten(),
        d.len() == 0 ==> shown_diff(d, left, right) == "(identical)\n"@,
{
    lemma_shown_files(d, left, right, d.len() as int, parts);
    assert(parts.take(parts.len() as int) =~= parts);
}

/// Two versions of one skill are compared: the names before the first at-sign have to be the
/// same, and both versions have to be there.
pub proof fn law_versions_of_one_skill_are_compared(
    a: Seq<char>,
    v: Seq<char>,
    b: Seq<char>,
    w: Seq<char>,
)
    requires
        lacks(a, '@'),
        lacks(b, '@'),
    ensures
        same_skill(a + "@"@ + v, b + "@"@ + w) == (if a == b {
            Some((a, v, w))
        } else {
            None
        }),
        same_skill(a, b + "@"@ + w) is None,
        same_skill(a + "@"@ + v, b) is None,
{
    reveal_strlit("@");
    lemma_cut_first(a, "@"@, v);
    lemma_cut_first(b, "@"@, w);
    lemma_uncut(a, "@"@);
    lemma_uncut(b, "@"@);
}

} // verus!
