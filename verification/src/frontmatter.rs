//! The block of YAML at the head of a Markdown file: it stands between a line that
//! starts with `---` and a line that is `---` or `...`.

use vstd::prelude::*;

use crate::errors::{prefixed, CliError, ErrorView};
use crate::text::{
    chars_of, drop_leading, drop_trailing, find_chars_from, find_first, find_from, has_prefix,
    lemma_drop_leading_skips, lemma_drop_trailing_is_take, lemma_drop_trailing_takes,
    lemma_find_from, lemma_find_from_is, newline, occurs_at, opt_str_view, same, starts_with,
    trim_end, trim_start, CharClass,
};

pub mod laws;

verus! {

/// The line closes the block.
pub open spec fn is_fence(line: Seq<char>) -> bool {
    let t = drop_trailing(line, CharClass::LineEnd);
    t == "---"@ || t == "..."@
}

/// Where the line that starts at `from` ends, its line feed included.
pub open spec fn line_end(s: Seq<char>, from: int) -> int {
    match find_from(s, newline(), from) {
        Some(i) => i + 1,
        None => s.len() as int,
    }
}

/// The start and the end of the first line that closes a block, among the lines
/// from the one that starts at `from` on.
pub open spec fn fence_from(s: Seq<char>, from: int) -> Option<(int, int)>
    decreases s.len() - from,
{
    if from < 0 || from >= s.len() {
        None
    } else {
        let end = line_end(s, from);
        proof {
            lemma_find_from(s, newline(), from);
        }
        if is_fence(s.subrange(from, end)) {
            Some((from, end))
        } else {
            fence_from(s, end)
        }
    }
}

/// The start and the end of the first line that closes a block.
pub fn find_fence(s: &str) -> (r: Option<(usize, usize)>)
    ensures
        match r {
            Some((a, b)) => fence_from(s@, 0) == Some((a as int, b as int)) && a <= b <= s@.len(),
            None => fence_from(s@, 0) is None,
        },
{
    let v = chars_of(s);
    let nl = ['\n'];
    assert(nl@ =~= newline());
    let mut from: usize = 0;
    while from < v.len()
        invariant
            from <= v.len(),
            v@ == s@,
            nl@ == newline(),
            fence_from(s@, 0) == fence_from(s@, from as int),
        decreases v.len() - from,
    {
        let end: usize = match find_chars_from(v.as_slice(), nl.as_slice(), from) {
            Some(i) => {
                proof {
                    lemma_find_from(s@, newline(), from as int);
                }
                i + 1
            },
            None => v.len(),
        };
        assert(end == line_end(s@, from as int));
        let line = trim_end(s.substring_char(from, end), CharClass::LineEnd);
        if same(line, "---") || same(line, "...") {
            return Some((from, end));
        }
        from = end;
    }
    None
}

/// Where the line behind the opening one starts, in a text that opens a block.
pub open spec fn after_opening(t: Seq<char>) -> Option<int> {
    if !has_prefix(t, "---"@) {
        None
    } else {
        match find_first(t, newline()) {
            Some(i) => Some(i + 1),
            None => None,
        }
    }
}

fn find_after_opening(t: &str) -> (r: Option<usize>)
    ensures
        match r {
            Some(i) => after_opening(t@) == Some(i as int) && i <= t@.len(),
            None => after_opening(t@) is None,
        },
{
    if !starts_with(t, "---") {
        return None;
    }
    let n: usize = t.unicode_len();
    proof {
        reveal_strlit("\n");
        assert("\n"@ =~= newline());
    }
    match crate::text::find(t, "\n") {
        Some(i) => if i < n {
            Some(i + 1)
        } else {
            None
        },
        None => None,
    }
}

/// The YAML between the fences. A byte order mark and blank lines may stand
/// before it. A text without both fences has none.
pub open spec fn frontmatter(md: Seq<char>) -> Option<Seq<char>> {
    let t = drop_leading(drop_leading(md, CharClass::One('\u{feff}')), CharClass::White);
    match after_opening(t) {
        None => None,
        Some(i) => match fence_from(t.skip(i), 0) {
            Some((start, _)) => Some(t.skip(i).take(start)),
            None => None,
        },
    }
}

/// The YAML between the fences.
pub fn frontmatter_block<'a>(md: &'a str) -> (r: Option<&'a str>)
    ensures
        opt_str_view(r) == frontmatter(md@),
{
    let t = trim_start(trim_start(md, CharClass::One('\u{feff}')), CharClass::White);
    match find_after_opening(t) {
        None => None,
        Some(i) => {
            let rest = t.substring_char(i, t.unicode_len());
            assert(rest@ =~= t@.skip(i as int));
            match find_fence(rest) {
                Some((start, _)) => Some(rest.substring_char(0, start)),
                None => None,
            }
        },
    }
}

/// A file in two: the block with its fences, and what follows. The block is empty
/// where there is none.
pub open spec fn split_doc(md: Seq<char>) -> (Seq<char>, Seq<char>) {
    let t = drop_leading(md, CharClass::One('\u{feff}'));
    match after_opening(t) {
        None => (seq![], t),
        Some(i) => match fence_from(t.skip(i), 0) {
            Some((_, end)) => (
                drop_trailing(t.take(i + end), CharClass::LineEnd),
                drop_leading(t.skip(i + end), CharClass::LineEnd),
            ),
            None => (seq![], t),
        },
    }
}

/// A file in two: the block with its fences, without line ends behind it, and what
/// follows, without line ends before it. A byte order mark is dropped.
pub fn split_frontmatter(md: &str) -> (r: (String, String))
    ensures
        (r.0@, r.1@) == split_doc(md@),
{
    let t = trim_start(md, CharClass::One('\u{feff}'));
    let n: usize = t.unicode_len();
    match find_after_opening(t) {
        None => {
            let none = String::new();
            assert(none@ =~= seq![]);
            (none, t.to_owned())
        },
        Some(i) => {
            let rest = t.substring_char(i, n);
            assert(rest@ =~= t@.skip(i as int));
            match find_fence(rest) {
                Some((_, end)) => {
                    let head = trim_end(t.substring_char(0, i + end), CharClass::LineEnd);
                    let body = trim_start(t.substring_char(i + end, n), CharClass::LineEnd);
                    assert(t@.subrange(0, i + end) =~= t@.take(i + end));
                    assert(t@.subrange(i + end, n as int) =~= t@.skip(i + end));
                    (head.to_owned(), body.to_owned())
                },
                None => {
                    let none = String::new();
                    assert(none@ =~= seq![]);
                    (none, t.to_owned())
                },
            }
        },
    }
}

/// The start of the line that closes a block.
spec fn fence_at(s: Seq<char>, from: int) -> int {
    match fence_from(s, from) {
        Some((a, _)) => a,
        None => 0,
    }
}

/// The line that closes a block is what its name says.
pub proof fn lemma_fence(s: Seq<char>, from: int)
    requires
        0 <= from,
    ensures
        fence_from(s, from) matches Some((a, b)) ==> {
            &&& from <= a && a + 3 <= b <= s.len()
            &&& b == line_end(s, a)
            &&& is_fence(s.subrange(a, b))
            &&& drop_trailing(s.subrange(a, b), CharClass::LineEnd) == s.subrange(a, a + 3)
            &&& !CharClass::LineEnd.holds(s[a]) && !CharClass::LineEnd.holds(s[a + 1])
            &&& !CharClass::LineEnd.holds(s[a + 2])
        },
    decreases s.len() - from,
{
    if from < s.len() {
        lemma_find_from(s, newline(), from);
        let end = line_end(s, from);
        let line = s.subrange(from, end);
        if is_fence(line) {
            reveal_strlit("---");
            reveal_strlit("...");
            lemma_drop_trailing_is_take(line, CharClass::LineEnd);
            let t = drop_trailing(line, CharClass::LineEnd);
            assert(t.len() == 3);
            assert(line.take(3) =~= s.subrange(from, from + 3));
            assert(t[0] == s[from] && t[1] == s[from + 1] && t[2] == s[from + 2]);
        } else {
            lemma_fence(s, end);
        }
    }
}

/// A text that is the same up to the closing line, where it has a line feed, is closed by
/// the same line.
proof fn lemma_same_fence(s: Seq<char>, w: Seq<char>, from: int)
    requires
        0 <= from,
        fence_from(s, from) is Some,
        ({
            let a = fence_at(s, from);
            &&& w.len() > a + 3
            &&& w[a + 3] == '\n'
            &&& forall|j: int| 0 <= j < a + 3 ==> w[j] == s[j]
        }),
    ensures
        fence_from(w, from) == Some((fence_at(s, from), fence_at(s, from) + 4)),
    decreases s.len() - from,
{
    lemma_fence(s, from);
    lemma_find_from(s, newline(), from);
    let a = fence_at(s, from);
    let end = line_end(s, from);
    let line = s.subrange(from, end);
    if is_fence(line) {
        assert(a == from);
        assert(w.subrange(a + 3, a + 4) =~= newline());
        assert forall|j: int| a <= j < a + 3 implies !#[trigger] occurs_at(w, newline(), j) by {
            if occurs_at(w, newline(), j) {
                assert(w.subrange(j, j + 1)[0] == w[j]);
                assert(w[j] == s[j]);
            }
        }
        lemma_find_from_is(w, newline(), a, a + 3);
        let l = w.subrange(a, a + 4);
        lemma_drop_trailing_takes(l, CharClass::LineEnd, 3);
        assert(l.take(3) =~= s.subrange(a, a + 3));
    } else {
        lemma_fence(s, end);
        assert(end <= a);
        assert(s.subrange(end - 1, end)[0] == s[end - 1]);
        assert(w.subrange(end - 1, end) =~= newline());
        assert forall|j: int| from <= j < end - 1 implies !#[trigger] occurs_at(w, newline(), j) by {
            if occurs_at(w, newline(), j) {
                assert(w.subrange(j, j + 1)[0] == w[j]);
                assert(s.subrange(j, j + 1) =~= newline());
                assert(occurs_at(s, newline(), j));
            }
        }
        lemma_find_from_is(w, newline(), from, end - 1);
        assert(w.subrange(from, end) =~= line);
        lemma_same_fence(s, w, end);
    }
}

/// A text that is put behind a block and a blank line is what follows the block, and the
/// block stays as it was.
pub proof fn law_block_stays_at_the_head(md: Seq<char>, rest: Seq<char>)
    requires
        split_doc(md).0.len() > 0,
        rest.len() > 0,
        !CharClass::LineEnd.holds(rest[0]),
    ensures
        split_doc(split_doc(md).0 + seq!['\n', '\n'] + rest) == (split_doc(md).0, rest),
{
    reveal_strlit("---");
    let t = drop_leading(md, CharClass::One('\u{feff}'));
    let i = after_opening(t)->0;
    let s = t.skip(i);
    let (a, b) = fence_from(s, 0)->0;
    lemma_find_from(t, newline(), 0);
    assert(t.subrange(i - 1, i)[0] == t[i - 1]);
    lemma_fence(s, 0);
    let u = t.take(i + b);
    let head = split_doc(md).0;
    let k = i + a + 3;
    // The block ends with the three characters of the closing line.
    let line = s.subrange(a, b);
    assert(u.skip(i + a) =~= line);
    lemma_tail_dropped(u, i + a);
    assert(head == t.take(k)) by {
        assert(drop_trailing(line, CharClass::LineEnd).len() == 3);
        assert(u.take(k) =~= t.take(k));
    }
    let w = head + seq!['\n', '\n'] + rest;
    assert(t.take(3) =~= "---"@);
    assert(t[0] == t.take(3)[0] && t[1] == t.take(3)[1] && t[2] == t.take(3)[2]);
    assert(w[0] == '-');
    assert(drop_leading(w, CharClass::One('\u{feff}')) == w);
    assert(w.take(3) =~= "---"@);
    // The same opening line.
    assert(w.subrange(i - 1, i) =~= newline());
    assert forall|j: int| 0 <= j < i - 1 implies !#[trigger] occurs_at(w, newline(), j) by {
        if occurs_at(w, newline(), j) {
            assert(w.subrange(j, j + 1)[0] == w[j]);
            assert(t.subrange(j, j + 1) =~= newline());
            assert(occurs_at(t, newline(), j));
        }
    }
    lemma_find_from_is(w, newline(), 0, i - 1);
    assert(after_opening(w) == Some(i));
    // The same closing line.
    let v = w.skip(i);
    assert forall|j: int| 0 <= j < a + 3 implies v[j] == s[j] by {
        assert(v[j] == w[i + j]);
    }
    lemma_same_fence(s, v, 0);
    let x = w.take(i + a + 4);
    assert(x =~= head.push('\n'));
    lemma_drop_trailing_is_take(u, CharClass::LineEnd);
    lemma_drop_trailing_takes(x, CharClass::LineEnd, k);
    assert(x.take(k) =~= head);
    let y = w.skip(i + a + 4);
    assert(y =~= seq!['\n'] + rest);
    lemma_drop_leading_skips(y, CharClass::LineEnd, 1);
    assert(y.skip(1) =~= rest);
}

/// What is dropped from the end of a text is dropped from the end of its last part, where
/// something of that is left.
proof fn lemma_tail_dropped(s: Seq<char>, from: int)
    requires
        0 <= from <= s.len(),
        drop_trailing(s.skip(from), CharClass::LineEnd).len() > 0,
    ensures
        drop_trailing(s, CharClass::LineEnd) == s.take(
            from + drop_trailing(s.skip(from), CharClass::LineEnd).len(),
        ),
    decreases s.len(),
{
    let p = s.skip(from);
    if CharClass::LineEnd.holds(p.last()) {
        assert(s.drop_last().skip(from) =~= p.drop_last());
        lemma_tail_dropped(s.drop_last(), from);
        let n = from + drop_trailing(p, CharClass::LineEnd).len();
        lemma_drop_trailing_is_take(p.drop_last(), CharClass::LineEnd);
        assert(s.drop_last().take(n) =~= s.take(n));
    } else {
        assert(s.take(s.len() as int) =~= s);
    }
}

/// The part of a skill's frontmatter that is read.
#[derive(Debug, Clone)]
pub struct SkillFrontmatter {
    pub name: Option<String>,
    pub description: Option<String>,
}

impl Default for SkillFrontmatter {
    fn default() -> (r: SkillFrontmatter)
        ensures
            r.name is None,
            r.description is None,
    {
        SkillFrontmatter { name: None, description: None }
    }
}

/// What a skill's file says of it, by what its block says: nothing where there is
/// no block, and an error where the block is no YAML of that shape.
pub fn parse_skill_md_frontmatter(block: Option<Result<SkillFrontmatter, String>>) -> (r: Result<
    Option<SkillFrontmatter>,
    CliError,
>)
    ensures
        match block {
            None => r is Ok && r->Ok_0 is None,
            Some(Ok(f)) => r is Ok && r->Ok_0 == Some(f),
            Some(Err(e)) => r is Err && r->Err_0@ == ErrorView::Internal(
                "SKILL.md frontmatter parse: "@ + e@,
            ),
        },
{
    match block {
        None => Ok(None),
        Some(Ok(f)) => Ok(Some(f)),
        Some(Err(e)) => Err(
            CliError::Internal(prefixed("SKILL.md frontmatter parse: ", e.as_str())),
        ),
    }
}

} // verus!
