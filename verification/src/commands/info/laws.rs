//! How the playbook comes apart, section by section and topic by topic.

use vstd::prelude::*;

use crate::commands::info::{known_topics, topic_texts, unknown_topics};
use crate::commands::info_chunks::{
    bare, chunk_index, chunk_of, chunk_table, marked_section, read_sections, sections_of,
};
use crate::picks::{lemma_picked, positions};
use crate::text::laws::{law_the_first_place_is_found, stands_in};
use crate::text::{
    ascii_lower, ascii_upper, drop_trailing, find_first, full_lines, has_prefix, trimmed, CharClass,
};

verus! {

/// A line starts a section: it starts with three equals signs.
pub open spec fn starts_section(line: Seq<char>) -> bool {
    let t = drop_trailing(line, CharClass::LineEnd);
    t.len() >= 3 && t[0] == '=' && t[1] == '=' && t[2] == '='
}

proof fn lemma_starts(line: Seq<char>)
    ensures
        has_prefix(bare(line), "==="@) <==> starts_section(line),
{
    reveal_strlit("===");
    let t = bare(line);
    if t.len() >= 3 {
        assert(t.take(3)[0] == t[0] && t.take(3)[1] == t[1] && t.take(3)[2] == t[2]);
        if starts_section(line) {
            assert(t.take(3) =~= "==="@);
        }
    }
}

proof fn lemma_sections(lines: Seq<Seq<char>>, n: int, p: spec_fn(Seq<char>) -> bool)
    requires
        0 <= n <= lines.len(),
        forall|x: Seq<char>| #[trigger] p(x) == starts_section(x),
    ensures
        ({
            let s = read_sections(lines, n);
            let all = s.done.push((s.marker, s.text));
            let starts = lines.take(n).filter(p);
            &&& all.len() == starts.len() + 1
            &&& all[0].0.len() == 0
            &&& forall|i: int|
                #![trigger starts[i]]
                0 <= i < starts.len() ==> all[i + 1].0
                    == drop_trailing(starts[i], CharClass::LineEnd) && all[i + 1].1.len()
                    >= starts[i].len() && all[i + 1].1.take(starts[i].len() as int) == starts[i]
        }),
    decreases n,
{
    reveal(Seq::filter);
    if n > 0 {
        lemma_sections(lines, n - 1, p);
        lemma_starts(lines[n - 1]);
        assert(lines.take(n).drop_last() =~= lines.take(n - 1));
        assert(lines.take(n).last() == lines[n - 1]);
        let was = read_sections(lines, n - 1);
        let now = read_sections(lines, n);
        let before = was.done.push((was.marker, was.text));
        let after = now.done.push((now.marker, now.text));
        let old_starts = lines.take(n - 1).filter(p);
        let starts = lines.take(n).filter(p);
        if starts_section(lines[n - 1]) {
            assert(starts =~= old_starts.push(lines[n - 1]));
            assert(now.done =~= before);
            assert forall|i: int|
                #![trigger starts[i]]
                0 <= i < starts.len() implies after[i + 1].0 == drop_trailing(starts[i], CharClass::LineEnd)
                && after[i + 1].1.len() >= starts[i].len() && after[i + 1].1.take(
                starts[i].len() as int,
            ) == starts[i] by {
                if i < old_starts.len() {
                    assert(old_starts[i] == starts[i]);
                    assert(after[i + 1] == before[i + 1]);
                } else {
                    assert(after[i + 1] == (bare(lines[n - 1]), lines[n - 1]));
                    assert(lines[n - 1].take(lines[n - 1].len() as int) =~= lines[n - 1]);
                }
            }
        } else {
            assert(starts =~= old_starts);
            assert(now.done == was.done);
            assert forall|i: int|
                #![trigger starts[i]]
                0 <= i < starts.len() implies after[i + 1].0 == drop_trailing(starts[i], CharClass::LineEnd)
                && after[i + 1].1.len() >= starts[i].len() && after[i + 1].1.take(
                starts[i].len() as int,
            ) == starts[i] by {
                assert(old_starts[i] == starts[i]);
                if i + 1 < before.len() - 1 {
                    assert(after[i + 1] == before[i + 1]);
                } else {
                    assert(after[i + 1].1 == was.text + lines[n - 1]);
                    assert(before[i + 1].1 == was.text);
                    assert(after[i + 1].1.take(starts[i].len() as int) =~= was.text.take(
                        starts[i].len() as int,
                    ));
                }
            }
        }
    } else {
        assert(lines.take(0).filter(p) =~= seq![]);
    }
}

/// Every line that starts with three equals signs starts a section of its own, marked with
/// the line and starting with it; what stands before the first of them is a section too.
pub proof fn law_each_heading_starts_a_section(text: Seq<char>)
    ensures
        ({
            let starts = full_lines(text).filter(|x: Seq<char>| starts_section(x));
            let all = sections_of(text);
            &&& all.len() == starts.len() + 1
            &&& all[0].0.len() == 0
            &&& forall|i: int|
                #![trigger starts[i]]
                0 <= i < starts.len() ==> all[i + 1].0
                    == drop_trailing(starts[i], CharClass::LineEnd) && all[i + 1].1.len()
                    >= starts[i].len() && all[i + 1].1.take(starts[i].len() as int) == starts[i]
        }),
{
    let p = |x: Seq<char>| starts_section(x);
    let lines = full_lines(text);
    lemma_sections(lines, lines.len() as int, p);
    assert(lines.take(lines.len() as int) =~= lines);
}

/// A heading holds a marker, in either case of letters.
pub open spec fn is_marked(heading: Seq<char>, marker: Seq<char>) -> bool {
    exists|i: int| #[trigger] stands_in(ascii_upper(heading), ascii_upper(marker), i)
}

proof fn lemma_marked(heading: Seq<char>, marker: Seq<char>)
    ensures
        find_first(ascii_upper(heading), ascii_upper(marker)) is Some <==> is_marked(
            heading,
            marker,
        ),
{
    law_the_first_place_is_found(ascii_upper(heading), ascii_upper(marker));
}

proof fn lemma_section(
    s: Seq<(Seq<char>, Seq<char>)>,
    marker: Seq<char>,
    from: int,
    k: int,
)
    requires
        0 <= from <= k < s.len(),
        is_marked(s[k].0, marker),
        forall|i: int| from <= i < k ==> !is_marked((#[trigger] s[i]).0, marker),
    ensures
        marked_section(s, marker, from) == Some(s[k].1),
    decreases k - from,
{
    lemma_marked(s[from].0, marker);
    if from < k {
        lemma_section(s, marker, from + 1, k);
    }
}

proof fn lemma_no_section(s: Seq<(Seq<char>, Seq<char>)>, marker: Seq<char>, from: int)
    requires
        0 <= from,
        forall|i: int| from <= i < s.len() ==> !is_marked((#[trigger] s[i]).0, marker),
    ensures
        marked_section(s, marker, from) is None,
    decreases s.len() - from,
{
    if from < s.len() {
        lemma_marked(s[from].0, marker);
        lemma_no_section(s, marker, from + 1);
    }
}

proof fn lemma_chunk(slug: Seq<char>, from: int, k: int)
    requires
        0 <= from <= k < chunk_table().len(),
        ascii_lower(chunk_table()[k].slug) == ascii_lower(slug),
        forall|i: int|
            from <= i < k ==> ascii_lower((#[trigger] chunk_table()[i]).slug) != ascii_lower(slug),
    ensures
        chunk_index(slug, from) == Some(k),
    decreases k - from,
{
    if from < k {
        lemma_chunk(slug, from + 1, k);
    }
}

proof fn lemma_no_chunk(slug: Seq<char>, from: int)
    requires
        0 <= from,
        forall|i: int|
            from <= i < chunk_table().len() ==> ascii_lower((#[trigger] chunk_table()[i]).slug)
                != ascii_lower(slug),
    ensures
        chunk_index(slug, from) is None,
    decreases chunk_table().len() - from,
{
    if from < chunk_table().len() {
        lemma_no_chunk(slug, from + 1);
    }
}

/// A topic, named in either case of letters, is the first section whose heading holds the
/// marker of the topic, in either case of letters.
pub proof fn law_a_topic_is_its_first_section(text: Seq<char>, slug: Seq<char>, t: int, k: int)
    requires
        0 <= t < chunk_table().len(),
        ascii_lower(chunk_table()[t].slug) == ascii_lower(slug),
        forall|i: int|
            0 <= i < t ==> ascii_lower((#[trigger] chunk_table()[i]).slug) != ascii_lower(slug),
        chunk_table()[t].marker.len() > 0,
        0 <= k < sections_of(text).len(),
        is_marked(sections_of(text)[k].0, chunk_table()[t].marker),
        forall|i: int|
            0 <= i < k ==> !is_marked(
                (#[trigger] sections_of(text)[i]).0,
                chunk_table()[t].marker,
            ),
    ensures
        chunk_of(text, slug) == Some(sections_of(text)[k].1),
{
    lemma_chunk(slug, 0, t);
    lemma_section(sections_of(text), chunk_table()[t].marker, 0, k);
}

/// A topic without a section is not there, and neither is one that no topic is called.
pub proof fn law_topics_without_a_section_are_unknown(text: Seq<char>, slug: Seq<char>)
    requires
        forall|t: int|
            0 <= t < chunk_table().len() && ascii_lower((#[trigger] chunk_table()[t]).slug)
                == ascii_lower(slug) ==> chunk_table()[t].marker.len() > 0 && forall|i: int|
                0 <= i < sections_of(text).len() ==> !is_marked(
                    (#[trigger] sections_of(text)[i]).0,
                    chunk_table()[t].marker,
                ),
    ensures
        chunk_of(text, slug) is None,
{
    if chunk_index(slug, 0) is Some {
        lemma_index(slug, 0);
        let t = chunk_index(slug, 0)->0;
        assert(ascii_lower(chunk_table()[t].slug) == ascii_lower(slug));
        lemma_no_section(sections_of(text), chunk_table()[t].marker, 0);
    }
}

proof fn lemma_index(slug: Seq<char>, from: int)
    requires
        0 <= from,
    ensures
        chunk_index(slug, from) matches Some(t) ==> from <= t < chunk_table().len() && ascii_lower(
            chunk_table()[t].slug,
        ) == ascii_lower(slug),
    decreases chunk_table().len() - from,
{
    if from < chunk_table().len() {
        lemma_index(slug, from + 1);
    }
}

/// The topic without a marker is what stands before the first heading, unless that is blank.
pub proof fn law_the_overview_is_the_start(text: Seq<char>, slug: Seq<char>)
    requires
        ascii_lower(slug) == ascii_lower("overview"@),
    ensures
        chunk_of(text, slug) == (if trimmed(sections_of(text)[0].1).len() > 0 {
            Some(sections_of(text)[0].1)
        } else {
            None
        }),
{
    reveal_strlit("");
    law_each_heading_starts_a_section(text);
    assert(chunk_table()[0].slug == "overview"@);
    lemma_chunk(slug, 0, 0);
}

proof fn lemma_topics(
    text: Seq<char>,
    topics: Seq<Seq<char>>,
    n: int,
    p: spec_fn(Seq<char>) -> bool,
    q: spec_fn(Seq<char>) -> bool,
)
    requires
        0 <= n <= topics.len(),
        forall|x: Seq<char>| #[trigger] p(x) == (chunk_of(text, x) is Some),
        forall|x: Seq<char>| #[trigger] q(x) == (chunk_of(text, x) is None),
    ensures
        known_topics(text, topics, n) == topics.take(n).filter(p),
        unknown_topics(text, topics, n) == topics.take(n).filter(q),
    decreases n,
{
    reveal(Seq::filter);
    if n > 0 {
        lemma_topics(text, topics, n - 1, p, q);
        assert(topics.take(n).drop_last() =~= topics.take(n - 1));
        assert(topics.take(n).last() == topics[n - 1]);
    } else {
        assert(topics.take(0).filter(p) =~= seq![]);
        assert(topics.take(0).filter(q) =~= seq![]);
    }
}

/// The topics that are there are told as known and the others as unknown, each in order.
pub proof fn law_topics_are_known_where_they_are_there(text: Seq<char>, topics: Seq<Seq<char>>)
    ensures
        known_topics(text, topics, topics.len() as int) == topics.filter(
            |x: Seq<char>| chunk_of(text, x) is Some,
        ),
        unknown_topics(text, topics, topics.len() as int) == topics.filter(
            |x: Seq<char>| chunk_of(text, x) is None,
        ),
{
    let p = |x: Seq<char>| chunk_of(text, x) is Some;
    let q = |x: Seq<char>| chunk_of(text, x) is None;
    lemma_topics(text, topics, topics.len() as int, p, q);
    assert(topics.take(topics.len() as int) =~= topics);
}

proof fn lemma_topic_texts(
    text: Seq<char>,
    topics: Seq<Seq<char>>,
    n: int,
    f: spec_fn(int) -> Option<Seq<char>>,
)
    requires
        0 <= n <= topics.len(),
        forall|i: int| #[trigger]
            f(i) == (match chunk_of(text, topics[i]) {
                Some(t) => Some(drop_trailing(t, CharClass::White)),
                None => None,
            }),
    ensures
        topic_texts(text, topics, n) == positions(n).filter_map(f),
    decreases n,
{
    lemma_picked(n, f);
    if n > 0 {
        lemma_topic_texts(text, topics, n - 1, f);
    }
}

/// The text of every topic that is there is told, without the white space at its end, in
/// the order in which the topics are asked for.
pub proof fn law_every_topic_asked_for_is_told(text: Seq<char>, topics: Seq<Seq<char>>)
    ensures
        topic_texts(text, topics, topics.len() as int) == positions(topics.len() as int).filter_map(
            |i: int|
                match chunk_of(text, topics[i]) {
                    Some(t) => Some(drop_trailing(t, CharClass::White)),
                    None => None,
                },
        ),
{
    let f = |i: int|
        match chunk_of(text, topics[i]) {
            Some(t) => Some(drop_trailing(t, CharClass::White)),
            None => None,
        };
    lemma_topic_texts(text, topics, topics.len() as int, f);
}

} // verus!
