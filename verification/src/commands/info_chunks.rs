//! The playbook for agents, in sections that can be asked for by name.
//!
//! Sections start at lines that begin with `===`. Such a marker that is indented
//! starts none, so that a section stays whole. The text before the first marker
//! is the overview.

use vstd::prelude::*;

use crate::text::{
    ascii_lower, ascii_upper, contains, drop_trailing, find_first, full_lines, has_prefix,
    lemma_first_line, lines_of, one_line, opt_view, pad_right, padded_right, same_ignoring_case, slice_views, split_lines,
    starts_with, strung, to_ascii_upper, trim, trim_end, trimmed, without_cr, CharClass,
};

verus! {

/// A section of the playbook.
#[derive(Debug, Clone, Copy)]
pub struct Chunk {
    /// The name under which it is asked for. It is never changed.
    pub slug: &'static str,
    /// What its marker line has in it, in any case; nothing for the overview.
    pub marker: &'static str,
    /// What the table of contents says of it.
    pub blurb: &'static str,
}

pub ghost struct ChunkView {
    pub slug: Seq<char>,
    pub marker: Seq<char>,
    pub blurb: Seq<char>,
}

impl View for Chunk {
    type V = ChunkView;

    open spec fn view(&self) -> ChunkView {
        ChunkView { slug: self.slug@, marker: self.marker@, blurb: self.blurb@ }
    }
}

/// The sections, in order.
pub open spec fn chunk_table() -> Seq<ChunkView> {
    seq![
        ChunkView { slug: "overview"@, marker: ""@, blurb: "What knack is, install-step framing, how to read the playbook."@ },
        ChunkView { slug: "persistence"@, marker: "ABOUT PERSISTENCE"@, blurb: "How the meta-skill persists; ephemeral vs durable environments."@ },
        ChunkView { slug: "setup"@, marker: "PART ONE: SETUP"@, blurb: "Install the CLI: paths, sandboxes, no-sudo (PART ONE)."@ },
        ChunkView { slug: "brief"@, marker: "BRIEF THE USER"@, blurb: "First-time framing to give the user before starting."@ },
        ChunkView { slug: "interview"@, marker: "CONDUCTING THE INTERVIEW"@, blurb: "The interview: Genesis, Artifacts, Intuition, Dry Run (PART TWO)."@ },
        ChunkView { slug: "authoring"@, marker: "PART THREE: AUTHORING"@, blurb: "Turn the interview into a SKILL.md + assets (PART THREE)."@ },
        ChunkView { slug: "publishing"@, marker: "PART FOUR: PUBLISHING"@, blurb: "Publish, version, validate (PART FOUR)."@ },
        ChunkView { slug: "iterating"@, marker: "PART FIVE: ITERATING"@, blurb: "Revise and re-publish; analyze runs (PART FIVE)."@ },
        ChunkView { slug: "running"@, marker: "RUNNING THE SKILL"@, blurb: "pull -> run -> mark; inputs; run analytics (PART SIX)."@ },
        ChunkView { slug: "sharing"@, marker: "SHARING + DISCOVERY"@, blurb: "Marketplace, usernames, forking, teams (PART SEVEN)."@ },
        ChunkView { slug: "rules"@, marker: "=== RULES ==="@, blurb: "Hard constraints the agent must follow."@ },
        ChunkView { slug: "updating"@, marker: "=== UPDATING ==="@, blurb: "Upgrade the CLI."@ },
        ChunkView { slug: "uninstall"@, marker: "=== UNINSTALL ==="@, blurb: "Remove knack cleanly."@ },
    ]
}

pub open spec fn chunk_views(v: Seq<Chunk>) -> Seq<ChunkView> {
    Seq::new(v.len(), |i: int| v[i]@)
}

/// The sections, in order.
pub fn chunks() -> (r: Vec<Chunk>)
    ensures
        chunk_views(r@) == chunk_table(),
{
    let mut r: Vec<Chunk> = Vec::new();
    r.push(Chunk { slug: "overview", marker: "", blurb: "What knack is, install-step framing, how to read the playbook." });
    r.push(Chunk { slug: "persistence", marker: "ABOUT PERSISTENCE", blurb: "How the meta-skill persists; ephemeral vs durable environments." });
    r.push(Chunk { slug: "setup", marker: "PART ONE: SETUP", blurb: "Install the CLI: paths, sandboxes, no-sudo (PART ONE)." });
    r.push(Chunk { slug: "brief", marker: "BRIEF THE USER", blurb: "First-time framing to give the user before starting." });
    r.push(Chunk { slug: "interview", marker: "CONDUCTING THE INTERVIEW", blurb: "The interview: Genesis, Artifacts, Intuition, Dry Run (PART TWO)." });
    r.push(Chunk { slug: "authoring", marker: "PART THREE: AUTHORING", blurb: "Turn the interview into a SKILL.md + assets (PART THREE)." });
    r.push(Chunk { slug: "publishing", marker: "PART FOUR: PUBLISHING", blurb: "Publish, version, validate (PART FOUR)." });
    r.push(Chunk { slug: "iterating", marker: "PART FIVE: ITERATING", blurb: "Revise and re-publish; analyze runs (PART FIVE)." });
    r.push(Chunk { slug: "running", marker: "RUNNING THE SKILL", blurb: "pull -> run -> mark; inputs; run analytics (PART SIX)." });
    r.push(Chunk { slug: "sharing", marker: "SHARING + DISCOVERY", blurb: "Marketplace, usernames, forking, teams (PART SEVEN)." });
    r.push(Chunk { slug: "rules", marker: "=== RULES ===", blurb: "Hard constraints the agent must follow." });
    r.push(Chunk { slug: "updating", marker: "=== UPDATING ===", blurb: "Upgrade the CLI." });
    r.push(Chunk { slug: "uninstall", marker: "=== UNINSTALL ===", blurb: "Remove knack cleanly." });
    assert(chunk_views(r@) =~= chunk_table());
    r
}

/// The names of all sections.
pub fn slugs() -> (r: Vec<&'static str>)
    ensures
        slice_views(r@) == Seq::new(chunk_table().len(), |i: int| chunk_table()[i].slug),
{
    let all = chunks();
    let ghost table = chunk_table();
    let mut r: Vec<&'static str> = Vec::new();
    let mut i: usize = 0;
    while i < all.len()
        invariant
            i <= all.len(),
            chunk_views(all@) == table,
            r@.len() == i,
            forall|j: int| 0 <= j < i ==> (#[trigger] r@[j])@ == table[j].slug,
        decreases all.len() - i,
    {
        assert(table[i as int] == all@[i as int]@);
        r.push(all[i].slug);
        i += 1;
    }
    assert(chunk_views(all@).len() == all@.len());
    assert(slice_views(r@) =~= Seq::new(table.len(), |i: int| table[i].slug));
    r
}

// ---------------------------------------------------------------------------
// Sections
// ---------------------------------------------------------------------------

/// A section while it is read: those that are complete, each with its marker line
/// and its text, and the marker line and the text of the one that is not.
#[verifier::ext_equal]
pub ghost struct Sections {
    pub done: Seq<(Seq<char>, Seq<char>)>,
    pub marker: Seq<char>,
    pub text: Seq<char>,
}

/// The line without its line end.
pub open spec fn bare(line: Seq<char>) -> Seq<char> {
    drop_trailing(line, CharClass::LineEnd)
}

/// The sections of the first `n` lines.
pub open spec fn read_sections(lines: Seq<Seq<char>>, n: int) -> Sections
    decreases n,
{
    if n <= 0 {
        Sections { done: seq![], marker: seq![], text: seq![] }
    } else {
        let s = read_sections(lines, n - 1);
        let line = lines[n - 1];
        if has_prefix(bare(line), "==="@) {
            Sections { done: s.done.push((s.marker, s.text)), marker: bare(line), text: line }
        } else {
            Sections { text: s.text + line, ..s }
        }
    }
}

/// The sections of a text, each with its marker line and its text. The first has no
/// marker: it is what stands before the first one.
pub open spec fn sections_of(text: Seq<char>) -> Seq<(Seq<char>, Seq<char>)> {
    let lines = full_lines(text);
    let s = read_sections(lines, lines.len() as int);
    s.done.push((s.marker, s.text))
}

pub open spec fn section_views(v: Seq<(String, String)>) -> Seq<(Seq<char>, Seq<char>)> {
    Seq::new(v.len(), |i: int| (v[i].0@, v[i].1@))
}

/// The sections of a text, each with its marker line and its text.
pub fn split_sections(text: &str) -> (r: Vec<(String, String)>)
    ensures
        section_views(r@) == sections_of(text@),
{
    let all = split_lines(text);
    let ghost lines = full_lines(text@);
    let mut done: Vec<(String, String)> = Vec::new();
    let mut marker = String::new();
    let mut cur = String::new();
    let mut i: usize = 0;
    proof {
        assert(section_views(done@) =~= seq![]);
        assert(marker@ =~= seq![]);
        assert(cur@ =~= seq![]);
        assert(lines.len() == all@.len());
    }
    while i < all.len()
        invariant
            i <= all.len(),
            slice_views(all@) == lines,
            lines.len() == all@.len(),
            read_sections(lines, i as int) == (Sections {
                done: section_views(done@),
                marker: marker@,
                text: cur@,
            }),
        decreases all.len() - i,
    {
        let line = all[i];
        assert(lines[i as int] == line@);
        let b = trim_end(line, CharClass::LineEnd);
        if starts_with(b, "===") {
            let ghost was = section_views(done@);
            let ghost one = (marker@, cur@);
            done.push((marker, cur));
            assert(section_views(done@) =~= was.push(one));
            cur = line.to_owned();
            marker = b.to_owned();
        } else {
            cur.append(line);
        }
        i += 1;
    }
    let ghost was = section_views(done@);
    let ghost one = (marker@, cur@);
    done.push((marker, cur));
    assert(section_views(done@) =~= was.push(one));
    done
}

/// The texts of sections.
pub open spec fn section_texts(s: Seq<(Seq<char>, Seq<char>)>) -> Seq<Seq<char>> {
    Seq::new(s.len(), |i: int| s[i].1)
}

proof fn lemma_sections_cover(lines: Seq<Seq<char>>, n: int)
    requires
        0 <= n <= lines.len(),
    ensures
        ({
            let s = read_sections(lines, n);
            strung(section_texts(s.done), s.done.len() as int) + s.text == strung(lines, n)
        }),
    decreases n,
{
    let s = read_sections(lines, n);
    if n > 0 {
        lemma_sections_cover(lines, n - 1);
        let p = read_sections(lines, n - 1);
        let line = lines[n - 1];
        if has_prefix(bare(line), "==="@) {
            lemma_strung_prefix(section_texts(p.done), section_texts(s.done), p.done.len() as int);
            assert(section_texts(s.done)[p.done.len() as int] == p.text);
        } else {
            assert(strung(section_texts(s.done), s.done.len() as int) + s.text =~= strung(
                section_texts(p.done),
                p.done.len() as int,
            ) + p.text + line);
        }
    } else {
        assert(strung(section_texts(s.done), 0) + s.text =~= seq![]);
    }
}

proof fn lemma_strung_prefix(a: Seq<Seq<char>>, b: Seq<Seq<char>>, n: int)
    requires
        0 <= n <= a.len(),
        n <= b.len(),
        forall|i: int| 0 <= i < n ==> a[i] == b[i],
    ensures
        strung(a, n) == strung(b, n),
    decreases n,
{
    if n > 0 {
        lemma_strung_prefix(a, b, n - 1);
    }
}

/// Slicing loses nothing: the sections, one behind the other, are the text.
pub proof fn law_sections_make_the_text(text: Seq<char>)
    ensures
        strung(section_texts(sections_of(text)), sections_of(text).len() as int) == text,
{
    let lines = full_lines(text);
    let s = read_sections(lines, lines.len() as int);
    crate::text::law_lines_make_the_text(text);
    lemma_sections_cover(lines, lines.len() as int);
    let all = sections_of(text);
    lemma_strung_prefix(section_texts(s.done), section_texts(all), s.done.len() as int);
    assert(section_texts(all)[s.done.len() as int] == s.text);
}

/// The first section is the one before any marker.
pub proof fn law_first_section_has_no_marker(text: Seq<char>)
    ensures
        sections_of(text).len() > 0,
        sections_of(text)[0].0.len() == 0,
{
    let lines = full_lines(text);
    lemma_first_section(lines, lines.len() as int);
}

proof fn lemma_first_section(lines: Seq<Seq<char>>, n: int)
    requires
        0 <= n <= lines.len(),
    ensures
        ({
            let s = read_sections(lines, n);
            if s.done.len() == 0 {
                s.marker.len() == 0
            } else {
                s.done[0].0.len() == 0
            }
        }),
    decreases n,
{
    if n > 0 {
        lemma_first_section(lines, n - 1);
    }
}

// ---------------------------------------------------------------------------
// One section
// ---------------------------------------------------------------------------

/// The position, from `from` on, of the section with the name, in any case.
pub open spec fn chunk_index(slug: Seq<char>, from: int) -> Option<int>
    decreases chunk_table().len() - from,
{
    if from < 0 || from >= chunk_table().len() {
        None
    } else if ascii_lower(chunk_table()[from].slug) == ascii_lower(slug) {
        Some(from)
    } else {
        chunk_index(slug, from + 1)
    }
}

/// The text of the first section, from the one at `from` on, whose marker line has
/// the text in it, in any case.
pub open spec fn marked_section(
    s: Seq<(Seq<char>, Seq<char>)>,
    marker: Seq<char>,
    from: int,
) -> Option<Seq<char>>
    decreases s.len() - from,
{
    if from < 0 || from >= s.len() {
        None
    } else if find_first(ascii_upper(s[from].0), ascii_upper(marker)) is Some {
        Some(s[from].1)
    } else {
        marked_section(s, marker, from + 1)
    }
}

/// The section with the name.
pub open spec fn chunk_of(text: Seq<char>, slug: Seq<char>) -> Option<Seq<char>> {
    match chunk_index(slug, 0) {
        None => None,
        Some(i) => {
            let marker = chunk_table()[i].marker;
            let s = sections_of(text);
            if marker.len() == 0 {
                if s[0].0.len() == 0 && trimmed(s[0].1).len() > 0 {
                    Some(s[0].1)
                } else {
                    None
                }
            } else {
                marked_section(s, marker, 0)
            }
        },
    }
}

fn find_chunk(slug: &str) -> (r: Option<Chunk>)
    ensures
        match r {
            Some(c) => chunk_index(slug@, 0) matches Some(i) && c@ == chunk_table()[i],
            None => chunk_index(slug@, 0) is None,
        },
{
    let all = chunks();
    let ghost table = chunk_table();
    let mut i: usize = 0;
    assert(chunk_views(all@).len() == all@.len());
    while i < all.len()
        invariant
            i <= all.len(),
            chunk_views(all@) == table,
            table == chunk_table(),
            table.len() == all@.len(),
            chunk_index(slug@, 0) == chunk_index(slug@, i as int),
        decreases all.len() - i,
    {
        assert(table[i as int] == all@[i as int]@);
        if same_ignoring_case(all[i].slug, slug) {
            return Some(all[i]);
        }
        i += 1;
    }
    None
}

/// The section with the name, its marker line included. Nothing where there is no
/// such section.
pub fn chunk(text: &str, slug: &str) -> (r: Option<String>)
    ensures
        opt_view(r) == chunk_of(text@, slug@),
{
    let c = match find_chunk(slug) {
        Some(c) => c,
        None => {
            return None;
        },
    };
    let sections = split_sections(text);
    let ghost s = sections_of(text@);
    proof {
        law_first_section_has_no_marker(text@);
        assert(section_views(sections@).len() == sections@.len());
    }
    if c.marker.is_empty() {
        assert(s[0] == (sections@[0].0@, sections@[0].1@));
        if sections[0].0.as_str().is_empty() && !trim(sections[0].1.as_str()).is_empty() {
            return Some(sections[0].1.clone());
        }
        return None;
    }
    let needle = to_ascii_upper(c.marker);
    let mut i: usize = 0;
    while i < sections.len()
        invariant
            i <= sections.len(),
            section_views(sections@) == s,
            s.len() == sections@.len(),
            needle@ == ascii_upper(c.marker@),
            c.marker@.len() > 0,
            s == sections_of(text@),
            chunk_index(slug@, 0) matches Some(k) && c@ == chunk_table()[k],
            marked_section(s, c.marker@, 0) == marked_section(s, c.marker@, i as int),
        decreases sections.len() - i,
    {
        assert(s[i as int] == (sections@[i as int].0@, sections@[i as int].1@));
        let upper = to_ascii_upper(sections[i].0.as_str());
        if contains(upper.as_str(), needle.as_str()) {
            return Some(sections[i].1.clone());
        }
        i += 1;
    }
    None
}

// ---------------------------------------------------------------------------
// The table of contents
// ---------------------------------------------------------------------------

/// The line of a section in the table of contents.
pub open spec fn toc_line(c: ChunkView) -> Seq<char> {
    "  "@ + padded_right(c.slug, 12) + " "@ + c.blurb + "\n"@
}

pub open spec fn toc_lines() -> Seq<Seq<char>> {
    Seq::new(chunk_table().len(), |i: int| toc_line(chunk_table()[i]))
}

pub open spec fn toc_text() -> Seq<char> {
    "knack playbook sections — pull one (or several) with `knack info <slug> [<slug>...]`:\n\n"@
        + strung(toc_lines(), toc_lines().len() as int)
        + "\n`knack info` with no slug prints the entire playbook.\n"@
}

/// The table of contents.
pub fn toc() -> (r: String)
    ensures
        r@ == toc_text(),
{
    let all = chunks();
    let ghost lines = toc_lines();
    let mut body = String::new();
    let mut i: usize = 0;
    assert(chunk_views(all@).len() == all@.len());
    assert(body@ =~= strung(lines, 0));
    while i < all.len()
        invariant
            i <= all.len(),
            chunk_views(all@) == chunk_table(),
            all@.len() == chunk_table().len(),
            lines == toc_lines(),
            body@ == strung(lines, i as int),
        decreases all.len() - i,
    {
        assert(chunk_table()[i as int] == all@[i as int]@);
        let mut line = "  ".to_owned();
        let slug = pad_right(all[i].slug, 12);
        line.append(slug.as_str());
        line.append(" ");
        line.append(all[i].blurb);
        line.append("\n");
        assert(line@ == lines[i as int]);
        body.append(line.as_str());
        i += 1;
    }
    let mut r =
        "knack playbook sections — pull one (or several) with `knack info <slug> [<slug>...]`:\n\n".to_owned();
    r.append(body.as_str());
    r.append("\n`knack info` with no slug prints the entire playbook.\n");
    r
}

/// What the line of a section holds, without its line feed.
pub open spec fn toc_entry(c: ChunkView) -> Seq<char> {
    "  "@ + padded_right(c.slug, 12) + " "@ + c.blurb
}

/// A text on one line, without a carriage return at its end.
spec fn is_line(s: Seq<char>) -> bool {
    one_line(s) && without_cr(s) == s
}

/// Lines that are strung together are the first lines of the text.
proof fn lemma_lines_strung(entries: Seq<Seq<char>>, lines: Seq<Seq<char>>, n: int, rest: Seq<char>)
    requires
        0 <= n <= lines.len(),
        entries.len() == lines.len(),
        forall|i: int|
            0 <= i < lines.len() ==> is_line(#[trigger] entries[i]) && lines[i] == entries[i].push('\n'),
    ensures
        lines_of(strung(lines, n) + rest) == entries.take(n) + lines_of(rest),
    decreases n,
{
    if n > 0 {
        assert(lines[n - 1] == entries[n - 1].push('\n'));
        let more = lines[n - 1] + rest;
        lemma_lines_strung(entries, lines, n - 1, more);
        assert(strung(lines, n) + rest =~= strung(lines, n - 1) + more);
        lemma_first_line(entries[n - 1], rest);
        assert(entries.take(n - 1) + (seq![entries[n - 1]] + lines_of(rest)) =~= entries.take(n)
            + lines_of(rest));
    } else {
        assert(strung(lines, 0) + rest =~= rest);
        assert(entries.take(0) + lines_of(rest) =~= lines_of(rest));
    }
}

/// The name stands at the front of the text, with a blank behind it.
spec fn named(text: Seq<char>, slug: Seq<char>) -> bool {
    has_prefix(text, "  "@ + slug + " "@)
}

/// A name without a blank in it.
spec fn is_word(s: Seq<char>) -> bool {
    forall|i: int| 0 <= i < s.len() ==> #[trigger] s[i] != ' '
}

/// Of two words with a blank behind them, one is named by the line of the other only where
/// they are the same.
proof fn lemma_named(c: ChunkView, slug: Seq<char>)
    requires
        is_word(c.slug),
        is_word(slug),
        c.slug.len() < 12,
    ensures
        named(toc_entry(c), slug) == (slug == c.slug),
{
    reveal_strlit("  ");
    reveal_strlit(" ");
    let e = toc_entry(c);
    let n = c.slug.len() as int;
    let m = slug.len() as int;
    let p = "  "@ + slug + " "@;
    let fill = crate::text::spaces(12 - c.slug.len());
    assert(fill.len() > 0 && fill[0] == ' ');
    assert(e =~= "  "@ + c.slug + fill + " "@ + c.blurb);
    assert(e[n + 2] == fill[0]);
    assert forall|i: int| 0 <= i < n implies e[i + 2] == c.slug[i] by {}
    if named(e, slug) {
        assert(e.take(p.len() as int) == p);
        assert forall|i: int| 0 <= i < p.len() implies e[i] == p[i] by {
            assert(e.take(p.len() as int)[i] == e[i]);
        }
        assert(p[m + 2] == ' ');
        if m < n {
            assert(c.slug[m] == ' ');
        }
        if n < m {
            assert(p[n + 2] == slug[n]);
            assert(slug[n] == ' ');
        }
        assert forall|i: int| 0 <= i < n implies slug[i] == c.slug[i] by {
            assert(p[i + 2] == slug[i]);
        }
        assert(slug =~= c.slug);
    }
    if slug == c.slug {
        assert(e.take(p.len() as int) =~= p);
    }
}

/// The names of the sections are words, and no two are the same; what is said of the
/// sections stands on one line each.
proof fn lemma_table()
    ensures
        chunk_table().len() == 13,
        forall|i: int|
            0 <= i < 13 ==> is_word((#[trigger] chunk_table()[i]).slug) && 0 < chunk_table()[i].slug.len()
                < 12,
        forall|i: int, j: int|
            0 <= i < j < 13 ==> (#[trigger] chunk_table()[i]).slug != (#[trigger] chunk_table()[j]).slug,
        forall|i: int| 0 <= i < 13 ==> is_line(toc_entry(#[trigger] chunk_table()[i])),
{
    let t = chunk_table();
    reveal_strlit("overview");
    reveal_strlit("persistence");
    reveal_strlit("setup");
    reveal_strlit("brief");
    reveal_strlit("interview");
    reveal_strlit("authoring");
    reveal_strlit("publishing");
    reveal_strlit("iterating");
    reveal_strlit("running");
    reveal_strlit("sharing");
    reveal_strlit("rules");
    reveal_strlit("updating");
    reveal_strlit("uninstall");
    assert("interview"@[1] == 'n' && "iterating"@[1] == 't');
    assert("overview"@[0] == 'o' && "persistence"@[0] == 'p' && "setup"@[0] == 's');
    assert("brief"@[0] == 'b' && "interview"@[0] == 'i' && "authoring"@[0] == 'a');
    assert("publishing"@[0] == 'p' && "iterating"@[0] == 'i' && "running"@[0] == 'r');
    assert("sharing"@[0] == 's' && "rules"@[0] == 'r' && "updating"@[0] == 'u');
    assert("uninstall"@[0] == 'u');
    lemma_blurbs();
    assert forall|i: int| 0 <= i < 13 implies is_line(toc_entry(#[trigger] t[i])) by {
        lemma_entry_is_line(t[i]);
    }
}

/// The line of a section whose name and text have no line feed has none.
proof fn lemma_entry_is_line(c: ChunkView)
    requires
        one_line(c.slug),
        one_line(c.blurb),
        c.blurb.len() > 0,
        c.blurb.last() != '\r',
        c.slug.len() < 12,
    ensures
        is_line(toc_entry(c)),
{
    reveal_strlit("  ");
    reveal_strlit(" ");
    let e = toc_entry(c);
    let fill = crate::text::spaces(12 - c.slug.len());
    let n = c.slug.len() as int;
    assert(e =~= "  "@ + c.slug + fill + " "@ + c.blurb);
    assert(e.len() == 15 + c.blurb.len());
    assert forall|i: int| 0 <= i < e.len() implies #[trigger] e[i] != '\n' by {
        if i < 2 {
            assert(e[i] == "  "@[i]);
        } else if i < n + 2 {
            assert(e[i] == c.slug[i - 2]);
        } else if i < 14 {
            assert(e[i] == fill[i - n - 2]);
        } else if i == 14 {
            assert(e[i] == " "@[0]);
        } else {
            assert(e[i] == c.blurb[i - 15]);
        }
    }
    assert(e.last() == c.blurb.last());
}

proof fn lemma_blurbs()
    ensures
        forall|i: int|
            0 <= i < 13 ==> one_line((#[trigger] chunk_table()[i]).blurb) && chunk_table()[i].blurb.len()
                > 0 && chunk_table()[i].blurb.last() != '\r' && one_line(chunk_table()[i].slug),
{
    reveal_strlit("overview");
    reveal_strlit("persistence");
    reveal_strlit("setup");
    reveal_strlit("brief");
    reveal_strlit("interview");
    reveal_strlit("authoring");
    reveal_strlit("publishing");
    reveal_strlit("iterating");
    reveal_strlit("running");
    reveal_strlit("sharing");
    reveal_strlit("rules");
    reveal_strlit("updating");
    reveal_strlit("uninstall");
    reveal_strlit("What knack is, install-step framing, how to read the playbook.");
    reveal_strlit("How the meta-skill persists; ephemeral vs durable environments.");
    reveal_strlit("Install the CLI: paths, sandboxes, no-sudo (PART ONE).");
    reveal_strlit("First-time framing to give the user before starting.");
    reveal_strlit("The interview: Genesis, Artifacts, Intuition, Dry Run (PART TWO).");
    reveal_strlit("Turn the interview into a SKILL.md + assets (PART THREE).");
    reveal_strlit("Publish, version, validate (PART FOUR).");
    reveal_strlit("Revise and re-publish; analyze runs (PART FIVE).");
    reveal_strlit("pull -> run -> mark; inputs; run analytics (PART SIX).");
    reveal_strlit("Marketplace, usernames, forking, teams (PART SEVEN).");
    reveal_strlit("Hard constraints the agent must follow.");
    reveal_strlit("Upgrade the CLI.");
    reveal_strlit("Remove knack cleanly.");
    assert(one_line("overview"@));
    assert(one_line("persistence"@));
    assert(one_line("setup"@));
    assert(one_line("brief"@));
    assert(one_line("interview"@));
    assert(one_line("authoring"@));
    assert(one_line("publishing"@));
    assert(one_line("iterating"@));
    assert(one_line("running"@));
    assert(one_line("sharing"@));
    assert(one_line("rules"@));
    assert(one_line("updating"@));
    assert(one_line("uninstall"@));
    assert(one_line("What knack is, install-step framing, how to read the playbook."@));
    assert(one_line("How the meta-skill persists; ephemeral vs durable environments."@));
    assert(one_line("Install the CLI: paths, sandboxes, no-sudo (PART ONE)."@));
    assert(one_line("First-time framing to give the user before starting."@));
    assert(one_line("The interview: Genesis, Artifacts, Intuition, Dry Run (PART TWO)."@));
    assert(one_line("Turn the interview into a SKILL.md + assets (PART THREE)."@));
    assert(one_line("Publish, version, validate (PART FOUR)."@));
    assert(one_line("Revise and re-publish; analyze runs (PART FIVE)."@));
    assert(one_line("pull -> run -> mark; inputs; run analytics (PART SIX)."@));
    assert(one_line("Marketplace, usernames, forking, teams (PART SEVEN)."@));
    assert(one_line("Hard constraints the agent must follow."@));
    assert(one_line("Upgrade the CLI."@));
    assert(one_line("Remove knack cleanly."@));
}

/// The table of contents has one line for every section, in their order: the line that
/// starts with two blanks, the name and a blank. No other line starts so.
pub proof fn law_toc_has_one_line_per_section(i: int)
    requires
        0 <= i < chunk_table().len(),
    ensures
        ({
            let lines = lines_of(toc_text());
            let front = "  "@ + chunk_table()[i].slug + " "@;
            &&& lines.len() == chunk_table().len() + 4
            &&& lines[i + 2] == toc_entry(chunk_table()[i])
            &&& forall|k: int|
                0 <= k < lines.len() ==> (has_prefix(#[trigger] lines[k], front) <==> k == i + 2)
        }),
{
    lemma_table();
    let t = chunk_table();
    let head = "knack playbook sections — pull one (or several) with `knack info <slug> [<slug>...]`:"@;
    let foot = "`knack info` with no slug prints the entire playbook."@;
    reveal_strlit("knack playbook sections — pull one (or several) with `knack info <slug> [<slug>...]`:");
    reveal_strlit(
        "knack playbook sections — pull one (or several) with `knack info <slug> [<slug>...]`:\n\n",
    );
    reveal_strlit("`knack info` with no slug prints the entire playbook.");
    reveal_strlit("\n`knack info` with no slug prints the entire playbook.\n");
    reveal_strlit("\n");
    reveal_strlit("  ");
    reveal_strlit(" ");
    let none = Seq::<char>::empty();
    let lines = toc_lines();
    let entries = Seq::new(t.len(), |j: int| toc_entry(t[j]));
    let tail = none.push('\n') + (foot.push('\n') + none);
    let body = strung(lines, lines.len() as int) + tail;
    assert(toc_text() =~= head.push('\n') + (none.push('\n') + body));
    assert forall|j: int| 0 <= j < lines.len() implies is_line(#[trigger] entries[j]) && lines[j]
        == entries[j].push('\n') by {
        assert(is_line(toc_entry(t[j])));
        assert(toc_line(t[j]) =~= toc_entry(t[j]).push('\n'));
    }
    lemma_lines_strung(entries, lines, lines.len() as int, tail);
    assert(entries.take(lines.len() as int) =~= entries);
    lemma_first_line(head, none.push('\n') + body);
    lemma_first_line(none, body);
    lemma_first_line(none, foot.push('\n') + none);
    lemma_first_line(foot, none);
    assert(lines_of(none) =~= seq![]);
    let all = lines_of(toc_text());
    assert(all =~= seq![head, none] + entries + seq![none, foot]);
    let front = "  "@ + t[i].slug + " "@;
    assert forall|k: int| 0 <= k < all.len() implies (has_prefix(#[trigger] all[k], front) <==> k == i
        + 2) by {
        if 2 <= k < 15 {
            assert(all[k] == toc_entry(t[k - 2]));
            lemma_named(t[k - 2], t[i].slug);
            if k - 2 < i {
                assert(t[k - 2].slug != t[i].slug);
            }
            if i < k - 2 {
                assert(t[i].slug != t[k - 2].slug);
            }
        } else if has_prefix(all[k], front) {
            assert(all[k].take(front.len() as int)[0] == all[k][0]);
            assert(front[0] == ' ');
            assert(k == 0 ==> all[k] == head);
            assert(k == 16 ==> all[k] == foot);
        }
    }
}

} // verus!
