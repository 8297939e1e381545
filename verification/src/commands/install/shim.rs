//! What is written for a skill so that an agent finds it.
//!
//! Files that are written whole carry a sigil near their head, and entries in a
//! shared file stand between two marks that name the skill. Nothing without
//! sigil or marks is ever removed.

use vstd::prelude::*;

use crate::commands::install::targets::ShimStyle;
use crate::config::{below, join_path};
use crate::frontmatter::{
    law_block_stays_at_the_head, split_doc, split_frontmatter, SkillFrontmatter,
};
use crate::text::{
    drop_leading, drop_trailing, ends_with, find, find_first, has_prefix, has_suffix,
    lemma_drop_leading_is_skip, lemma_drop_trailing_is_take, lemma_find_from, lemma_first_line,
    lines, lines_of, one_line, opt_str_view, opt_view, same, slice_views, starts_with, trim,
    trim_end, trim_start, trimmed, without_cr, CharClass,
};

pub mod laws;

verus! {

/// The line that marks a file as written by knack.
pub const SHIM_SIGIL: &'static str = "<!-- knack:shim — managed; do not edit -->";

// ---------------------------------------------------------------------------
// Marks
// ---------------------------------------------------------------------------

pub open spec fn block_start(slug: Seq<char>) -> Seq<char> {
    "<!-- knack:skill:"@ + slug + ":start -->"@
}

pub open spec fn block_end(slug: Seq<char>) -> Seq<char> {
    "<!-- knack:skill:"@ + slug + ":end -->"@
}

/// The mark before the entry of a skill in a shared file.
pub fn text_block_start(slug: &str) -> (r: String)
    ensures
        r@ == block_start(slug@),
{
    let mut r = "<!-- knack:skill:".to_owned();
    r.append(slug);
    r.append(":start -->");
    r
}

/// The mark behind the entry of a skill in a shared file.
pub fn text_block_end(slug: &str) -> (r: String)
    ensures
        r@ == block_end(slug@),
{
    let mut r = "<!-- knack:skill:".to_owned();
    r.append(slug);
    r.append(":end -->");
    r
}

// ---------------------------------------------------------------------------
// Rendering
// ---------------------------------------------------------------------------

/// The text of an option, or another one where there is none.
pub open spec fn text_or(o: Option<Seq<char>>, other: Seq<char>) -> Seq<char> {
    match o {
        Some(s) => s,
        None => other,
    }
}

fn str_or<'a>(o: &'a Option<String>, other: &'a str) -> (r: &'a str)
    ensures
        r@ == text_or(opt_view(*o), other@),
{
    match o {
        Some(s) => s.as_str(),
        None => other,
    }
}

/// What a native skill file says behind its sigil.
pub open spec fn native_skill_rest(
    slug: Seq<char>,
    name: Seq<char>,
    description: Seq<char>,
    path: Seq<char>,
) -> Seq<char> {
    "---\nname: "@ + name + "\ndescription: "@ + description
        + "\n---\n\nThis skill is managed by [knack](https://getknack.ai). Canonical body:\n\n  "@ + path
        + "\n\nInvoke with: `knack run "@ + slug + "`\n"@
}

/// A skill file for an agent that reads skill folders: a pointer at the body.
pub fn render_native_skill(
    slug: &str,
    fm: &SkillFrontmatter,
    canonical_md_path: &str,
) -> (r: String)
    ensures
        r@ == SHIM_SIGIL@ + "\n"@ + native_skill_rest(
            slug@,
            text_or(opt_view(fm.name), slug@),
            text_or(
                opt_view(fm.description),
                "A skill managed by knack. Run `knack run <slug>` to invoke."@,
            ),
            canonical_md_path@,
        ),
{
    let name = str_or(&fm.name, slug);
    let description = str_or(
        &fm.description,
        "A skill managed by knack. Run `knack run <slug>` to invoke.",
    );
    let mut rest = "---\nname: ".to_owned();
    rest.append(name);
    rest.append("\ndescription: ");
    rest.append(description);
    rest.append(
        "\n---\n\nThis skill is managed by [knack](https://getknack.ai). Canonical body:\n\n  ",
    );
    rest.append(canonical_md_path);
    rest.append("\n\nInvoke with: `knack run ");
    rest.append(slug);
    rest.append("`\n");
    let mut r = SHIM_SIGIL.to_owned();
    r.append("\n");
    r.append(rest.as_str());
    r
}

/// What a native rule file says behind its sigil.
pub open spec fn native_rule_rest(
    slug: Seq<char>,
    description: Seq<char>,
    path: Seq<char>,
) -> Seq<char> {
    "---\ndescription: "@ + description
        + "\nalwaysApply: false\n---\n\nWhen this rule matches, invoke `knack run "@ + slug
        + "`.\nCanonical: "@ + path + "\n"@
}

/// A rule file for an agent that reads rules: a pointer at the body.
pub fn render_native_rule(slug: &str, fm: &SkillFrontmatter, canonical_md_path: &str) -> (r: String)
    ensures
        r@ == SHIM_SIGIL@ + "\n"@ + native_rule_rest(
            slug@,
            text_or(
                opt_view(fm.description),
                "A skill managed by knack. Run `knack run <slug>` to invoke."@,
            ),
            canonical_md_path@,
        ),
{
    let description = str_or(
        &fm.description,
        "A skill managed by knack. Run `knack run <slug>` to invoke.",
    );
    let mut rest = "---\ndescription: ".to_owned();
    rest.append(description);
    rest.append("\nalwaysApply: false\n---\n\nWhen this rule matches, invoke `knack run ");
    rest.append(slug);
    rest.append("`.\nCanonical: ");
    rest.append(canonical_md_path);
    rest.append("\n");
    let mut r = SHIM_SIGIL.to_owned();
    r.append("\n");
    r.append(rest.as_str());
    r
}

/// The entry of a skill in a shared file.
pub fn render_text_block(slug: &str, fm: &SkillFrontmatter) -> (r: String)
    ensures
        r@ == "- **"@ + slug@ + "** — "@ + text_or(opt_view(fm.description), "(no description)"@)
            + ". Run: `knack run "@ + slug@ + "`"@,
{
    let mut r = "- **".to_owned();
    r.append(slug);
    r.append("** — ");
    r.append(str_or(&fm.description, "(no description)"));
    r.append(". Run: `knack run ");
    r.append(slug);
    r.append("`");
    r
}

/// What an agent is told to do before the work of a linked skill.
pub open spec fn preamble(slug: Seq<char>, runtime: Seq<char>) -> Seq<char> {
    "> **Managed by [knack](https://getknack.ai).** Before doing the work below, record a run so this skill's usage is tracked: run `knack run "@
        + slug + " --runtime "@ + runtime
        + " --json` and keep the returned `run_id`. If that command fails (offline or not signed in), continue anyway. Telemetry is best-effort and must never block the task. If that command reports `update_available` (a newer version was published, e.g. by a teammate), tell the user a newer version exists and who published it, then ASK whether they want you to grab it for them (you would run `knack link "@
        + slug
        + "`). Phrase it as offering to do it yourself, never as instructing the user to run a command. Do NOT pull the new version or change your behavior on your own — this pinned copy is the source of truth until the user says go."@
}

/// What an agent is told to do before the work of a linked skill. Telemetry never
/// stands in the way of the work.
pub fn telemetry_preamble(slug: &str, runtime: &str) -> (r: String)
    ensures
        r@ == preamble(slug@, runtime@),
{
    let mut r =
        "> **Managed by [knack](https://getknack.ai).** Before doing the work below, record a run so this skill's usage is tracked: run `knack run ".to_owned();
    r.append(slug);
    r.append(" --runtime ");
    r.append(runtime);
    r.append(
        " --json` and keep the returned `run_id`. If that command fails (offline or not signed in), continue anyway. Telemetry is best-effort and must never block the task. If that command reports `update_available` (a newer version was published, e.g. by a teammate), tell the user a newer version exists and who published it, then ASK whether they want you to grab it for them (you would run `knack link ",
    );
    r.append(slug);
    r.append(
        "`). Phrase it as offering to do it yourself, never as instructing the user to run a command. Do NOT pull the new version or change your behavior on your own — this pinned copy is the source of truth until the user says go.",
    );
    r
}

pub open spec fn footer() -> Seq<char> {
    "> **When finished**, close the loop: `knack mark <run_id> succeeded` (or `knack mark <run_id> failed --note \"...\"`). Skip this if the run above was not recorded."@
}

/// What an agent is told to do once the work of a linked skill is done.
pub fn telemetry_footer() -> (r: String)
    ensures
        r@ == footer(),
{
    "> **When finished**, close the loop: `knack mark <run_id> succeeded` (or `knack mark <run_id> failed --note \"...\"`). Skip this if the run above was not recorded.".to_owned()
}

/// What follows the sigil in a linked skill.
pub open spec fn linked_rest(slug: Seq<char>, runtime: Seq<char>, body: Seq<char>) -> Seq<char> {
    "\n"@ + preamble(slug, runtime) + "\n\n"@ + drop_trailing(body, CharClass::One('\n')) + "\n\n"@
        + footer() + "\n"@
}

/// A skill file with what an agent needs to record its runs. The frontmatter stays
/// at its head as it was, and the sigil is the first line behind it.
pub open spec fn linked_skill(slug: Seq<char>, runtime: Seq<char>, md: Seq<char>) -> Seq<char> {
    let (head, body) = split_doc(md);
    let marked = SHIM_SIGIL@ + "\n"@ + linked_rest(slug, runtime, body);
    if head.len() == 0 {
        marked
    } else {
        head + "\n\n"@ + marked
    }
}

fn render_marked(slug: &str, runtime: &str, body: &str) -> (r: String)
    ensures
        r@ == linked_rest(slug@, runtime@, body@),
{
    let mut r = "\n".to_owned();
    let p = telemetry_preamble(slug, runtime);
    r.append(p.as_str());
    r.append("\n\n");
    r.append(trim_end(body, CharClass::One('\n')));
    r.append("\n\n");
    let f = telemetry_footer();
    r.append(f.as_str());
    r.append("\n");
    r
}

/// A skill file with what an agent needs to record its runs.
pub fn render_linked_skill(slug: &str, runtime: &str, original_skill_md: &str) -> (r: String)
    ensures
        r@ == linked_skill(slug@, runtime@, original_skill_md@),
{
    let (head, body) = split_frontmatter(original_skill_md);
    let rest = render_marked(slug, runtime, body.as_str());
    let mut marked = SHIM_SIGIL.to_owned();
    marked.append("\n");
    marked.append(rest.as_str());
    if head.as_str().is_empty() {
        marked
    } else {
        let mut r = head;
        r.append("\n\n");
        r.append(marked.as_str());
        r
    }
}

/// A rule file with a linked skill's body and what an agent needs to record its runs.
pub fn render_linked_rule(
    slug: &str,
    runtime: &str,
    fm: &SkillFrontmatter,
    original_skill_md: &str,
) -> (r: String)
    ensures
        r@ == SHIM_SIGIL@ + "\n"@ + ("---\ndescription: "@ + text_or(
            opt_view(fm.description),
            "A skill managed by knack."@,
        ) + "\nalwaysApply: false\n---\n"@ + linked_rest(slug@, runtime@, split_doc(original_skill_md@).1)),
{
    let (_, body) = split_frontmatter(original_skill_md);
    let mut rest = "---\ndescription: ".to_owned();
    rest.append(str_or(&fm.description, "A skill managed by knack."));
    rest.append("\nalwaysApply: false\n---\n");
    let wrapped = render_marked(slug, runtime, body.as_str());
    rest.append(wrapped.as_str());
    let mut r = SHIM_SIGIL.to_owned();
    r.append("\n");
    r.append(rest.as_str());
    r
}

/// The entry of a linked skill in a shared file.
pub fn render_linked_text_block(slug: &str, runtime: &str, fm: &SkillFrontmatter) -> (r: String)
    ensures
        r@ == "- **"@ + slug@ + "** — "@ + text_or(opt_view(fm.description), "(no description)"@)
            + ". Run `knack run "@ + slug@ + " --runtime "@ + runtime@
            + "`, do the work, then `knack mark <run_id> succeeded`."@,
{
    let mut r = "- **".to_owned();
    r.append(slug);
    r.append("** — ");
    r.append(str_or(&fm.description, "(no description)"));
    r.append(". Run `knack run ");
    r.append(slug);
    r.append(" --runtime ");
    r.append(runtime);
    r.append("`, do the work, then `knack mark <run_id> succeeded`.");
    r
}

// ---------------------------------------------------------------------------
// Recognising what was written
// ---------------------------------------------------------------------------

/// The sigil is the first line.
pub open spec fn sigil_on_top(text: Seq<char>) -> bool {
    lines_of(text).len() > 0 && trimmed(lines_of(text)[0]) == SHIM_SIGIL@
}

/// The sigil is one of the first twelve lines.
pub open spec fn sigil_in_head(text: Seq<char>) -> bool {
    exists|i: int|
        0 <= i < 12 && i < lines_of(text).len() && trimmed(#[trigger] lines_of(text)[i]) == SHIM_SIGIL@
}

/// The sigil is the first line behind the frontmatter.
pub open spec fn sigil_behind_frontmatter(text: Seq<char>) -> bool {
    sigil_on_top(split_doc(text).1)
}

/// The file was written by knack: the sigil is one of its first lines, or the first one
/// behind its frontmatter, however long that is.
pub open spec fn carries_sigil(text: Seq<char>) -> bool {
    sigil_in_head(text) || sigil_behind_frontmatter(text)
}

fn has_sigil_on_top(text: &str) -> (r: bool)
    ensures
        r == sigil_on_top(text@),
{
    let all = lines(text);
    assert(slice_views(all@).len() == all@.len());
    if all.len() == 0 {
        return false;
    }
    assert(slice_views(all@)[0] == all@[0]@);
    same(trim(all[0]), SHIM_SIGIL)
}

fn has_sigil_in_head(text: &str) -> (r: bool)
    ensures
        r == sigil_in_head(text@),
{
    let all = lines(text);
    let ghost ls = lines_of(text@);
    let mut i: usize = 0;
    while i < all.len() && i < 12
        invariant
            i <= all.len(),
            i <= 12,
            slice_views(all@) == ls,
            ls == lines_of(text@),
            forall|j: int| 0 <= j < i ==> trimmed(#[trigger] ls[j]) != SHIM_SIGIL@,
        decreases all.len() - i,
    {
        assert(ls[i as int] == all@[i as int]@);
        if same(trim(all[i]), SHIM_SIGIL) {
            return true;
        }
        i += 1;
    }
    assert(ls.len() == all@.len());
    false
}

/// Whether a file was written by knack.
pub fn file_carries_sigil(text: &str) -> (r: bool)
    ensures
        r == carries_sigil(text@),
{
    if has_sigil_in_head(text) {
        return true;
    }
    let (_, body) = split_frontmatter(text);
    has_sigil_on_top(body.as_str())
}

proof fn lemma_sigil()
    ensures
        one_line(SHIM_SIGIL@),
        without_cr(SHIM_SIGIL@) == SHIM_SIGIL@,
        trimmed(SHIM_SIGIL@) == SHIM_SIGIL@,
        SHIM_SIGIL@.len() > 0 && SHIM_SIGIL@[0] == '<',
        "\n"@ == seq!['\n'],
        "\n\n"@ == seq!['\n', '\n'],
{
    reveal_strlit("<!-- knack:shim — managed; do not edit -->");
    reveal_strlit("\n");
    reveal_strlit("\n\n");
    assert("\n"@ =~= seq!['\n']);
    assert("\n\n"@ =~= seq!['\n', '\n']);
    let s = SHIM_SIGIL@;
    assert(s[0] == '<');
    assert(s.last() == '>');
    assert(!CharClass::White.holds('<'));
    assert(!CharClass::White.holds('>'));
}

/// A file whose first line is the sigil is recognised.
proof fn lemma_sigil_first(rest: Seq<char>)
    ensures
        sigil_on_top(SHIM_SIGIL@ + "\n"@ + rest),
        carries_sigil(SHIM_SIGIL@ + "\n"@ + rest),
{
    lemma_sigil();
    let s = SHIM_SIGIL@ + "\n"@ + rest;
    assert(s =~= SHIM_SIGIL@.push('\n') + rest);
    lemma_first_line(SHIM_SIGIL@, rest);
    assert(lines_of(s)[0] == SHIM_SIGIL@);
}

/// Every skill file and rule file that is written whole, with a pointer, is
/// recognised afterwards, by its first line alone too.
pub proof fn law_native_files_are_recognised(rest: Seq<char>)
    ensures
        sigil_on_top(SHIM_SIGIL@ + "\n"@ + rest),
        carries_sigil(SHIM_SIGIL@ + "\n"@ + rest),
{
    lemma_sigil_first(rest);
}

/// A linked skill is recognised afterwards, however long its frontmatter is.
pub proof fn law_linked_skill_is_recognised(slug: Seq<char>, runtime: Seq<char>, md: Seq<char>)
    ensures
        carries_sigil(linked_skill(slug, runtime, md)),
{
    lemma_sigil();
    let (head, body) = split_doc(md);
    let rest = linked_rest(slug, runtime, body);
    let marked = SHIM_SIGIL@ + "\n"@ + rest;
    if head.len() == 0 {
        lemma_sigil_first(rest);
    } else {
        assert(marked[0] == SHIM_SIGIL@[0]);
        law_block_stays_at_the_head(md, marked);
        assert(marked =~= SHIM_SIGIL@.push('\n') + rest);
        lemma_first_line(SHIM_SIGIL@, rest);
        assert(lines_of(marked)[0] == SHIM_SIGIL@);
    }
}

/// A linked skill keeps the frontmatter of the skill as it is, at its head.
pub proof fn law_linked_skill_keeps_its_frontmatter(
    slug: Seq<char>,
    runtime: Seq<char>,
    md: Seq<char>,
)
    ensures
        has_prefix(linked_skill(slug, runtime, md), split_doc(md).0),
        split_doc(linked_skill(slug, runtime, md)).0 == split_doc(md).0,
{
    lemma_sigil();
    let (head, body) = split_doc(md);
    let marked = SHIM_SIGIL@ + "\n"@ + linked_rest(slug, runtime, body);
    assert(marked[0] == SHIM_SIGIL@[0]);
    if head.len() == 0 {
        reveal_strlit("---");
        assert(drop_leading(marked, CharClass::One('\u{feff}')) == marked);
        assert(marked.take(3)[0] != "---"@[0]);
        assert(head =~= seq![]);
    } else {
        law_block_stays_at_the_head(md, marked);
    }
    assert(linked_skill(slug, runtime, md).take(head.len() as int) =~= head);
}

/// The file is called as rule files are.
pub open spec fn is_rule_file(name: Seq<char>) -> bool {
    name == "knack.mdc"@ || (has_prefix(name, "knack-"@) && has_suffix(name, ".mdc"@))
}

/// The name is that of a rule file that may be one of knack's.
pub fn is_rule_name(name: &str) -> (r: bool)
    ensures
        r == is_rule_file(name@),
{
    same(name, "knack.mdc") || (starts_with(name, "knack-") && ends_with(name, ".mdc"))
}

/// The name of the rule file of a skill.
pub fn rule_file_name(slug: &str) -> (r: String)
    ensures
        r@ == "knack-"@ + slug@ + ".mdc"@,
{
    let mut r = "knack-".to_owned();
    r.append(slug);
    r.append(".mdc");
    r
}

/// The name of a skill's rule file is one that is looked at when all are removed.
pub proof fn law_rule_files_are_swept(slug: Seq<char>)
    ensures
        has_prefix("knack-"@ + slug + ".mdc"@, "knack-"@) && has_suffix(
            "knack-"@ + slug + ".mdc"@,
            ".mdc"@,
        ),
{
    let s = "knack-"@ + slug + ".mdc"@;
    assert(s.take("knack-"@.len() as int) =~= "knack-"@);
    assert(s.skip(s.len() - ".mdc"@.len()) =~= ".mdc"@);
}

// ---------------------------------------------------------------------------
// Entries in a shared file
// ---------------------------------------------------------------------------

/// Where the first start mark and the first end mark behind it stand: from the
/// start of the one to the end of the other.
pub open spec fn block_at(text: Seq<char>, start: Seq<char>, end: Seq<char>) -> Option<(int, int)> {
    match find_first(text, start) {
        None => None,
        Some(s) => {
            let after = s + start.len();
            match find_first(text.skip(after), end) {
                None => None,
                Some(e) => Some((s, after + e + end.len())),
            }
        },
    }
}

proof fn lemma_block_at(text: Seq<char>, start: Seq<char>, end: Seq<char>)
    ensures
        block_at(text, start, end) matches Some((s, e)) ==> 0 <= s && s + start.len() + end.len() <= e
            <= text.len(),
{
    lemma_find_from(text, start, 0);
    if find_first(text, start) is Some {
        let after = find_first(text, start)->0 + start.len();
        lemma_find_from(text.skip(after), end, 0);
    }
}

/// Where the entry between two marks stands.
pub fn find_block(input: &str, start_marker: &str, end_marker: &str) -> (r: Option<(usize, usize)>)
    ensures
        match r {
            Some((s, e)) => block_at(input@, start_marker@, end_marker@) == Some((s as int, e as int))
                && s + start_marker@.len() + end_marker@.len() <= e <= input@.len(),
            None => block_at(input@, start_marker@, end_marker@) is None,
        },
{
    proof {
        lemma_block_at(input@, start_marker@, end_marker@);
    }
    let n: usize = input.unicode_len();
    match find(input, start_marker) {
        None => None,
        Some(s) => {
            let after: usize = s + start_marker.unicode_len();
            let rest = input.substring_char(after, n);
            assert(rest@ =~= input@.skip(after as int));
            match find(rest, end_marker) {
                None => None,
                Some(e) => Some((s, after + e + end_marker.unicode_len())),
            }
        },
    }
}

/// The entry of a skill with its marks.
pub open spec fn block_of(slug: Seq<char>, body: Seq<char>) -> Seq<char> {
    block_start(slug) + "\n"@ + body + "\n"@ + block_end(slug)
}

/// A shared file with the entry of a skill: in place of the one that is there, else
/// behind the end mark of the part that tells of knack, else at the end.
pub open spec fn upserted(
    existing: Seq<char>,
    slug: Seq<char>,
    body: Seq<char>,
    end_marker: Seq<char>,
) -> Seq<char> {
    let block = block_of(slug, body);
    let feed = CharClass::One('\n');
    match block_at(existing, block_start(slug), block_end(slug)) {
        Some((s, e)) => existing.take(s) + block + existing.skip(e),
        None => match find_first(existing, end_marker) {
            Some(i) => {
                let after = i + end_marker.len();
                let head = drop_trailing(existing.take(after), feed);
                let tail = drop_leading(existing.skip(after), feed);
                if tail.len() == 0 {
                    head + "\n\n"@ + block + "\n"@
                } else {
                    head + "\n\n"@ + block + "\n\n"@ + tail
                }
            },
            None => if trimmed(existing).len() == 0 {
                block + "\n"@
            } else {
                drop_trailing(existing, feed) + "\n\n"@ + block + "\n"@
            },
        },
    }
}

fn upsert(existing: &str, slug: &str, body: &str, end_marker: &str) -> (r: String)
    ensures
        r@ == upserted(existing@, slug@, body@, end_marker@),
{
    let start = text_block_start(slug);
    let end = text_block_end(slug);
    let mut block = start.clone();
    block.append("\n");
    block.append(body);
    block.append("\n");
    block.append(end.as_str());
    let n: usize = existing.unicode_len();
    let feed = CharClass::One('\n');
    match find_block(existing, start.as_str(), end.as_str()) {
        Some((s, e)) => {
            let mut r = existing.substring_char(0, s).to_owned();
            r.append(block.as_str());
            let tail = existing.substring_char(e, n);
            assert(tail@ =~= existing@.skip(e as int));
            r.append(tail);
            r
        },
        None => match find(existing, end_marker) {
            Some(i) => {
                let after: usize = i + end_marker.unicode_len();
                let head = trim_end(existing.substring_char(0, after), feed);
                let rest = existing.substring_char(after, n);
                assert(existing@.subrange(0, after as int) =~= existing@.take(after as int));
                assert(rest@ =~= existing@.skip(after as int));
                let tail = trim_start(rest, feed);
                let mut r = head.to_owned();
                r.append("\n\n");
                r.append(block.as_str());
                if tail.is_empty() {
                    r.append("\n");
                } else {
                    r.append("\n\n");
                    r.append(tail);
                }
                r
            },
            None => {
                if trim(existing).is_empty() {
                    let mut r = block;
                    r.append("\n");
                    r
                } else {
                    let mut r = trim_end(existing, feed).to_owned();
                    r.append("\n\n");
                    r.append(block.as_str());
                    r.append("\n");
                    r
                }
            },
        },
    }
}

/// Puts the entry of a skill into a shared file, or replaces the one that is there.
/// Gives the new text, and nothing where the text stays as it is.
pub fn upsert_skill_block(
    existing: &str,
    slug: &str,
    body: &str,
    end_marker: &str,
) -> (r: Option<String>)
    ensures
        opt_view(r) == (if upserted(existing@, slug@, body@, end_marker@) == existing@ {
            None
        } else {
            Some(upserted(existing@, slug@, body@, end_marker@))
        }),
{
    let next = upsert(existing, slug, body, end_marker);
    if same(next.as_str(), existing) {
        None
    } else {
        Some(next)
    }
}

/// Two parts of a text with a blank line between them, and a line feed at the end
/// where there is only the first.
pub open spec fn closed_up(head: Seq<char>, tail: Seq<char>) -> Seq<char> {
    if head.len() == 0 && tail.len() == 0 {
        seq![]
    } else if head.len() == 0 {
        tail
    } else if tail.len() == 0 {
        head + "\n"@
    } else {
        head + "\n\n"@ + tail
    }
}

/// A shared file without the entry of a skill, where it has one.
pub open spec fn without_block(text: Seq<char>, slug: Seq<char>) -> Option<Seq<char>> {
    match block_at(text, block_start(slug), block_end(slug)) {
        None => None,
        Some((s, e)) => Some(
            closed_up(
                drop_trailing(text.take(s), CharClass::One('\n')),
                drop_leading(text.skip(e), CharClass::One('\n')),
            ),
        ),
    }
}

/// A shared file without the entry of a skill, where it has one.
pub fn remove_skill_block_from_string(text: &str, slug: &str) -> (r: Option<String>)
    ensures
        opt_view(r) == without_block(text@, slug@),
{
    let start = text_block_start(slug);
    let end = text_block_end(slug);
    let feed = CharClass::One('\n');
    let n: usize = text.unicode_len();
    match find_block(text, start.as_str(), end.as_str()) {
        None => None,
        Some((s, e)) => {
            let head = trim_end(text.substring_char(0, s), feed);
            let rest = text.substring_char(e, n);
            assert(text@.subrange(0, s as int) =~= text@.take(s as int));
            assert(rest@ =~= text@.skip(e as int));
            let tail = trim_start(rest, feed);
            let r = if head.is_empty() && tail.is_empty() {
                let none = String::new();
                assert(none@ =~= seq![]);
                none
            } else if head.is_empty() {
                tail.to_owned()
            } else if tail.is_empty() {
                let mut r = head.to_owned();
                r.append("\n");
                r
            } else {
                let mut r = head.to_owned();
                r.append("\n\n");
                r.append(tail);
                r
            };
            Some(r)
        },
    }
}

/// What becomes of a shared file.
#[derive(Debug)]
pub enum FileChange {
    /// It stays as it is.
    Unchanged,
    /// Nothing but white space would be left in it.
    Delete,
    Write(String),
}

pub open spec fn change_to(c: FileChange, text: Seq<char>) -> bool {
    if trimmed(text).len() == 0 {
        c is Delete
    } else {
        c matches FileChange::Write(t) && t@ == text
    }
}

/// Takes the entry of a skill out of a shared file.
pub fn remove_skill_block(existing: &str, slug: &str) -> (r: FileChange)
    ensures
        match without_block(existing@, slug@) {
            None => r is Unchanged,
            Some(t) => change_to(r, t),
        },
{
    match remove_skill_block_from_string(existing, slug) {
        None => FileChange::Unchanged,
        Some(t) => if trim(t.as_str()).is_empty() {
            FileChange::Delete
        } else {
            FileChange::Write(t)
        },
    }
}

/// Taking an entry out makes a text shorter.
pub proof fn lemma_removal_shortens(text: Seq<char>, slug: Seq<char>)
    requires
        without_block(text, slug) is Some,
    ensures
        without_block(text, slug)->0.len() < text.len(),
{
    reveal_strlit("<!-- knack:skill:");
    lemma_block_at(text, block_start(slug), block_end(slug));
    lemma_sigil();
    let (s, e) = block_at(text, block_start(slug), block_end(slug))->0;
    lemma_drop_trailing_is_take(text.take(s), CharClass::One('\n'));
    lemma_drop_leading_is_skip(text.skip(e), CharClass::One('\n'));
    assert("<!-- knack:skill:"@.len() == 17);
}

/// The skill that the first start of a mark names.
pub open spec fn first_marked(text: Seq<char>) -> Option<Seq<char>> {
    match find_first(text, "<!-- knack:skill:"@) {
        None => None,
        Some(i) => {
            let rest = text.skip(i + "<!-- knack:skill:"@.len());
            match find_first(rest, ":"@) {
                None => None,
                Some(c) => Some(rest.take(c)),
            }
        },
    }
}

/// A shared file without the entries of all skills, and how many there were. A mark
/// without its other half ends the sweep.
pub open spec fn swept(text: Seq<char>) -> (Seq<char>, nat)
    decreases text.len(),
{
    match first_marked(text) {
        None => (text, 0),
        Some(slug) => match without_block(text, slug) {
            None => (text, 0),
            Some(t) => {
                proof {
                    lemma_removal_shortens(text, slug);
                }
                let (u, n) = swept(t);
                (u, n + 1)
            },
        },
    }
}

fn find_first_marked(text: &str) -> (r: Option<String>)
    ensures
        opt_view(r) == first_marked(text@),
{
    let n: usize = text.unicode_len();
    match find(text, "<!-- knack:skill:") {
        None => None,
        Some(i) => {
            let rest = text.substring_char(i + "<!-- knack:skill:".unicode_len(), n);
            assert(rest@ =~= text@.skip(i + "<!-- knack:skill:"@.len()));
            match find(rest, ":") {
                None => None,
                Some(c) => Some(rest.substring_char(0, c).to_owned()),
            }
        },
    }
}

/// Takes the entries of all skills out of a shared file. Gives what becomes of the
/// file, and how many entries there were.
pub fn remove_all_blocks(body: &str) -> (r: (FileChange, usize))
    ensures
        r.1 == swept(body@).1,
        if swept(body@).0 == body@ {
            r.0 is Unchanged
        } else {
            change_to(r.0, swept(body@).0)
        },
{
    let mut next = body.to_owned();
    let mut removed: usize = 0;
    let limit: usize = body.unicode_len();
    loop
        invariant
            next@.len() + removed <= limit,
            limit == body@.len(),
            swept(body@).0 == swept(next@).0,
            swept(body@).1 == removed + swept(next@).1,
        ensures
            swept(next@) == (next@, 0nat),
            swept(body@).0 == next@,
            swept(body@).1 == removed,
        decreases next@.len(),
    {
        let slug = match find_first_marked(next.as_str()) {
            Some(s) => s,
            None => {
                break;
            },
        };
        let shorter = match remove_skill_block_from_string(next.as_str(), slug.as_str()) {
            Some(t) => t,
            None => {
                break;
            },
        };
        proof {
            lemma_removal_shortens(next@, slug@);
        }
        next = shorter;
        removed += 1;
    }
    if same(next.as_str(), body) {
        (FileChange::Unchanged, removed)
    } else if trim(next.as_str()).is_empty() {
        (FileChange::Delete, removed)
    } else {
        (FileChange::Write(next), removed)
    }
}

/// Something below the directory in which an agent looks for skills or rules.
#[derive(Debug)]
pub struct RootEntry {
    /// Its name, where that is text.
    pub name: Option<String>,
    pub is_dir: bool,
    /// What its skill file holds, or for a file what it holds itself, where that could
    /// be read.
    pub text: Option<String>,
}

/// The entry is this program's own: it carries the sign.
pub open spec fn is_own(style: ShimStyle, e: RootEntry) -> bool {
    match style {
        ShimStyle::NativeSkill => e.is_dir && (e.text matches Some(t) && carries_sigil(t@)),
        ShimStyle::NativeRule => (e.name matches Some(n) && is_rule_file(n@)) && (
        e.text matches Some(t) && carries_sigil(t@)),
        _ => false,
    }
}

/// The places of this program's own entries among the first `n`.
pub open spec fn own_entries(style: ShimStyle, s: Seq<RootEntry>, n: int) -> Seq<int>
    decreases n,
{
    if n <= 0 {
        seq![]
    } else if is_own(style, s[n - 1]) {
        own_entries(style, s, n - 1).push(n - 1)
    } else {
        own_entries(style, s, n - 1)
    }
}

/// What an agent's root holds.
#[derive(Debug)]
pub enum RootContents {
    Missing,
    Dir(Vec<RootEntry>),
    File(String),
}

/// What is removed from an agent's root.
#[derive(Debug)]
pub struct Sweep {
    /// The places of the entries that are removed, each with all below it.
    pub entries: Vec<usize>,
    /// What becomes of a shared file.
    pub change: FileChange,
    /// How many were removed.
    pub removed: usize,
}

pub open spec fn places(v: Seq<usize>) -> Seq<int> {
    Seq::new(v.len(), |i: int| v[i] as int)
}

fn owns(style: ShimStyle, e: &RootEntry) -> (r: bool)
    ensures
        r == is_own(style, *e),
{
    let signed = match &e.text {
        Some(t) => file_carries_sigil(t.as_str()),
        None => false,
    };
    match style {
        ShimStyle::NativeSkill => e.is_dir && signed,
        ShimStyle::NativeRule => signed && match &e.name {
            Some(n) => is_rule_name(n.as_str()),
            None => false,
        },
        _ => false,
    }
}

/// What is removed from an agent's root: skills and rules that carry the sign, or in a
/// shared file the entries of all skills.
pub fn remove_all_shims(style: ShimStyle, root: &RootContents) -> (r: Sweep)
    ensures
        match (style, *root) {
            (ShimStyle::TextBlock, RootContents::File(body)) => r.entries@.len() == 0 && r.removed
                == swept(body@).1 && (if swept(body@).0 == body@ {
                r.change is Unchanged
            } else {
                change_to(r.change, swept(body@).0)
            }),
            (_, RootContents::Dir(entries)) => r.change is Unchanged && places(r.entries@)
                == own_entries(style, entries@, entries@.len() as int) && r.removed
                == r.entries@.len(),
            _ => r.change is Unchanged && r.entries@.len() == 0 && r.removed == 0,
        },
{
    let mut entries: Vec<usize> = Vec::new();
    assert(places(entries@) =~= seq![]);
    match root {
        RootContents::Missing => Sweep { entries, change: FileChange::Unchanged, removed: 0 },
        RootContents::File(body) => match style {
            ShimStyle::TextBlock => {
                let (change, removed) = remove_all_blocks(body.as_str());
                Sweep { entries, change, removed }
            },
            _ => Sweep { entries, change: FileChange::Unchanged, removed: 0 },
        },
        RootContents::Dir(all) => {
            let mut i: usize = 0;
            while i < all.len()
                invariant
                    i <= all.len(),
                    places(entries@) == own_entries(style, all@, i as int),
                decreases all.len() - i,
            {
                if owns(style, &all[i]) {
                    let ghost was = places(entries@);
                    entries.push(i);
                    assert(places(entries@) =~= was.push(i as int));
                }
                i += 1;
            }
            let removed: usize = entries.len();
            Sweep { entries, change: FileChange::Unchanged, removed }
        },
    }
}

/// Nothing is swept that does not carry the sign.
pub proof fn law_only_own_entries_are_swept(style: ShimStyle, s: Seq<RootEntry>, n: int, i: int)
    requires
        0 <= n <= s.len(),
        0 <= i < own_entries(style, s, n).len(),
    ensures
        0 <= own_entries(style, s, n)[i] < s.len(),
        s[own_entries(style, s, n)[i]].text matches Some(t) && carries_sigil(t@),
    decreases n,
{
    if n > 0 && i < own_entries(style, s, n - 1).len() {
        law_only_own_entries_are_swept(style, s, n - 1, i);
    }
}

// ---------------------------------------------------------------------------
// Files of a linked skill
// ---------------------------------------------------------------------------

/// Whether what is to be written differs from what is there.
pub fn differs(existing: Option<&Vec<u8>>, bytes: &Vec<u8>) -> (r: bool)
    ensures
        r == (existing is None || existing->0@ != bytes@),
{
    match existing {
        None => true,
        Some(old_bytes) => {
            if old_bytes.len() != bytes.len() {
                return true;
            }
            let mut i: usize = 0;
            while i < bytes.len()
                invariant
                    i <= bytes.len(),
                    old_bytes.len() == bytes.len(),
                    existing == Some(old_bytes),
                    forall|j: int| 0 <= j < i ==> old_bytes@[j] == bytes@[j],
                decreases bytes.len() - i,
            {
                if old_bytes[i] != bytes[i] {
                    return true;
                }
                i += 1;
            }
            assert(old_bytes@ =~= bytes@);
            false
        },
    }
}

/// The files besides the skill file.
pub open spec fn support_files(files: Seq<(String, Vec<u8>)>, n: int) -> Seq<(Seq<char>, Seq<u8>)>
    decreases n,
{
    if n <= 0 {
        seq![]
    } else if files[n - 1].0@ == "SKILL.md"@ {
        support_files(files, n - 1)
    } else {
        support_files(files, n - 1).push((files[n - 1].0@, files[n - 1].1@))
    }
}

fn copy_bytes(v: &Vec<u8>) -> (r: Vec<u8>)
    ensures
        r@ == v@,
{
    let mut r: Vec<u8> = Vec::new();
    let mut i: usize = 0;
    while i < v.len()
        invariant
            i <= v.len(),
            r@ == v@.take(i as int),
        decreases v.len() - i,
    {
        r.push(v[i]);
        i += 1;
    }
    assert(v@.take(v.len() as int) =~= v@);
    r
}

/// The files to write for a linked skill: the skill file as it was wrapped, and all
/// others as they are.
pub fn write_linked_skill(
    wrapped_md: &str,
    files: &Vec<(String, Vec<u8>)>,
) -> (r: Vec<(String, Vec<u8>)>)
    ensures
        crate::archive::file_views(r@) == seq![
            ("SKILL.md"@, vstd::utf8::encode_utf8(wrapped_md@)),
        ] + support_files(files@, files@.len() as int),
{
    let mut r: Vec<(String, Vec<u8>)> = Vec::new();
    r.push(("SKILL.md".to_owned(), wrapped_md.as_bytes_vec()));
    let ghost first = seq![("SKILL.md"@, vstd::utf8::encode_utf8(wrapped_md@))];
    let mut i: usize = 0;
    assert(crate::archive::file_views(r@) =~= first + support_files(files@, 0));
    while i < files.len()
        invariant
            i <= files.len(),
            crate::archive::file_views(r@) == first + support_files(files@, i as int),
        decreases files.len() - i,
    {
        if !same(files[i].0.as_str(), "SKILL.md") {
            let ghost was = crate::archive::file_views(r@);
            let ghost one = (files@[i as int].0@, files@[i as int].1@);
            r.push((files[i].0.clone(), copy_bytes(&files[i].1)));
            assert(crate::archive::file_views(r@) =~= was.push(one));
            assert(first + support_files(files@, i as int).push(one) =~= was.push(one));
        }
        i += 1;
    }
    r
}

// ---------------------------------------------------------------------------
// One skill on disk
// ---------------------------------------------------------------------------

/// A file, with what is written into it.
#[derive(Debug)]
pub struct FileWrite {
    pub path: String,
    pub body: String,
}

/// The file is written, unless it holds the same already.
pub open spec fn written_to(
    r: Option<FileWrite>,
    path: Seq<char>,
    body: Seq<char>,
    existing: Option<Seq<char>>,
) -> bool {
    if existing == Some(body) {
        r is None
    } else {
        r matches Some(w) && w.path@ == path && w.body@ == body
    }
}

fn write_changed(path: String, body: &str, existing: Option<&str>) -> (r: Option<FileWrite>)
    ensures
        written_to(r, path@, body@, opt_str_view(existing)),
{
    match existing {
        Some(t) => {
            if same(t, body) {
                return None;
            }
        },
        None => {},
    }
    Some(FileWrite { path, body: body.to_owned() })
}

/// The skill file of a skill below an agent's root.
pub open spec fn skill_file(root: Seq<char>, slug: Seq<char>) -> Seq<char> {
    below(below(root, slug), "SKILL.md"@)
}

/// The rule file of a skill below an agent's root.
pub open spec fn rule_file(root: Seq<char>, slug: Seq<char>) -> Seq<char> {
    below(root, "knack-"@ + slug + ".mdc"@)
}

fn skill_file_path(root: &str, slug: &str) -> (r: String)
    ensures
        r@ == skill_file(root@, slug@),
{
    let dir = join_path(root, slug);
    join_path(dir.as_str(), "SKILL.md")
}

fn rule_file_path(root: &str, slug: &str) -> (r: String)
    ensures
        r@ == rule_file(root@, slug@),
{
    let name = rule_file_name(slug);
    join_path(root, name.as_str())
}

/// What is written for a skill that an agent reads natively, by what is there.
pub fn write_native_skill(root: &str, slug: &str, body: &str, existing: Option<&str>) -> (r: Option<
    FileWrite,
>)
    ensures
        written_to(r, skill_file(root@, slug@), body@, opt_str_view(existing)),
{
    write_changed(skill_file_path(root, slug), body, existing)
}

/// What is written for a skill that an agent reads as a rule, by what is there.
pub fn write_native_rule(root: &str, slug: &str, body: &str, existing: Option<&str>) -> (r: Option<
    FileWrite,
>)
    ensures
        written_to(r, rule_file(root@, slug@), body@, opt_str_view(existing)),
{
    write_changed(rule_file_path(root, slug), body, existing)
}

/// A file that is removed only where it carries the sign.
pub open spec fn removed_at(r: Option<String>, path: Seq<char>, text: Option<Seq<char>>) -> bool {
    if text is Some && carries_sigil(text->0) {
        r matches Some(p) && p@ == path
    } else {
        r is None
    }
}

fn remove_signed(path: String, text: Option<&str>) -> (r: Option<String>)
    ensures
        removed_at(r, path@, opt_str_view(text)),
{
    match text {
        Some(t) => {
            if file_carries_sigil(t) {
                return Some(path);
            }
            None
        },
        None => None,
    }
}

/// The file that is removed of a skill that an agent reads natively, by what its skill
/// file holds: none unless its first line is the sign, so that a skill that somebody
/// wrote is left alone.
pub fn remove_native_skill(root: &str, slug: &str, text: Option<&str>) -> (r: Option<String>)
    ensures
        match opt_str_view(text) {
            Some(t) if sigil_on_top(t) => r matches Some(p) && p@ == skill_file(root@, slug@),
            _ => r is None,
        },
{
    match text {
        Some(t) => {
            if has_sigil_on_top(t) {
                return Some(skill_file_path(root, slug));
            }
            None
        },
        None => None,
    }
}

/// The file that is removed of a skill that an agent reads as a rule.
pub fn remove_native_rule(root: &str, slug: &str, text: Option<&str>) -> (r: Option<String>)
    ensures
        removed_at(r, rule_file(root@, slug@), opt_str_view(text)),
{
    remove_signed(rule_file_path(root, slug), text)
}

/// The folder that is removed of a linked skill, with all below it, by what its skill
/// file holds.
pub fn remove_linked_skill(root: &str, slug: &str, text: Option<&str>) -> (r: Option<String>)
    ensures
        removed_at(r, below(root@, slug@), opt_str_view(text)),
{
    remove_signed(join_path(root, slug), text)
}

} // verus!
