//! Which version a skill gets, and how it is published step by step.

use vstd::prelude::*;

use crate::commands::publish::flow::{publish_next, ActionView, PublishFacts};
use crate::commands::publish::{
    bumped, indent_of, law_bumps_raise_one_number, law_version_text_reads_back, next_repo_version, next_version, patched,
    stated_version, states_version, version_line, version_numbers, version_text, versioned,
    versioned_lines, BumpKind, FieldView, PublishArgs,
};
use crate::errors::ErrorView;
use crate::numbers::{decimal, is_digit, lemma_decimal_reads_back};
use crate::text::laws::{
    lacks, law_a_start_comes_off, law_pieces_stand_between_separators, law_the_first_place_is_found,
    stands_in,
};
use crate::text::{
    drop_leading, find_first, has_prefix, joined, lines_of, opt_view, pieces, CharClass,
};

verus! {

// ---------------------------------------------------------------------------
// Versions
// ---------------------------------------------------------------------------

proof fn lemma_no_dot(n: nat)
    ensures
        lacks(decimal(n), '.'),
        decimal(n).len() > 0,
        decimal(n)[0] != 'v',
{
    lemma_decimal_reads_back(n);
    assert forall|i: int| 0 <= i < decimal(n).len() implies #[trigger] decimal(n)[i] != '.' by {
        assert(is_digit(decimal(n)[i]));
    }
    assert(is_digit(decimal(n)[0]));
}

/// A `v` before a version changes nothing, and a version of two numbers is the one with a
/// zero behind them.
pub proof fn law_short_versions_and_a_v(a: nat, b: nat, c: nat)
    requires
        a <= u64::MAX,
        b <= u64::MAX,
        c <= u64::MAX,
    ensures
        version_numbers("v"@ + version_text(a, b, c)) == Some((a, b, c)),
        version_numbers(decimal(a) + "."@ + decimal(b)) == Some((a, b, 0nat)),
        version_numbers("v"@ + decimal(a) + "."@ + decimal(b)) == Some((a, b, 0nat)),
{
    reveal_strlit(".");
    reveal_strlit("v");
    law_version_text_reads_back(a, b, c);
    lemma_no_dot(a);
    lemma_no_dot(b);
    lemma_decimal_reads_back(a);
    lemma_decimal_reads_back(b);
    let t = version_text(a, b, c);
    let two = decimal(a) + "."@ + decimal(b);
    law_a_start_comes_off("v"@ + t, "v"@, t);
    law_a_start_comes_off("v"@ + two, "v"@, two);
    assert("v"@ + decimal(a) + "."@ + decimal(b) =~= "v"@ + two);
    assert(t[0] == decimal(a)[0] && two[0] == decimal(a)[0]);
    if has_prefix(t, "v"@) {
        assert(t.take(1)[0] == t[0]);
    }
    if has_prefix(two, "v"@) {
        assert(two.take(1)[0] == two[0]);
    }
    law_pieces_stand_between_separators(decimal(a), "."@, decimal(b));
    law_pieces_stand_between_separators(decimal(b), "."@, decimal(b));
    assert(pieces(two, "."@) =~= seq![decimal(a), decimal(b)]);
}

/// A text of one part or of four is no version.
pub proof fn law_versions_have_two_or_three_numbers(
    x: Seq<char>,
    y: Seq<char>,
    z: Seq<char>,
    w: Seq<char>,
)
    requires
        lacks(x, '.'),
        lacks(y, '.'),
        lacks(z, '.'),
        lacks(w, '.'),
        lacks(x, 'v'),
    ensures
        version_numbers(x) is None,
        version_numbers(x + "."@ + (y + "."@ + (z + "."@ + w))) is None,
{
    reveal_strlit(".");
    reveal_strlit("v");
    let zw = z + "."@ + w;
    let yzw = y + "."@ + zw;
    let s = x + "."@ + yzw;
    law_pieces_stand_between_separators(x, "."@, yzw);
    law_pieces_stand_between_separators(y, "."@, zw);
    law_pieces_stand_between_separators(z, "."@, w);
    law_pieces_stand_between_separators(w, "."@, w);
    if has_prefix(x, "v"@) {
        assert(x.take(1)[0] == x[0]);
    }
    if has_prefix(s, "v"@) {
        assert(s.take(1)[0] == s[0]);
        assert(x.len() > 0 ==> s[0] == x[0]);
    }
}

/// The version that is asked for is taken as it is. Without one the first number is raised
/// where the change is a great one, else the second where it is a small one, else the last;
/// the numbers behind the one that is raised start again.
pub proof fn law_the_next_version(
    given: Seq<char>,
    major: bool,
    minor: bool,
    current: Seq<char>,
    a: nat,
    b: nat,
    c: nat,
)
    requires
        a <= u64::MAX,
        b <= u64::MAX,
        c <= u64::MAX,
    ensures
        next_version(Some(given), major, minor, current) == Ok::<Seq<char>, ErrorView>(given),
        next_version(None, true, minor, version_text(a, b, c)) == Ok::<Seq<char>, ErrorView>(
            version_text(a + 1, 0, 0),
        ),
        next_version(None, false, true, version_text(a, b, c)) == Ok::<Seq<char>, ErrorView>(
            version_text(a, b + 1, 0),
        ),
        next_version(None, false, false, version_text(a, b, c)) == Ok::<Seq<char>, ErrorView>(
            version_text(a, b, c + 1),
        ),
{
    law_bumps_raise_one_number(a, b, c);
}

/// In a repository a version that is asked for is taken without a `v` before it. Without one
/// the numbers are raised as asked for; a skill that was never published starts with
/// `0.1.0`, unless something is asked for.
pub proof fn law_the_next_version_of_a_repository(
    given: Seq<char>,
    major: bool,
    minor: bool,
    patch: bool,
    current: Seq<char>,
    a: nat,
    b: nat,
    c: nat,
)
    requires
        a <= u64::MAX,
        b <= u64::MAX,
        c <= u64::MAX,
        given.len() == 0 || given[0] != 'v',
        version_text(a, b, c) != "0.0.0"@,
    ensures
        next_repo_version(Some(given), major, minor, patch, current) == Ok::<
            Seq<char>,
            ErrorView,
        >(given),
        next_repo_version(Some(seq!['v'] + given), major, minor, patch, current) == Ok::<
            Seq<char>,
            ErrorView,
        >(given),
        next_repo_version(None, true, minor, patch, version_text(a, b, c)) == Ok::<
            Seq<char>,
            ErrorView,
        >(version_text(a + 1, 0, 0)),
        next_repo_version(None, false, true, patch, version_text(a, b, c)) == Ok::<
            Seq<char>,
            ErrorView,
        >(version_text(a, b + 1, 0)),
        next_repo_version(None, false, false, patch, version_text(a, b, c)) == Ok::<
            Seq<char>,
            ErrorView,
        >(version_text(a, b, c + 1)),
        next_repo_version(None, false, false, false, "0.0.0"@) == Ok::<Seq<char>, ErrorView>(
            "0.1.0"@,
        ),
        next_repo_version(None, false, false, true, "0.0.0"@) == patched("0.0.0"@),
{
    law_bumps_raise_one_number(a, b, c);
    let t = seq!['v'] + given;
    assert(t.drop_first() =~= given);
    assert(drop_leading(given, CharClass::One('v')) == given);
    assert(t[0] == 'v');
    assert(drop_leading(t, CharClass::One('v')) == drop_leading(given, CharClass::One('v')));
}

/// Raising a text that is no version is refused, under one code, whatever is raised.
pub proof fn law_only_versions_are_raised(s: Seq<char>, kind: BumpKind)
    requires
        version_numbers(s) is None,
    ensures
        patched(s) matches Err(ErrorView::User { code, message, hint }) && code
            == "PUBLISH_BAD_SEMVER"@,
        bumped(s, kind) matches Err(ErrorView::User { code, message, hint }) && code
            == "PUBLISH_BAD_SEMVER"@,
{
}

/// The version that a skill's file states is the text under its key. A file without one, or
/// no file, states that the skill was never published.
pub proof fn law_the_stated_version(v: Seq<char>)
    ensures
        stated_version(Some(Ok(FieldView::Text(v)))) == Ok::<Seq<char>, ErrorView>(v),
        stated_version(None) == Ok::<Seq<char>, ErrorView>("0.0.0"@),
{
}

proof fn lemma_version_line(ls: Seq<Seq<char>>, from: int)
    requires
        0 <= from <= ls.len(),
    ensures
        match version_line(ls, from) {
            Some(i) => from <= i < ls.len() && states_version(ls[i]) && forall|j: int|
                from <= j < i ==> !states_version(#[trigger] ls[j]),
            None => forall|j: int| from <= j < ls.len() ==> !states_version(#[trigger] ls[j]),
        },
    decreases ls.len() - from,
{
    if from < ls.len() && !states_version(ls[from]) {
        lemma_version_line(ls, from + 1);
    }
}

/// A line states a version where `version:` stands behind the white space at its start.
pub open spec fn has_version(line: Seq<char>, indent: Seq<char>, rest: Seq<char>) -> bool {
    &&& line == indent + "version:"@ + rest
    &&& forall|i: int| 0 <= i < indent.len() ==> crate::text::is_white(#[trigger] indent[i])
}

proof fn lemma_indent(line: Seq<char>, indent: Seq<char>, rest: Seq<char>)
    requires
        has_version(line, indent, rest),
    ensures
        states_version(line),
        indent_of(line) == indent,
{
    reveal_strlit("version:");
    let k = CharClass::White;
    let n = indent.len() as int;
    assert forall|i: int| 0 <= i < n implies k.holds(#[trigger] line[i]) by {
        assert(line[i] == indent[i]);
    }
    assert(line[n] == 'v');
    crate::text::lemma_drop_leading_skips(line, k, n);
    assert(line.skip(n).take("version:"@.len() as int) =~= "version:"@);
    assert(line.take(n) =~= indent);
}

/// Where lines state a version the first such line gets the new one, behind the same white
/// space, and every other line stays.
pub proof fn law_the_first_stated_version_is_replaced(
    ls: Seq<Seq<char>>,
    version: Seq<char>,
    k: int,
    indent: Seq<char>,
    rest: Seq<char>,
)
    requires
        0 <= k < ls.len(),
        has_version(ls[k], indent, rest),
        forall|j: int| 0 <= j < k ==> !states_version(#[trigger] ls[j]),
    ensures
        versioned_lines(ls, version).len() == ls.len(),
        versioned_lines(ls, version)[k] == indent + "version: "@ + version,
        forall|j: int|
            0 <= j < ls.len() && j != k ==> #[trigger] versioned_lines(ls, version)[j] == ls[j],
{
    lemma_indent(ls[k], indent, rest);
    lemma_version_line(ls, 0);
    let i = version_line(ls, 0)->0;
    if i < k {
        assert(!states_version(ls[i]));
    }
}

/// Where no line states a version a line that does comes behind the others.
pub proof fn law_a_missing_version_is_added(ls: Seq<Seq<char>>, version: Seq<char>)
    requires
        forall|j: int| 0 <= j < ls.len() ==> !states_version(#[trigger] ls[j]),
    ensures
        versioned_lines(ls, version) == ls + seq!["version: "@ + version],
{
    lemma_version_line(ls, 0);
    assert(versioned_lines(ls, version) =~= ls + seq!["version: "@ + version]);
}

/// The file is its lines with the version, one behind the other; it ends with a line feed
/// exactly where it did.
pub proof fn law_the_file_ends_as_it_did(raw: Seq<char>, version: Seq<char>)
    ensures
        raw.len() > 0 && raw.last() == '\n' ==> versioned(raw, version) == joined(
            versioned_lines(lines_of(raw), version),
            seq!['\n'],
        ) + seq!['\n'],
        raw.len() == 0 || raw.last() != '\n' ==> versioned(raw, version) == joined(
            versioned_lines(lines_of(raw), version),
            seq!['\n'],
        ),
{
    reveal_strlit("\n");
    assert("\n"@ =~= seq!['\n']);
    if raw.len() > 0 {
        assert(raw.skip(raw.len() - 1)[0] == raw.last());
        if raw.last() == '\n' {
            assert(raw.skip(raw.len() - 1) =~= "\n"@);
        }
    }
    let all = joined(versioned_lines(lines_of(raw), version), seq!['\n']);
    assert(all + Seq::<char>::empty() =~= all);
}

// ---------------------------------------------------------------------------
// The steps
// ---------------------------------------------------------------------------

/// A skill is found and its version known.
pub open spec fn is_ready(args: PublishArgs, f: PublishFacts, version: Seq<char>) -> bool {
    &&& f.is_dir
    &&& f.format is None
    &&& !args.dry_run
    &&& f.skill matches Some(Ok(Some(s))) && next_version(
        opt_view(args.as_version),
        args.major,
        args.minor,
        match s.current_version_semver {
            Some(v) => v@,
            None => "0.0.0"@,
        },
    ) == Ok::<Seq<char>, ErrorView>(version)
}

/// A skill that is ready is packed first; then a place for the archive is asked for, the
/// archive is sent there, and the version is made of it, behind the one that was current.
pub proof fn law_archives_are_published_step_by_step(
    args: PublishArgs,
    dir: Seq<char>,
    f: PublishFacts,
    version: Seq<char>,
)
    requires
        is_ready(args, f, version),
    ensures
        ({
            let s = (f.skill->0)->Ok_0->0;
            let next = publish_next(args, dir, f);
            &&& f.packed is None ==> next == (ActionView::Pack { dir })
            &&& f.packed matches Some(Ok(bytes)) ==> {
                &&& f.presigned is None ==> next == (ActionView::Presign { skill_id: s.id@ })
                &&& f.presigned matches Some(Ok(place)) ==> {
                    &&& f.uploaded is None ==> next == (ActionView::Upload {
                        url: place.upload_url@,
                        bytes: bytes@,
                    })
                    &&& f.uploaded matches Some(Ok(status)) ==> {
                        &&& status < 200 || status > 299 ==> (next matches ActionView::Fail(
                            ErrorView::Server { status: st, code, message },
                        ) && st == status && code == "BUNDLE_UPLOAD_FAILED"@)
                        &&& 200 <= status <= 299 && f.created is None ==> (
                        next matches ActionView::Create { skill_id, version: v } && skill_id
                            == s.id@ && v.version == version && v.packed_s3_key == Some(
                            place.s3_key@,
                        ) && v.parent_version_id == (match s.current_version_id {
                            Some(p) => Some(p@),
                            None => None,
                        }) && v.skill_md.len() == 0 && v.artifact_ids.len() == 0)
                        &&& 200 <= status <= 299 && f.created is Some && f.created->0 is Ok ==> next
                            is Done
                    }
                }
            }
        }),
{
    reveal_strlit("");
    let s = (f.skill->0)->Ok_0->0;
    assert(opt_view(s.current_version_semver) == (match s.current_version_semver {
        Some(v) => Some(v@),
        None => None,
    }));
}

/// The first step that failed, other than sending to a place that refuses.
pub open spec fn archive_error(f: PublishFacts) -> Option<ErrorView> {
    match f.packed {
        Some(Err(e)) => Some(e@),
        Some(Ok(_)) => match f.presigned {
            Some(Err(e)) => Some(e@),
            Some(Ok(_)) => match f.uploaded {
                Some(Err(e)) => Some(e@),
                Some(Ok(status)) => match f.created {
                    Some(Err(e)) if 200 <= status <= 299 => Some(e@),
                    _ => None,
                },
                None => None,
            },
            None => None,
        },
        None => None,
    }
}

/// Only where the server does not know how to take archives are the texts sent instead:
/// where something is not found and the message speaks of asking for a place. Any other
/// failure is the outcome.
pub proof fn law_texts_are_sent_to_servers_without_archives(
    args: PublishArgs,
    dir: Seq<char>,
    f: PublishFacts,
    version: Seq<char>,
    e: ErrorView,
    at: int,
)
    requires
        is_ready(args, f, version),
        archive_error(f) == Some(e),
    ensures
        ({
            let s = (f.skill->0)->Ok_0->0;
            let next = publish_next(args, dir, f);
            &&& !(e is NotFound) ==> next == ActionView::Fail(e)
            &&& e is NotFound && stands_in(e->NotFound_0, "presign-bundle"@, at) ==> {
                &&& f.texts is None ==> next == (ActionView::ReadTexts { dir })
                &&& f.texts matches Some(Err(x)) ==> next == ActionView::Fail(x@)
                &&& f.texts matches Some(Ok(t)) ==> {
                    &&& f.text_created is None ==> (next matches ActionView::Create {
                        skill_id,
                        version: v,
                    } && skill_id == s.id@ && v.version == version && v.packed_s3_key is None
                        && v.skill_md == t.skill_md@ && v.intuition_md == t.intuition_md@
                        && v.meta_yaml == t.meta_yaml@ && v.tests_yaml == t.tests_yaml@
                        && v.parent_version_id == (match s.current_version_id {
                        Some(p) => Some(p@),
                        None => None,
                    }))
                    &&& f.text_created matches Some(Err(x)) ==> next == ActionView::Fail(x@)
                    &&& f.text_created is Some && f.text_created->0 is Ok ==> next is Done
                }
            }
            &&& e is NotFound && (forall|i: int|
                !#[trigger] stands_in(e->NotFound_0, "presign-bundle"@, i)) ==> next
                == ActionView::Fail(e)
        }),
{
    if e is NotFound {
        law_the_first_place_is_found(e->NotFound_0, "presign-bundle"@);
        if find_first(e->NotFound_0, "presign-bundle"@) is Some {
            let i = find_first(e->NotFound_0, "presign-bundle"@)->0;
            assert(stands_in(e->NotFound_0, "presign-bundle"@, i));
        }
    }
}

} // verus!
