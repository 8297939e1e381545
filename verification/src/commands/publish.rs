//! Publishing a skill folder as a new version.

use vstd::prelude::*;

use crate::errors::{prefixed, user_error, user_error_hint, CliError, CliResult, ErrorView};
use crate::numbers::{
    decimal, lemma_decimal_reads_back, parse_u64, u64_text, unsigned_value, without_plus,
};
use crate::text::{
    contains, drop_leading, find_first, has_prefix, has_suffix, join_strings, joined, lines,
    lines_of, occurs_at, opt_str_view, opt_view, pieces, same, slice_views, split, starts_with,
    strip_prefix, trim_start, views, without_prefix, CharClass,
};
use crate::yaml::{value_field, yaml_value_field, FieldView, YamlField};

pub mod flow;
pub mod laws;

verus! {

/// The arguments of `knack publish`.
#[derive(Debug)]
pub struct PublishArgs {
    pub slug: String,
    /// The folder with the skill file.
    pub from: Option<String>,
    /// The version, instead of one that is worked out.
    pub as_version: Option<String>,
    pub major: bool,
    pub minor: bool,
    pub patch: bool,
    /// Pack and check, but send nothing.
    pub dry_run: bool,
}

// ---------------------------------------------------------------------------
// Versions
// ---------------------------------------------------------------------------

/// Which part of a version is raised.
#[derive(Debug, Clone, Copy, PartialEq, Eq, Structural)]
pub enum BumpKind {
    Major,
    Minor,
}

/// A version without the `v` before it.
pub open spec fn without_v(s: Seq<char>) -> Seq<char> {
    match without_prefix(s, "v"@) {
        Some(t) => t,
        None => s,
    }
}

/// The number that a part of a version is.
pub open spec fn part_value(s: Seq<char>) -> Option<nat> {
    unsigned_value(s, u64::MAX as nat)
}

/// The numbers of a version of two or three parts; a missing third is zero.
/// Nothing where there are other parts, or one is no number.
pub open spec fn version_numbers(s: Seq<char>) -> Option<(nat, nat, nat)> {
    let p = pieces(without_v(s), "."@);
    if p.len() != 2 && p.len() != 3 {
        None
    } else {
        let third = if p.len() == 3 {
            part_value(p[2])
        } else {
            Some(0nat)
        };
        match (part_value(p[0]), part_value(p[1]), third) {
            (Some(a), Some(b), Some(c)) => Some((a, b, c)),
            _ => None,
        }
    }
}

/// The version has the right number of parts.
pub open spec fn has_parts(s: Seq<char>) -> bool {
    let n = pieces(without_v(s), "."@).len();
    n == 2 || n == 3
}

pub open spec fn version_text(a: nat, b: nat, c: nat) -> Seq<char> {
    decimal(a) + "."@ + decimal(b) + "."@ + decimal(c)
}

pub open spec fn bad_semver(message: Seq<char>) -> ErrorView {
    ErrorView::User { code: "PUBLISH_BAD_SEMVER"@, message, hint: None }
}

pub open spec fn non_numeric(s: Seq<char>) -> ErrorView {
    bad_semver("non-numeric component in `"@ + s + "`"@)
}

/// The version with its last number raised.
pub open spec fn patched(s: Seq<char>) -> Result<Seq<char>, ErrorView> {
    if !has_parts(s) {
        Err(bad_semver("can't parse semver `"@ + s + "`"@))
    } else {
        match version_numbers(s) {
            Some((a, b, c)) => Ok(version_text(a, b, c + 1)),
            None => Err(non_numeric(s)),
        }
    }
}

/// The version with its first or second number raised and zeros behind it.
pub open spec fn bumped(s: Seq<char>, kind: BumpKind) -> Result<Seq<char>, ErrorView> {
    if !has_parts(s) {
        Err(bad_semver("can't parse `"@ + s + "`"@))
    } else {
        match version_numbers(s) {
            Some((a, b, c)) => Ok(
                match kind {
                    BumpKind::Major => version_text(a + 1, 0, 0),
                    BumpKind::Minor => version_text(a, b + 1, 0),
                },
            ),
            None => Err(non_numeric(s)),
        }
    }
}

/// The place of the number that is raised, counted from zero.
pub open spec fn raised_place(major: bool, minor: bool) -> int {
    if major {
        0
    } else if minor {
        1
    } else {
        2
    }
}

/// The number of the version in the place is not the greatest one there is.
pub open spec fn can_be_raised(s: Seq<char>, place: int) -> bool {
    version_numbers(s) matches Some((a, b, c)) ==> (if place == 0 {
        a
    } else if place == 1 {
        b
    } else {
        c
    }) < u64::MAX
}

pub open spec fn text_outcome(r: CliResult<String>) -> Result<Seq<char>, ErrorView> {
    match r {
        Ok(s) => Ok(s@),
        Err(e) => Err(e@),
    }
}

fn semver_error(before: &str, semver: &str) -> (r: CliError)
    ensures
        r@ == bad_semver(before@ + semver@ + "`"@),
{
    let mut m = before.to_owned();
    m.append(semver);
    m.append("`");
    user_error("PUBLISH_BAD_SEMVER", m)
}

fn render_version(a: u64, b: u64, c: u64) -> (r: String)
    ensures
        r@ == version_text(a as nat, b as nat, c as nat),
{
    let mut r = u64_text(a);
    r.append(".");
    let y = u64_text(b);
    r.append(y.as_str());
    r.append(".");
    let z = u64_text(c);
    r.append(z.as_str());
    r
}

/// The numbers of a version, or the error for one that cannot be read.
fn numbers_of(semver: &str, unreadable: &str) -> (r: Result<(u64, u64, u64), CliError>)
    ensures
        match r {
            Ok((a, b, c)) => has_parts(semver@) && version_numbers(semver@) == Some(
                (a as nat, b as nat, c as nat),
            ),
            Err(e) => if has_parts(semver@) {
                version_numbers(semver@) is None && e@ == non_numeric(semver@)
            } else {
                e@ == bad_semver(unreadable@ + semver@ + "`"@)
            },
        },
{
    let s = match strip_prefix(semver, "v") {
        Some(t) => t,
        None => semver,
    };
    proof {
        reveal_strlit(".");
    }
    let parts = split(s, ".");
    let ghost p = pieces(without_v(semver@), "."@);
    assert(p.len() == parts@.len());
    if parts.len() != 2 && parts.len() != 3 {
        return Err(semver_error(unreadable, semver));
    }
    assert(p[0] == parts@[0]@ && p[1] == parts@[1]@);
    let a = parse_u64(parts[0]);
    let b = parse_u64(parts[1]);
    let c = if parts.len() == 3 {
        assert(p[2] == parts@[2]@);
        parse_u64(parts[2])
    } else {
        Some(0)
    };
    match (a, b, c) {
        (Some(a), Some(b), Some(c)) => Ok((a, b, c)),
        _ => Err(semver_error("non-numeric component in `", semver)),
    }
}

/// The version with its last number raised: `1.0.0` gives `1.0.1`.
pub fn bump_patch(semver: &str) -> (r: CliResult<String>)
    requires
        can_be_raised(semver@, 2),
    ensures
        text_outcome(r) == patched(semver@),
{
    match numbers_of(semver, "can't parse semver `") {
        Ok((a, b, c)) => Ok(render_version(a, b, c + 1)),
        Err(e) => Err(e),
    }
}

/// The version with its first or second number raised and zeros behind it.
pub fn bump(semver: &str, kind: BumpKind) -> (r: CliResult<String>)
    requires
        can_be_raised(semver@, raised_place(kind == BumpKind::Major, kind == BumpKind::Minor)),
    ensures
        text_outcome(r) == bumped(semver@, kind),
{
    match numbers_of(semver, "can't parse `") {
        Ok((a, b, _)) => Ok(
            match kind {
                BumpKind::Major => render_version(a + 1, 0, 0),
                BumpKind::Minor => render_version(a, b + 1, 0),
            },
        ),
        Err(e) => Err(e),
    }
}

proof fn lemma_dot()
    ensures
        "."@ == seq!['.'],
        "v"@ == seq!['v'],
{
    reveal_strlit(".");
    reveal_strlit("v");
    assert("."@ =~= seq!['.']);
    assert("v"@ =~= seq!['v']);
}

/// Text without a dot, a dot, and more text: the first piece is the text.
proof fn lemma_first_piece(x: Seq<char>, rest: Seq<char>)
    requires
        forall|i: int| 0 <= i < x.len() ==> #[trigger] x[i] != '.',
    ensures
        pieces(x + "."@ + rest, "."@) == seq![x] + pieces(rest, "."@),
{
    lemma_dot();
    let s = x + "."@ + rest;
    let n = x.len() as int;
    assert(s.subrange(n, n + 1) =~= "."@);
    assert forall|j: int| 0 <= j < n implies !#[trigger] occurs_at(s, "."@, j) by {
        if occurs_at(s, "."@, j) {
            assert(s.subrange(j, j + 1)[0] == s[j]);
            assert(s[j] == x[j]);
        }
    }
    crate::text::lemma_find_from_is(s, "."@, 0, n);
    assert(s.take(n) =~= x);
    assert(s.skip(n + 1) =~= rest);
}

proof fn lemma_only_piece(x: Seq<char>)
    requires
        forall|i: int| 0 <= i < x.len() ==> #[trigger] x[i] != '.',
    ensures
        pieces(x, "."@) == seq![x],
{
    lemma_dot();
    assert forall|j: int| !#[trigger] occurs_at(x, "."@, j) by {
        if occurs_at(x, "."@, j) {
            assert(x.subrange(j, j + 1)[0] == x[j]);
        }
    }
    crate::text::lemma_absent(x, "."@);
}

/// A version that is written from its numbers has these numbers.
pub proof fn law_version_text_reads_back(a: nat, b: nat, c: nat)
    requires
        a <= u64::MAX,
        b <= u64::MAX,
        c <= u64::MAX,
    ensures
        has_parts(version_text(a, b, c)),
        version_numbers(version_text(a, b, c)) == Some((a, b, c)),
{
    lemma_dot();
    lemma_decimal_reads_back(a);
    lemma_decimal_reads_back(b);
    lemma_decimal_reads_back(c);
    let s = version_text(a, b, c);
    assert forall|i: int| 0 <= i < decimal(a).len() implies #[trigger] decimal(a)[i] != '.' by {
        assert(crate::numbers::is_digit(decimal(a)[i]));
    }
    assert forall|i: int| 0 <= i < decimal(b).len() implies #[trigger] decimal(b)[i] != '.' by {
        assert(crate::numbers::is_digit(decimal(b)[i]));
    }
    assert forall|i: int| 0 <= i < decimal(c).len() implies #[trigger] decimal(c)[i] != '.' by {
        assert(crate::numbers::is_digit(decimal(c)[i]));
    }
    let rest = decimal(b) + "."@ + decimal(c);
    assert(s =~= decimal(a) + "."@ + rest);
    lemma_first_piece(decimal(a), rest);
    lemma_first_piece(decimal(b), decimal(c));
    lemma_only_piece(decimal(c));
    assert(crate::numbers::is_digit(decimal(a)[0]));
    assert(s[0] == decimal(a)[0]);
    assert(!has_prefix(s, "v"@)) by {
        if has_prefix(s, "v"@) {
            assert(s.take(1)[0] == s[0]);
        }
    }
    let p = pieces(s, "."@);
    assert(p =~= seq![decimal(a), decimal(b), decimal(c)]);
    assert(without_plus(decimal(a)) == decimal(a));
    assert(without_plus(decimal(b)) == decimal(b));
    assert(without_plus(decimal(c)) == decimal(c));
}

/// Raising the last number, the second or the first one: the numbers before it
/// stay, those behind it become zero.
pub proof fn law_bumps_raise_one_number(a: nat, b: nat, c: nat)
    requires
        a <= u64::MAX,
        b <= u64::MAX,
        c <= u64::MAX,
    ensures
        patched(version_text(a, b, c)) == Ok::<Seq<char>, ErrorView>(version_text(a, b, c + 1)),
        bumped(version_text(a, b, c), BumpKind::Minor) == Ok::<Seq<char>, ErrorView>(
            version_text(a, b + 1, 0),
        ),
        bumped(version_text(a, b, c), BumpKind::Major) == Ok::<Seq<char>, ErrorView>(
            version_text(a + 1, 0, 0),
        ),
{
    law_version_text_reads_back(a, b, c);
}

/// The next version of a published skill: the one that is asked for, else the
/// current one raised.
pub open spec fn next_version(
    as_version: Option<Seq<char>>,
    major: bool,
    minor: bool,
    current: Seq<char>,
) -> Result<Seq<char>, ErrorView> {
    match as_version {
        Some(v) => Ok(v),
        None => if major {
            bumped(current, BumpKind::Major)
        } else if minor {
            bumped(current, BumpKind::Minor)
        } else {
            patched(current)
        },
    }
}

/// The next version of a published skill. A skill without a version counts as
/// `0.0.0`.
pub fn next_cloud_version(args: &PublishArgs, current: Option<&str>) -> (r: CliResult<String>)
    requires
        args.as_version is None ==> can_be_raised(
            match current {
                Some(c) => c@,
                None => "0.0.0"@,
            },
            raised_place(args.major, args.minor),
        ),
    ensures
        text_outcome(r) == next_version(
            opt_view(args.as_version),
            args.major,
            args.minor,
            match current {
                Some(c) => c@,
                None => "0.0.0"@,
            },
        ),
{
    let c = match current {
        Some(c) => c,
        None => "0.0.0",
    };
    match &args.as_version {
        Some(v) => Ok(v.clone()),
        None => if args.major {
            bump(c, BumpKind::Major)
        } else if args.minor {
            bump(c, BumpKind::Minor)
        } else {
            bump_patch(c)
        },
    }
}

/// The version that the file of a skill states, by what stands under `version` in
/// it: `0.0.0` where there is no file, or no text there.
pub open spec fn stated_version(meta: Option<Result<FieldView, Seq<char>>>) -> Result<
    Seq<char>,
    ErrorView,
> {
    match meta {
        None => Ok("0.0.0"@),
        Some(Ok(FieldView::Text(v))) => Ok(v),
        Some(Ok(_)) => Ok("0.0.0"@),
        Some(Err(e)) => Err(
            ErrorView::User {
                code: "META_INVALID"@,
                message: "could not parse meta.knack.yaml: "@ + e,
                hint: None,
            },
        ),
    }
}

/// The version that a skill's file states, by what was read of it.
pub fn version_stated(meta: Option<Result<YamlField, String>>) -> (r: CliResult<String>)
    ensures
        text_outcome(r) == stated_version(
            match meta {
                Some(f) => Some(crate::yaml::field_result(f)),
                None => None,
            },
        ),
{
    match meta {
        None => Ok("0.0.0".to_owned()),
        Some(Ok(YamlField::Text(v))) => Ok(v),
        Some(Ok(_)) => Ok("0.0.0".to_owned()),
        Some(Err(e)) => Err(
            user_error(
                "META_INVALID",
                prefixed("could not parse meta.knack.yaml: ", e.as_str()),
            ),
        ),
    }
}

/// The version that the bytes of a skill's file state.
pub fn current_version(meta: Option<&Vec<u8>>) -> (r: CliResult<String>)
    ensures
        text_outcome(r) == stated_version(
            match meta {
                Some(b) => Some(yaml_value_field(b@, "version"@)),
                None => None,
            },
        ),
{
    match meta {
        None => version_stated(None),
        Some(b) => version_stated(Some(value_field(b.as_slice(), "version"))),
    }
}

/// The next version of a skill in a repository, by the version in its file. The
/// first one is `0.1.0`. A `v` before a version that is asked for is dropped.
pub open spec fn next_repo_version(
    as_version: Option<Seq<char>>,
    major: bool,
    minor: bool,
    patch: bool,
    current: Seq<char>,
) -> Result<Seq<char>, ErrorView> {
    match as_version {
        Some(v) => Ok(drop_leading(v, CharClass::One('v'))),
        None => if major {
            bumped(current, BumpKind::Major)
        } else if minor {
            bumped(current, BumpKind::Minor)
        } else if patch {
            patched(current)
        } else if current == "0.0.0"@ {
            Ok("0.1.0"@)
        } else {
            patched(current)
        },
    }
}

/// The next version of a skill in a repository, by the version in its file.
pub fn resolve_github_version(args: &PublishArgs, current: &str) -> (r: CliResult<String>)
    requires
        args.as_version is None ==> can_be_raised(
            current@,
            raised_place(args.major, args.minor),
        ),
    ensures
        text_outcome(r) == next_repo_version(
            opt_view(args.as_version),
            args.major,
            args.minor,
            args.patch,
            current@,
        ),
{
    match &args.as_version {
        Some(v) => Ok(trim_start(v.as_str(), CharClass::One('v')).to_owned()),
        None => if args.major {
            bump(current, BumpKind::Major)
        } else if args.minor {
            bump(current, BumpKind::Minor)
        } else if args.patch {
            bump_patch(current)
        } else if same(current, "0.0.0") {
            Ok("0.1.0".to_owned())
        } else {
            bump_patch(current)
        },
    }
}

/// Whether the number of a version that is to be raised can be.
pub fn is_raisable(semver: &str, major: bool, minor: bool) -> (r: bool)
    ensures
        r == can_be_raised(semver@, raised_place(major, minor)),
{
    match numbers_of(semver, "") {
        Ok((a, b, c)) => if major {
            a < u64::MAX
        } else if minor {
            b < u64::MAX
        } else {
            c < u64::MAX
        },
        Err(_) => true,
    }
}

// ---------------------------------------------------------------------------
// The version in a skill's file
// ---------------------------------------------------------------------------

/// The line states the version.
pub open spec fn states_version(line: Seq<char>) -> bool {
    has_prefix(drop_leading(line, CharClass::White), "version:"@)
}

/// The white space before a line.
pub open spec fn indent_of(line: Seq<char>) -> Seq<char> {
    line.take(line.len() - drop_leading(line, CharClass::White).len())
}

/// The position, from `from` on, of the first line that states the version.
pub open spec fn version_line(ls: Seq<Seq<char>>, from: int) -> Option<int>
    decreases ls.len() - from,
{
    if from < 0 || from >= ls.len() {
        None
    } else if states_version(ls[from]) {
        Some(from)
    } else {
        version_line(ls, from + 1)
    }
}

/// The lines with another version: on the first line that states one, with the
/// same indent, else on a new line at the end.
pub open spec fn versioned_lines(ls: Seq<Seq<char>>, version: Seq<char>) -> Seq<Seq<char>> {
    match version_line(ls, 0) {
        Some(i) => ls.update(i, indent_of(ls[i]) + "version: "@ + version),
        None => ls.push("version: "@ + version),
    }
}

/// The file with another version. It ends with a line feed if it did before.
pub open spec fn versioned(raw: Seq<char>, version: Seq<char>) -> Seq<char> {
    joined(versioned_lines(lines_of(raw), version), "\n"@) + (if has_suffix(raw, "\n"@) {
        "\n"@
    } else {
        seq![]
    })
}

/// The file with another version; every other line, with its comments, stays.
pub fn update_meta_version(raw: &str, new_version: &str) -> (r: String)
    ensures
        r@ == versioned(raw@, new_version@),
{
    let all = lines(raw);
    let ghost ls = lines_of(raw@);
    let mut out: Vec<String> = Vec::new();
    let mut replaced: Option<usize> = None;
    let mut i: usize = 0;
    assert(ls.len() == all@.len());
    while i < all.len()
        invariant
            i <= all.len(),
            slice_views(all@) == ls,
            ls.len() == all@.len(),
            out@.len() == i,
            match replaced {
                Some(k) => k < i && version_line(ls, 0) == Some(k as int) && (forall|j: int|
                    0 <= j < i && j != k ==> (#[trigger] out@[j])@ == ls[j]) && out@[k as int]@ == indent_of(
                    ls[k as int],
                ) + "version: "@ + new_version@,
                None => version_line(ls, 0) == version_line(ls, i as int) && (forall|j: int|
                    0 <= j < i ==> (#[trigger] out@[j])@ == ls[j]),
            },
        decreases all.len() - i,
    {
        let line = all[i];
        assert(ls[i as int] == line@);
        let bare = trim_start(line, CharClass::White);
        if replaced.is_none() && starts_with(bare, "version:") {
            proof {
                crate::text::lemma_drop_leading_is_skip(line@, CharClass::White);
            }
            let indent = line.substring_char(0, line.unicode_len() - bare.unicode_len());
            assert(indent@ =~= indent_of(line@));
            let mut l = indent.to_owned();
            l.append("version: ");
            l.append(new_version);
            out.push(l);
            replaced = Some(i);
        } else {
            out.push(line.to_owned());
        }
        i += 1;
    }
    if replaced.is_none() {
        out.push(prefixed("version: ", new_version));
    }
    proof {
        assert(views(out@) =~= versioned_lines(ls, new_version@));
    }
    let mut r = join_strings(&out, "\n");
    if crate::text::ends_with(raw, "\n") {
        r.append("\n");
    }
    assert(r@ =~= versioned(raw@, new_version@));
    r
}

proof fn lemma_version_line(ls: Seq<Seq<char>>, from: int)
    requires
        0 <= from,
    ensures
        version_line(ls, from) matches Some(i) ==> from <= i < ls.len() && states_version(ls[i]),
        version_line(ls, from) is None ==> forall|i: int|
            from <= i < ls.len() ==> !states_version(#[trigger] ls[i]),
    decreases ls.len() - from,
{
    if from < ls.len() && !states_version(ls[from]) {
        lemma_version_line(ls, from + 1);
    }
}

/// Every line of a file but the one that states the version stays as it is.
pub proof fn law_other_lines_stay(ls: Seq<Seq<char>>, version: Seq<char>)
    ensures
        forall|i: int|
            0 <= i < ls.len() && !states_version(ls[i]) ==> (#[trigger] versioned_lines(ls, version)[i])
                == ls[i],
        ls.len() <= versioned_lines(ls, version).len() <= ls.len() + 1,
{
    lemma_version_line(ls, 0);
}

// ---------------------------------------------------------------------------
// Decisions and messages
// ---------------------------------------------------------------------------

/// A server without archives refuses the first request for one: then the files are
/// sent as text.
pub fn falls_back_to_text(e: &CliError) -> (r: bool)
    ensures
        r == (e@ matches ErrorView::NotFound(m) && find_first(m, "presign-bundle"@) is Some),
{
    match e {
        CliError::NotFound(m) => contains(m.as_str(), "presign-bundle"),
        _ => false,
    }
}

/// The error for a path that is no folder.
pub fn no_folder_error(dir: &str) -> (r: CliError)
    ensures
        r@ == (ErrorView::User {
            code: "PUBLISH_NO_FOLDER"@,
            message: "not a directory: "@ + dir@,
            hint: Some("pass --from <dir> with a folder containing SKILL.md"@),
        }),
{
    user_error_hint(
        "PUBLISH_NO_FOLDER",
        prefixed("not a directory: ", dir),
        "pass --from <dir> with a folder containing SKILL.md",
    )
}

/// The error for a skill that is not in the repository.
pub fn no_skill_error(dir: &str, slug: &str) -> (r: CliError)
    ensures
        r@ == (ErrorView::User {
            code: "PUBLISH_NO_FOLDER"@,
            message: "no skill at "@ + dir@,
            hint: Some("run `knack create "@ + slug@ + "` first"@),
        }),
{
    let mut hint = "run `knack create ".to_owned();
    hint.append(slug);
    hint.append("` first");
    user_error_hint("PUBLISH_NO_FOLDER", prefixed("no skill at ", dir), hint.as_str())
}

/// The error for a file that cannot be read.
pub fn missing_file_error(path: &str, e: &str) -> (r: CliError)
    ensures
        r@ == (ErrorView::User {
            code: "PUBLISH_MISSING_FILE"@,
            message: "can't read "@ + path@ + ": "@ + e@,
            hint: Some("did you `knack pull` first, or write SKILL.md to the folder?"@),
        }),
{
    let mut m = "can't read ".to_owned();
    m.append(path);
    m.append(": ");
    m.append(e);
    user_error_hint(
        "PUBLISH_MISSING_FILE",
        m,
        "did you `knack pull` first, or write SKILL.md to the folder?",
    )
}

/// The version that a dry run names.
pub fn dry_run_version(as_version: Option<&str>) -> (r: String)
    ensures
        r@ == (match opt_str_view(as_version) {
            Some(v) => v,
            None => "(server-assigned)"@,
        }),
{
    match as_version {
        Some(v) => v.to_owned(),
        None => "(server-assigned)".to_owned(),
    }
}

} // verus!
