//! `knack diff`: what changed between two versions of a skill.

use vstd::prelude::*;

use crate::commands::diff::laws::{
    diff_lines, feedless, law_both_texts_are_shown, lemma_lines, shown_but,
};
use crate::commands::link::skill_not_found;
use crate::errors::{copy_error, user_error_hint, CliError, ErrorView};
use crate::json::{
    forms, json_list, member_views, no_members, text_values, with_member, Json, JsonForm, JsonView,
};
use crate::text::{
    concat3, concat5, cut_first, ends_with, has_suffix, one_line, same, split_once, views,
};

pub mod laws;

verus! {

/// The arguments of `knack diff`.
#[derive(Debug, Clone)]
pub struct DiffArgs {
    pub left: String,
    pub right: String,
}

/// The error for a side that does not say which version.
pub open spec fn no_version_error(s: Seq<char>) -> ErrorView {
    ErrorView::User {
        code: "USER_ERROR"@,
        message: "expected `<slug>@<semver>`, got `"@ + s + "`"@,
        hint: Some("e.g. `monthly-close@1.0.0`"@),
    }
}

/// The slug and the version of one side. Both have to be there.
pub fn split<'a>(s: &'a str) -> (r: Result<(&'a str, &'a str), CliError>)
    ensures
        match cut_first(s@, "@"@) {
            Some((slug, version)) => r is Ok && r->Ok_0.0@ == slug && r->Ok_0.1@ == version,
            None => r is Err && r->Err_0@ == no_version_error(s@),
        },
{
    match split_once(s, "@") {
        Some(x) => Ok(x),
        None => Err(
            user_error_hint(
                "USER_ERROR",
                concat3("expected `<slug>@<semver>`, got `", s, "`"),
                "e.g. `monthly-close@1.0.0`",
            ),
        ),
    }
}

/// What is compared.
#[derive(Debug)]
pub struct DiffRequest {
    pub slug: String,
    pub left: String,
    pub right: String,
}

/// What is compared: two versions of one skill.
pub open spec fn same_skill(
    left: Seq<char>,
    right: Seq<char>,
) -> Option<(Seq<char>, Seq<char>, Seq<char>)> {
    match (cut_first(left, "@"@), cut_first(right, "@"@)) {
        (Some((a, v)), Some((b, w))) => if a == b {
            Some((a, v, w))
        } else {
            None
        },
        _ => None,
    }
}

/// What is compared: two versions of one skill.
pub fn diff_request(args: &DiffArgs) -> (r: Result<DiffRequest, CliError>)
    ensures
        match r {
            Ok(q) => same_skill(args.left@, args.right@) == Some((q.slug@, q.left@, q.right@)),
            Err(e) => same_skill(args.left@, args.right@) is None && e@ == (if cut_first(
                args.left@,
                "@"@,
            ) is None {
                no_version_error(args.left@)
            } else if cut_first(args.right@, "@"@) is None {
                no_version_error(args.right@)
            } else {
                ErrorView::User {
                    code: "DIFF_DIFFERENT_SKILLS"@,
                    message: "left and right must be the same skill slug"@,
                    hint: Some("e.g. `knack diff foo@1.0.0 foo@1.1.0`"@),
                }
            }),
        },
{
    let (lslug, lver) = match split(args.left.as_str()) {
        Ok(x) => x,
        Err(e) => {
            return Err(e);
        },
    };
    let (rslug, rver) = match split(args.right.as_str()) {
        Ok(x) => x,
        Err(e) => {
            return Err(e);
        },
    };
    if !same(lslug, rslug) {
        return Err(
            user_error_hint(
                "DIFF_DIFFERENT_SKILLS",
                "left and right must be the same skill slug".to_owned(),
                "e.g. `knack diff foo@1.0.0 foo@1.1.0`",
            ),
        );
    }
    Ok(DiffRequest { slug: lslug.to_owned(), left: lver.to_owned(), right: rver.to_owned() })
}

// ---------------------------------------------------------------------------
// Lines
// ---------------------------------------------------------------------------

/// What became of a line.
#[derive(Debug, Clone, Copy, PartialEq, Eq, Structural)]
pub enum Tag {
    Equal,
    Delete,
    Insert,
}

/// A line, and what became of it.
#[derive(Debug)]
pub struct LineChange {
    pub tag: Tag,
    pub value: String,
}

pub open spec fn change_views(v: Seq<LineChange>) -> Seq<(Tag, Seq<char>)> {
    Seq::new(v.len(), |i: int| (v[i].tag, v[i].value@))
}

/// The text that is left of the first `n` lines without those of one kind.
pub open spec fn side(s: Seq<(Tag, Seq<char>)>, without: Tag, n: int) -> Seq<char>
    decreases n,
{
    if n <= 0 {
        seq![]
    } else if s[n - 1].0 == without {
        side(s, without, n - 1)
    } else {
        side(s, without, n - 1) + s[n - 1].1
    }
}

/// One line: not empty, with a line feed at its end or none.
pub open spec fn whole_line(s: Seq<char>) -> bool {
    s.len() > 0 && one_line(s.drop_last())
}

/// All lines stayed.
pub open spec fn unchanged(s: Seq<(Tag, Seq<char>)>) -> bool {
    forall|i: int| 0 <= i < s.len() ==> (#[trigger] s[i]).0 == Tag::Equal
}

pub uninterp spec fn line_changes(a: Seq<char>, b: Seq<char>) -> Seq<(Tag, Seq<char>)>;

/// The lines of two texts and what became of each: `similar`'s `TextDiff::from_lines`
/// and `iter_all_changes`. The result is a function of the texts. The lines that
/// stayed and those that went make up the first text, the lines that stayed and those
/// that came make up the second, and between equal texts all lines stayed. Each is one
/// whole line: not empty, with a line feed at its end or none.
#[verifier::external_body]
fn changes(a: &str, b: &str) -> (r: Vec<LineChange>)
    ensures
        change_views(r@) == line_changes(a@, b@),
        side(change_views(r@), Tag::Insert, r@.len() as int) == a@,
        side(change_views(r@), Tag::Delete, r@.len() as int) == b@,
        a@ == b@ ==> unchanged(change_views(r@)),
        forall|i: int| 0 <= i < r@.len() ==> whole_line((#[trigger] r@[i]).value@),
{
    similar::TextDiff::from_lines(a, b)
        .iter_all_changes()
        .map(|c| LineChange {
            tag: match c.tag() {
                similar::ChangeTag::Equal => Tag::Equal,
                similar::ChangeTag::Delete => Tag::Delete,
                similar::ChangeTag::Insert => Tag::Insert,
            },
            value: c.value().to_string(),
        })
        .collect()
}

/// The mark before a line.
pub open spec fn mark(t: Tag) -> Seq<char> {
    match t {
        Tag::Equal => " "@,
        Tag::Delete => "-"@,
        Tag::Insert => "+"@,
    }
}

/// A line with its mark. One that has no end gets one.
pub open spec fn marked_line(c: (Tag, Seq<char>)) -> Seq<char> {
    if has_suffix(c.1, "\n"@) {
        mark(c.0) + c.1
    } else {
        mark(c.0) + c.1 + "\n"@
    }
}

/// The first `n` lines, each with its mark.
pub open spec fn marked_text(s: Seq<(Tag, Seq<char>)>, n: int) -> Seq<char>
    decreases n,
{
    if n <= 0 {
        seq![]
    } else {
        marked_text(s, n - 1) + marked_line(s[n - 1])
    }
}

/// The lines, each with its mark.
pub fn mark_changes(v: &Vec<LineChange>) -> (r: String)
    ensures
        r@ == marked_text(change_views(v@), v@.len() as int),
{
    let ghost s = change_views(v@);
    let mut out = String::new();
    let mut i: usize = 0;
    assert(out@ =~= seq![]);
    while i < v.len()
        invariant
            i <= v.len(),
            s == change_views(v@),
            out@ == marked_text(s, i as int),
        decreases v.len() - i,
    {
        let c = &v[i];
        assert(s[i as int] == (c.tag, c.value@));
        let ghost was = out@;
        out.append(
            match c.tag {
                Tag::Equal => " ",
                Tag::Delete => "-",
                Tag::Insert => "+",
            },
        );
        out.append(c.value.as_str());
        if !ends_with(c.value.as_str(), "\n") {
            out.append("\n");
        }
        assert(out@ =~= was + marked_line(s[i as int]));
        i += 1;
    }
    out
}

/// The difference of two texts, line by line.
pub fn unified_diff(a: &str, b: &str) -> (r: String)
    ensures
        r@ == marked_text(line_changes(a@, b@), line_changes(a@, b@).len() as int),
        side(line_changes(a@, b@), Tag::Insert, line_changes(a@, b@).len() as int) == a@,
        side(line_changes(a@, b@), Tag::Delete, line_changes(a@, b@).len() as int) == b@,
        a@ == b@ ==> unchanged(line_changes(a@, b@)),
        forall|i: int|
            0 <= i < line_changes(a@, b@).len() ==> whole_line((#[trigger] line_changes(a@, b@)[i]).1),
        diff_lines(r@).len() == line_changes(a@, b@).len(),
        shown_but(r@, '+') == feedless(a@),
        shown_but(r@, '-') == feedless(b@),
{
    let v = changes(a, b);
    assert(change_views(v@).len() == v@.len());
    assert forall|i: int| 0 <= i < line_changes(a@, b@).len() implies whole_line(
        (#[trigger] line_changes(a@, b@)[i]).1,
    ) by {
        assert(whole_line(v@[i].value@));
    }
    proof {
        law_both_texts_are_shown(line_changes(a@, b@), a@, b@);
        lemma_lines(line_changes(a@, b@), line_changes(a@, b@).len() as int);
    }
    mark_changes(&v)
}

/// Where all lines stayed, the difference has a blank before every line, and no other
/// mark.
pub proof fn law_unchanged_lines_have_blanks(s: Seq<(Tag, Seq<char>)>, i: int)
    requires
        unchanged(s),
        0 <= i < s.len(),
    ensures
        marked_line(s[i]).len() > 0,
        marked_line(s[i])[0] == ' ',
{
    reveal_strlit(" ");
    assert(s[i].0 == Tag::Equal);
    assert(marked_line(s[i])[0] == " "@[0]);
}

// ---------------------------------------------------------------------------
// Files
// ---------------------------------------------------------------------------

/// The texts of a version.
#[derive(Debug)]
pub struct VersionTexts {
    pub version: String,
    pub skill_md: String,
    pub intuition_md: String,
    pub meta_yaml: String,
}

/// A file that changed.
#[derive(Debug)]
pub struct FileDiff {
    pub file: String,
    pub unified: String,
}

pub open spec fn diff_views(v: Seq<FileDiff>) -> Seq<(Seq<char>, Seq<char>)> {
    Seq::new(v.len(), |i: int| (v[i].file@, v[i].unified@))
}

impl JsonForm for FileDiff {
    open spec fn json(&self) -> JsonView {
        JsonView::Object(
            seq![
                ("file"@, JsonView::Text(self.file@)),
                ("unified"@, JsonView::Text(self.unified@)),
            ],
        )
    }

    fn to_json(&self) -> (r: Json) {
        let m = with_member(no_members(), "file", Json::text(self.file.as_str()));
        let m = with_member(m, "unified", Json::text(self.unified.as_str()));
        assert(member_views(m@) =~= self.json()->Object_0);
        Json::object(m)
    }
}

/// A file, if it changed.
pub open spec fn file_diff(
    name: Seq<char>,
    a: Seq<char>,
    b: Seq<char>,
) -> Seq<(Seq<char>, Seq<char>)> {
    if a == b {
        seq![]
    } else {
        seq![(name, marked_text(line_changes(a, b), line_changes(a, b).len() as int))]
    }
}

fn push_diff(out: &mut Vec<FileDiff>, name: &str, a: &str, b: &str)
    ensures
        diff_views(final(out)@) == diff_views(old(out)@) + file_diff(name@, a@, b@),
{
    let ghost was = diff_views(out@);
    if !same(a, b) {
        out.push(FileDiff { file: name.to_owned(), unified: unified_diff(a, b) });
    }
    assert(diff_views(out@) =~= was + file_diff(name@, a@, b@));
}

/// The files that changed.
pub fn changed_files(left: &VersionTexts, right: &VersionTexts) -> (r: Vec<FileDiff>)
    ensures
        diff_views(r@) == file_diff("SKILL.md"@, left.skill_md@, right.skill_md@) + file_diff(
            "intuition.md"@,
            left.intuition_md@,
            right.intuition_md@,
        ) + file_diff("meta.knack.yaml"@, left.meta_yaml@, right.meta_yaml@),
{
    let mut out: Vec<FileDiff> = Vec::new();
    assert(diff_views(out@) =~= seq![]);
    push_diff(&mut out, "SKILL.md", left.skill_md.as_str(), right.skill_md.as_str());
    assert(diff_views(out@) =~= file_diff("SKILL.md"@, left.skill_md@, right.skill_md@));
    push_diff(&mut out, "intuition.md", left.intuition_md.as_str(), right.intuition_md.as_str());
    push_diff(&mut out, "meta.knack.yaml", left.meta_yaml.as_str(), right.meta_yaml.as_str());
    out
}

pub open spec fn diff_names(s: Seq<FileDiff>) -> Seq<Seq<char>> {
    Seq::new(s.len(), |i: int| s[i].file@)
}

/// What `knack diff` reports.
pub open spec fn diff_report(
    skill: Seq<char>,
    left: Seq<char>,
    right: Seq<char>,
    d: Seq<FileDiff>,
) -> JsonView {
    JsonView::Object(
        seq![
            ("skill"@, JsonView::Text(skill)),
            ("left"@, JsonView::Text(left)),
            ("right"@, JsonView::Text(right)),
            ("files_changed"@, JsonView::Array(text_values(diff_names(d)))),
            ("diffs"@, JsonView::Array(forms(d))),
        ],
    )
}

/// What `knack diff` reports.
pub fn diff_json(skill: &str, left: &str, right: &str, diffs: &Vec<FileDiff>) -> (r: Json)
    ensures
        r.value() == diff_report(skill@, left@, right@, diffs@),
{
    let mut names: Vec<String> = Vec::new();
    let mut i: usize = 0;
    while i < diffs.len()
        invariant
            i <= diffs.len(),
            names@.len() == i,
            forall|j: int| 0 <= j < i ==> (#[trigger] names@[j])@ == diffs@[j].file@,
        decreases diffs.len() - i,
    {
        names.push(diffs[i].file.clone());
        i += 1;
    }
    assert(views(names@) =~= diff_names(diffs@));
    let m = with_member(no_members(), "skill", Json::text(skill));
    let m = with_member(m, "left", Json::text(left));
    let m = with_member(m, "right", Json::text(right));
    let m = with_member(m, "files_changed", Json::texts(&names));
    let m = with_member(m, "diffs", json_list(diffs));
    assert(member_views(m@) =~= diff_report(skill@, left@, right@, diffs@)->Object_0);
    Json::object(m)
}

/// What people are told of the first `n` of the files that changed.
pub open spec fn shown_files(
    d: Seq<(Seq<char>, Seq<char>)>,
    left: Seq<char>,
    right: Seq<char>,
    n: int,
) -> Seq<char>
    decreases n,
{
    if n <= 0 {
        seq![]
    } else {
        let (name, unified) = d[n - 1];
        shown_files(d, left, right, n - 1) + ("--- "@ + name + " @ "@ + left + "\n"@) + ("+++ "@
            + name + " @ "@ + right + "\n"@) + unified
    }
}

/// What people are told of two versions, with its line feeds.
pub open spec fn shown_diff(
    d: Seq<(Seq<char>, Seq<char>)>,
    left: Seq<char>,
    right: Seq<char>,
) -> Seq<char> {
    if d.len() == 0 {
        "(identical)\n"@
    } else {
        shown_files(d, left, right, d.len() as int)
    }
}

/// What people are told of two versions: the files that changed, each under the two
/// versions it is of.
pub fn show_diff(diffs: &Vec<FileDiff>, left: &str, right: &str) -> (r: String)
    ensures
        r@ == shown_diff(diff_views(diffs@), left@, right@),
{
    let ghost s = diff_views(diffs@);
    assert(s.len() == diffs@.len());
    if diffs.len() == 0 {
        return "(identical)\n".to_owned();
    }
    let mut out = String::new();
    let mut i: usize = 0;
    assert(out@ =~= seq![]);
    while i < diffs.len()
        invariant
            i <= diffs.len(),
            s == diff_views(diffs@),
            out@ == shown_files(s, left@, right@, i as int),
        decreases diffs.len() - i,
    {
        let d = &diffs[i];
        assert(s[i as int] == (d.file@, d.unified@));
        let before = concat5("--- ", d.file.as_str(), " @ ", left, "\n");
        let after = concat5("+++ ", d.file.as_str(), " @ ", right, "\n");
        out.append(before.as_str());
        out.append(after.as_str());
        out.append(d.unified.as_str());
        i += 1;
    }
    out
}

// ---------------------------------------------------------------------------
// Asking for the versions
// ---------------------------------------------------------------------------

/// What is known while two versions are compared. What was not asked yet is not there.
#[derive(Debug)]
pub struct DiffFacts {
    /// The id of the skill, if it is there.
    pub skill: Option<Result<Option<String>, CliError>>,
    pub left: Option<Result<VersionTexts, CliError>>,
    pub right: Option<Result<VersionTexts, CliError>>,
}

/// What is done next while two versions are compared.
#[derive(Debug)]
pub enum DiffAction {
    FindSkill { slug: String },
    GetVersion { skill_id: String, version: String },
    Fail(CliError),
    /// What programs and people are told.
    Done { report: Json, text: String },
}

/// The files that changed between two versions.
pub open spec fn version_diff(left: VersionTexts, right: VersionTexts) -> Seq<
    (Seq<char>, Seq<char>),
> {
    file_diff("SKILL.md"@, left.skill_md@, right.skill_md@) + file_diff(
        "intuition.md"@,
        left.intuition_md@,
        right.intuition_md@,
    ) + file_diff("meta.knack.yaml"@, left.meta_yaml@, right.meta_yaml@)
}

/// Both versions are known: what is told of them.
pub open spec fn is_told(
    slug: Seq<char>,
    left: VersionTexts,
    right: VersionTexts,
    report: JsonView,
    text: Seq<char>,
) -> bool {
    &&& text == shown_diff(version_diff(left, right), left.version@, right.version@)
    &&& exists|d: Seq<FileDiff>|
        diff_views(d) == version_diff(left, right) && report == #[trigger] diff_report(
            slug,
            left.version@,
            right.version@,
            d,
        )
}

/// What is done next while two versions are compared: the skill is found, then the left
/// version, then the right one.
pub open spec fn diff_next(q: DiffRequest, f: DiffFacts, r: DiffAction) -> bool {
    match f.skill {
        None => r matches DiffAction::FindSkill { slug } && slug@ == q.slug@,
        Some(Err(e)) => r matches DiffAction::Fail(x) && x@ == e@,
        Some(Ok(None)) => r matches DiffAction::Fail(x) && x@ == ErrorView::NotFound(
            "skill `"@ + q.slug@ + "` not found"@,
        ),
        Some(Ok(Some(id))) => match f.left {
            None => r matches DiffAction::GetVersion { skill_id, version } && skill_id@ == id@
                && version@ == q.left@,
            Some(Err(e)) => r matches DiffAction::Fail(x) && x@ == e@,
            Some(Ok(a)) => match f.right {
                None => r matches DiffAction::GetVersion { skill_id, version } && skill_id@ == id@
                    && version@ == q.right@,
                Some(Err(e)) => r matches DiffAction::Fail(x) && x@ == e@,
                Some(Ok(b)) => r matches DiffAction::Done { report, text } && is_told(
                    q.slug@,
                    a,
                    b,
                    report.value(),
                    text@,
                ),
            },
        },
    }
}

/// What is done next while two versions are compared.
pub fn run(q: &DiffRequest, f: &DiffFacts) -> (r: DiffAction)
    ensures
        diff_next(*q, *f, r),
{
    let id = match &f.skill {
        None => {
            return DiffAction::FindSkill { slug: q.slug.clone() };
        },
        Some(Err(e)) => {
            return DiffAction::Fail(copy_error(e));
        },
        Some(Ok(None)) => {
            return DiffAction::Fail(skill_not_found(q.slug.as_str()));
        },
        Some(Ok(Some(id))) => id,
    };
    let a = match &f.left {
        None => {
            return DiffAction::GetVersion { skill_id: id.clone(), version: q.left.clone() };
        },
        Some(Err(e)) => {
            return DiffAction::Fail(copy_error(e));
        },
        Some(Ok(a)) => a,
    };
    match &f.right {
        None => DiffAction::GetVersion { skill_id: id.clone(), version: q.right.clone() },
        Some(Err(e)) => DiffAction::Fail(copy_error(e)),
        Some(Ok(b)) => {
            let d = changed_files(a, b);
            let report = diff_json(q.slug.as_str(), a.version.as_str(), b.version.as_str(), &d);
            let text = show_diff(&d, a.version.as_str(), b.version.as_str());
            DiffAction::Done { report, text }
        },
    }
}

/// Of two versions with the same texts people are told that they are identical.
pub proof fn law_equal_versions_are_identical(left: VersionTexts, right: VersionTexts)
    requires
        left.skill_md@ == right.skill_md@,
        left.intuition_md@ == right.intuition_md@,
        left.meta_yaml@ == right.meta_yaml@,
    ensures
        shown_diff(version_diff(left, right), left.version@, right.version@) == "(identical)\n"@,
{
}

} // verus!
