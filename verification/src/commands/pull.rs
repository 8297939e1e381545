//! `knack pull`: a skill on disk.

use vstd::prelude::*;

use crate::commands::fetch::{
    fetch_named, named_next, sound, FetchAction, FetchFacts, Lookup, NamedSkill, ServerVersion,
};
use crate::commands::install::installed::Scope;
use crate::commands::publish::flow::{push_shims, shim_lines, shims_json, shims_report};
use crate::commands::sync::{ShimResult, SyncReport};
use crate::config::{below, join_path};
use crate::errors::{user_error_hint, CliError, ErrorView};
use crate::github::external::{parse_spec, spec_of, ExternalSpec};
use crate::json::{member_views, no_members, text_values, with_member, Json, JsonView};
use crate::order::{keys_of, TextMap};
use crate::slug::{parse_slug_at_version, slug_parts};
use crate::text::{
    concat5, concat6, concat7, has_prefix, opt_owned, opt_str_view, opt_view, push_line, same,
    starts_with, views,
};
use crate::types::SkillPackage;

pub mod github;

verus! {

/// The arguments of `knack pull`.
#[derive(Debug, Clone)]
pub struct PullArgs {
    pub slug_at_version: String,
    pub target: Option<String>,
    /// Into the pool in the home directory.
    pub global: bool,
}

/// Where the entries for agents go: with the skill.
pub fn shim_scope(global: bool) -> (r: Scope)
    ensures
        r == (if global {
            Scope::Home
        } else {
            Scope::Project
        }),
{
    if global {
        Scope::Home
    } else {
        Scope::Project
    }
}

/// A file is written: it is not there, or holds something else.
pub open spec fn is_written(existing: Option<Seq<char>>, content: Seq<char>) -> bool {
    existing != Some(content)
}

/// Whether a file is written.
pub fn write_if_changed(existing: Option<&str>, content: &str) -> (r: bool)
    ensures
        r == is_written(opt_str_view(existing), content@),
{
    match existing {
        Some(t) => !same(t, content),
        None => true,
    }
}

/// A file that was written is not written again, as long as its content stays.
pub proof fn law_pulling_again_writes_nothing(existing: Option<Seq<char>>, content: Seq<char>)
    ensures
        !is_written(
            if is_written(existing, content) {
                Some(content)
            } else {
                existing
            },
            content,
        ),
{
}

/// The files of a version that was published as texts, in the order in which they
/// are written.
pub fn legacy_files(
    skill_md: &str,
    intuition_md: &str,
    meta_yaml: &str,
) -> (r: Vec<(String, String)>)
    ensures
        crate::api::request::pair_views(r@) == seq![
            ("SKILL.md"@, skill_md@),
            ("intuition.md"@, intuition_md@),
            ("meta.knack.yaml"@, meta_yaml@),
        ],
{
    let mut v: Vec<(String, String)> = Vec::new();
    v.push(("SKILL.md".to_owned(), skill_md.to_owned()));
    v.push(("intuition.md".to_owned(), intuition_md.to_owned()));
    v.push(("meta.knack.yaml".to_owned(), meta_yaml.to_owned()));
    assert(crate::api::request::pair_views(v@) =~= seq![
        ("SKILL.md"@, skill_md@),
        ("intuition.md"@, intuition_md@),
        ("meta.knack.yaml"@, meta_yaml@),
    ]);
    v
}

/// The paths of the files that a bundle holds, below the skill's folder.
pub fn bundle_paths(dir: &str, files: &TextMap<String>) -> (r: Vec<String>)
    ensures
        views(r@) == Seq::new(
            keys_of(files.entries@).len(),
            |i: int| below(dir@, keys_of(files.entries@)[i]),
        ),
{
    let names = files.keys();
    let ghost s = keys_of(files.entries@);
    let mut out: Vec<String> = Vec::new();
    let mut i: usize = 0;
    assert(views(names@).len() == names@.len());
    while i < names.len()
        invariant
            i <= names.len(),
            views(names@) == s,
            s.len() == names@.len(),
            out@.len() == i,
            forall|j: int| 0 <= j < i ==> (#[trigger] out@[j])@ == below(dir@, s[j]),
        decreases names.len() - i,
    {
        assert(s[i as int] == names@[i as int]@);
        out.push(join_path(dir, names[i].as_str()));
        i += 1;
    }
    assert(views(out@) =~= Seq::new(s.len(), |i: int| below(dir@, s[i])));
    out
}

/// What the local index is told of a skill's folder.
#[derive(Debug)]
pub enum FolderNews {
    /// The skill is in the folder with the id and the name.
    In(String, String),
    /// It is in none.
    Out,
}

/// What the local index is told of a skill's folder: where both id and name are
/// known, it is in it.
pub fn folder_news(folder_id: Option<&str>, folder_name: Option<&str>) -> (r: FolderNews)
    ensures
        match (opt_str_view(folder_id), opt_str_view(folder_name)) {
            (Some(id), Some(name)) => r matches FolderNews::In(a, b) && a@ == id && b@ == name,
            _ => r is Out,
        },
{
    match (folder_id, folder_name) {
        (Some(id), Some(name)) => FolderNews::In(id.to_owned(), name.to_owned()),
        _ => FolderNews::Out,
    }
}

/// What people are told while a skill is pulled.
pub fn pulled_line(slug: &str, version: &str, packed: bool, dir: &str) -> (r: String)
    ensures
        r@ == "pulled "@ + slug@ + "@"@ + version@ + " ("@ + mode_of(packed) + ") → "@ + dir@,
{
    let mut r = concat7("pulled ", slug, "@", version, " (", mode_label(packed), ") → ");
    r.append(dir);
    r
}

/// What is done next while a skill is pulled from the server.
pub fn run(args: &PullArgs, skill: &Lookup, f: &FetchFacts) -> (r: FetchAction)
    requires
        sound(*f),
    ensures
        r@ == named_next(args.slug_at_version@, *skill, *f),
{
    fetch_named(args.slug_at_version.as_str(), skill, f)
}

/// How a version was published.
pub open spec fn mode_of(packed: bool) -> Seq<char> {
    if packed {
        "bundle"@
    } else {
        "legacy"@
    }
}

/// How a version was published.
pub fn mode_label(packed: bool) -> (r: &'static str)
    ensures
        r@ == mode_of(packed),
{
    if packed {
        "bundle"
    } else {
        "legacy"
    }
}

/// What is reported of a skill that was pulled.
pub open spec fn pull_report(
    id: Seq<char>,
    slug: Seq<char>,
    version: Seq<char>,
    dir: Seq<char>,
    written: Seq<Seq<char>>,
    packed: bool,
    shims: SyncReport,
) -> JsonView {
    JsonView::Object(
        seq![
            ("skill_id"@, JsonView::Text(id)),
            ("slug"@, JsonView::Text(slug)),
            ("version"@, JsonView::Text(version)),
            ("path"@, JsonView::Text(dir)),
            ("files_written"@, JsonView::Array(text_values(written))),
            ("mode"@, JsonView::Text(mode_of(packed))),
            ("shims"@, shims_report(shims)),
        ],
    )
}

/// What is reported of a skill that was pulled.
pub fn pull_json(
    skill: &NamedSkill,
    version: &ServerVersion,
    dir: &str,
    written: &Vec<String>,
    shims: &SyncReport,
) -> (r: Json)
    ensures
        r.value() == pull_report(
            skill.id@,
            skill.slug@,
            version.version@,
            dir@,
            views(written@),
            version.packed,
            *shims,
        ),
{
    let m = with_member(no_members(), "skill_id", Json::text(skill.id.as_str()));
    let m = with_member(m, "slug", Json::text(skill.slug.as_str()));
    let m = with_member(m, "version", Json::text(version.version.as_str()));
    let m = with_member(m, "path", Json::text(dir));
    let m = with_member(m, "files_written", Json::texts(written));
    let m = with_member(m, "mode", Json::text(mode_label(version.packed)));
    let m = with_member(m, "shims", shims_json(shims));
    assert(member_views(m@) =~= pull_report(
        skill.id@,
        skill.slug@,
        version.version@,
        dir@,
        views(written@),
        version.packed,
        *shims,
    )->Object_0);
    Json::object(m)
}

/// What people are told of an agent that was left out.
pub open spec fn skipped_line(s: ShimResult) -> Seq<char> {
    "  ↪ "@ + s.agent@ + " shim skipped ("@ + (match opt_view(s.reason) {
        Some(why) => why,
        None => "?"@,
    }) + ")"@
}

/// What people are told of a skill that was pulled.
pub open spec fn pull_text(
    slug: Seq<char>,
    version: Seq<char>,
    dir: Seq<char>,
    shims: SyncReport,
) -> Seq<Seq<char>> {
    seq!["✓ "@ + slug + "@"@ + version + " → "@ + dir] + shim_lines(shims.written@) + Seq::new(
        shims.skipped@.len(),
        |i: int| skipped_line(shims.skipped@[i]),
    )
}

/// What people are told of a skill that was pulled.
pub fn pull_lines(slug: &str, version: &str, dir: &str, shims: &SyncReport) -> (r: Vec<String>)
    ensures
        views(r@) == pull_text(slug@, version@, dir@, *shims),
{
    let mut out: Vec<String> = Vec::new();
    push_line(&mut out, concat6("✓ ", slug, "@", version, " → ", dir));
    assert(views(out@) =~= seq!["✓ "@ + slug@ + "@"@ + version@ + " → "@ + dir@]);
    push_shims(&mut out, &shims.written);
    let ghost start = views(out@);
    let mut i: usize = 0;
    assert(start + Seq::new(0, |j: int| skipped_line(shims.skipped@[j])) =~= start);
    while i < shims.skipped.len()
        invariant
            i <= shims.skipped.len(),
            views(out@) == start + Seq::new(
                i as nat,
                |j: int| skipped_line(shims.skipped@[j]),
            ),
        decreases shims.skipped.len() - i,
    {
        let s = &shims.skipped[i];
        let why = match &s.reason {
            Some(why) => why.as_str(),
            None => "?",
        };
        push_line(&mut out, concat5("  ↪ ", s.agent.as_str(), " shim skipped (", why, ")"));
        i += 1;
        assert(views(out@) =~= start + Seq::new(
            i as nat,
            |j: int| skipped_line(shims.skipped@[j]),
        ));
    }
    out
}

// ---------------------------------------------------------------------------
// From a repository
// ---------------------------------------------------------------------------

/// Where a skill is pulled from.
#[derive(Debug)]
pub enum PullSource {
    /// Someone's repository on GitHub.
    External(ExternalSpec),
    /// The repository of one's own.
    Own { slug: String, version: Option<String> },
}

/// Where a skill is pulled from: a text that starts with a handle names someone's
/// repository.
pub fn pull_source(spec: &str) -> (r: Result<PullSource, CliError>)
    ensures
        if has_prefix(spec@, "@"@) {
            match spec_of(spec@) {
                Ok(x) => r is Ok && (r->Ok_0 matches PullSource::External(e) && e@ == x),
                Err(m) => r is Err && r->Err_0@ == (ErrorView::User {
                    code: "INVALID_EXTERNAL_SPEC"@,
                    message: m,
                    hint: Some(
                        "valid forms: `@owner/slug`, `@owner/repo:slug`, `@owner/repo:slug@v0.1.0`"@,
                    ),
                }),
            }
        } else {
            r is Ok && (r->Ok_0 matches PullSource::Own { slug, version } && slug@ == slug_parts(
                spec@,
            ).0 && opt_view(version) == slug_parts(spec@).1)
        },
{
    if starts_with(spec, "@") {
        match parse_spec(spec) {
            Ok(x) => Ok(PullSource::External(x)),
            Err(m) => Err(
                user_error_hint(
                    "INVALID_EXTERNAL_SPEC",
                    m,
                    "valid forms: `@owner/slug`, `@owner/repo:slug`, `@owner/repo:slug@v0.1.0`",
                ),
            ),
        }
    } else {
        let (slug, version) = parse_slug_at_version(spec);
        Ok(PullSource::Own { slug: slug.to_owned(), version: opt_owned(version) })
    }
}

/// The error of a skill that could not be pulled from someone's repository.
pub fn external_failed(e: &str) -> (r: CliError)
    ensures
        r@ == ErrorView::NotFound("external pull failed: "@ + e@),
{
    CliError::NotFound(crate::errors::prefixed("external pull failed: ", e))
}

/// The error of a skill that could not be pulled from one's own repository.
pub fn own_failed(e: &str) -> (r: CliError)
    ensures
        r@ == ErrorView::NotFound("github pull: "@ + e@),
{
    CliError::NotFound(crate::errors::prefixed("github pull: ", e))
}

/// What is reported of a skill that was pulled from a repository.
pub open spec fn github_report(p: SkillPackage, target: Seq<char>) -> JsonView {
    JsonView::Object(
        seq![
            ("slug"@, JsonView::Text(p.slug@)),
            ("version"@, JsonView::Text(p.version@)),
            ("target"@, JsonView::Text(target)),
            (
                "files"@,
                JsonView::Array(text_values(crate::github::external::paths_of(p.files@))),
            ),
            ("backend"@, JsonView::Text("github"@)),
        ],
    )
}

/// What is reported of a skill that was pulled from a repository.
pub fn github_pull_json(pkg: &SkillPackage, target: &str) -> (r: Json)
    ensures
        r.value() == github_report(*pkg, target@),
{
    let mut names: Vec<String> = Vec::new();
    let mut i: usize = 0;
    while i < pkg.files.len()
        invariant
            i <= pkg.files.len(),
            names@.len() == i,
            forall|j: int| 0 <= j < i ==> (#[trigger] names@[j])@ == pkg.files@[j].path@,
        decreases pkg.files.len() - i,
    {
        names.push(pkg.files[i].path.clone());
        i += 1;
    }
    assert(views(names@) =~= crate::github::external::paths_of(pkg.files@));
    let m = with_member(no_members(), "slug", Json::text(pkg.slug.as_str()));
    let m = with_member(m, "version", Json::text(pkg.version.as_str()));
    let m = with_member(m, "target", Json::text(target));
    let m = with_member(m, "files", Json::texts(&names));
    let m = with_member(m, "backend", Json::text("github"));
    assert(member_views(m@) =~= github_report(*pkg, target@)->Object_0);
    Json::object(m)
}

} // verus!
