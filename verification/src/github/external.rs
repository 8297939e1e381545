//! Skills in other people's repositories, read through GitHub's contents API.

use vstd::prelude::*;
use vstd::utf8::valid_utf8;

use crate::api::client::is_success;
use crate::api::error::{status_line, status_text};
use crate::archive::utf8_text;
use crate::config::{below, join_path};
use crate::json::{
    at_most_parts, field, get_text, json_parsed, parse, part, text_field, text_part, values, Json,
    JsonView,
};
use crate::order::viewed;
use crate::text::{
    concat3, concat4, concat5, concat7, cut_first, cut_last, opt_str_view, opt_view, rsplit_once,
    same, split_once, strip_prefix, trim, trimmed, views, without_prefix,
};
use crate::time::Timestamp;
use crate::types::{SkillFile, SkillManifest, SkillPackage};
use crate::yaml::{field_result, value_field, yaml_value_field, FieldView, YamlField};

verus! {

// ---------------------------------------------------------------------------
// Specs
// ---------------------------------------------------------------------------

/// A skill in someone's repository.
#[derive(Debug, Clone)]
pub struct ExternalSpec {
    pub owner: String,
    pub repo: String,
    pub slug: String,
    pub version: Option<String>,
}

/// A skill in someone's repository, as a mathematical value.
#[verifier::ext_equal]
pub ghost struct SpecView {
    pub owner: Seq<char>,
    pub repo: Seq<char>,
    pub slug: Seq<char>,
    pub version: Option<Seq<char>>,
}

impl View for ExternalSpec {
    type V = SpecView;

    open spec fn view(&self) -> SpecView {
        SpecView {
            owner: self.owner@,
            repo: self.repo@,
            slug: self.slug@,
            version: opt_view(self.version),
        }
    }
}

/// What stands before the version, and the version: behind the last `@v`, or else
/// behind the last `@`.
pub open spec fn version_cut(s: Seq<char>) -> (Seq<char>, Option<Seq<char>>) {
    match cut_last(s, "@v"@) {
        Some((h, v)) => (h, Some(v)),
        None => match cut_last(s, "@"@) {
            Some((h, v)) => (h, Some(v)),
            None => (s, None),
        },
    }
}

/// A skill by `owner/slug` or `owner/repo:slug`, or what is expected instead.
pub open spec fn named_skill(
    head: Seq<char>,
    version: Option<Seq<char>>,
) -> Result<SpecView, Seq<char>> {
    match cut_first(head, ":"@) {
        Some((place, slug)) => match cut_first(place, "/"@) {
            Some((owner, repo)) => Ok(SpecView { owner, repo, slug, version }),
            None => Err("@owner/repo:slug"@),
        },
        None => match cut_first(head, "/"@) {
            Some((owner, slug)) => Ok(SpecView { owner, repo: "knack-skills"@, slug, version }),
            None => Err("@owner/slug"@),
        },
    }
}

/// The skill that a text names, or the error.
pub open spec fn spec_of(s: Seq<char>) -> Result<SpecView, Seq<char>> {
    match without_prefix(s, "@"@) {
        None => Err("external spec must start with '@', got '"@ + s + "'"@),
        Some(rest) => {
            let (head, version) = version_cut(rest);
            match named_skill(head, version) {
                Ok(v) => Ok(v),
                Err(want) => Err("expected `"@ + want + "`, got '"@ + s + "'"@),
            }
        },
    }
}

pub open spec fn spec_result(r: Result<ExternalSpec, String>) -> Result<SpecView, Seq<char>> {
    match r {
        Ok(v) => Ok(v@),
        Err(e) => Err(e@),
    }
}

fn cut_version<'a>(s: &'a str) -> (r: (&'a str, Option<&'a str>))
    ensures
        r.0@ == version_cut(s@).0,
        opt_str_view(r.1) == version_cut(s@).1,
{
    match rsplit_once(s, "@v") {
        Some((h, v)) => (h, Some(v)),
        None => match rsplit_once(s, "@") {
            Some((h, v)) => (h, Some(v)),
            None => (s, None),
        },
    }
}

/// The skill that a text names: `@owner/slug` or `@owner/repo:slug`, with a version
/// behind another `@` if one is wanted.
pub fn parse_spec(s: &str) -> (r: Result<ExternalSpec, String>)
    ensures
        spec_result(r) == spec_of(s@),
{
    let rest = match strip_prefix(s, "@") {
        Some(rest) => rest,
        None => {
            return Err(concat3("external spec must start with '@', got '", s, "'"));
        },
    };
    let (head, version) = cut_version(rest);
    let version = match version {
        Some(v) => Some(v.to_owned()),
        None => None,
    };
    match split_once(head, ":") {
        Some((place, slug)) => match split_once(place, "/") {
            Some((owner, repo)) => Ok(
                ExternalSpec {
                    owner: owner.to_owned(),
                    repo: repo.to_owned(),
                    slug: slug.to_owned(),
                    version,
                },
            ),
            None => Err(concat5("expected `", "@owner/repo:slug", "`, got '", s, "'")),
        },
        None => match split_once(head, "/") {
            Some((owner, slug)) => Ok(
                ExternalSpec {
                    owner: owner.to_owned(),
                    repo: "knack-skills".to_owned(),
                    slug: slug.to_owned(),
                    version,
                },
            ),
            None => Err(concat5("expected `", "@owner/slug", "`, got '", s, "'")),
        },
    }
}

// ---------------------------------------------------------------------------
// What to ask for
// ---------------------------------------------------------------------------

/// The tag of a version of a skill.
pub fn version_tag(slug: &str, version: &str) -> (r: String)
    ensures
        r@ == slug@ + "/v"@ + version@,
{
    concat3(slug, "/v", version)
}

/// What to read of the repository: the tag of the version that is wanted, or
/// nothing, which stands for the default branch.
pub fn wanted_tag(spec: &ExternalSpec) -> (r: Option<String>)
    ensures
        opt_view(r) == (match spec@.version {
            Some(v) => Some(spec@.slug + "/v"@ + v),
            None => None,
        }),
{
    match &spec.version {
        Some(v) => Some(version_tag(spec.slug.as_str(), v.as_str())),
        None => None,
    }
}

/// Where the skill is in the repository.
pub fn skill_path(spec: &ExternalSpec) -> (r: String)
    ensures
        r@ == "skills/"@ + spec@.slug,
{
    crate::errors::prefixed("skills/", spec.slug.as_str())
}

/// The address of what the repository is.
pub fn repo_url(owner: &str, repo: &str) -> (r: String)
    ensures
        r@ == "https://api.github.com/repos/"@ + owner@ + "/"@ + repo@,
{
    concat4("https://api.github.com/repos/", owner, "/", repo)
}

/// The name of the default branch in what a repository is, if it is text.
pub open spec fn branch_of(v: JsonView) -> Option<Seq<char>> {
    if at_most_parts(v, 1) {
        text_part(part(v, "default_branch"@, 0))
    } else {
        None
    }
}

/// What GitHub answered tells of the default branch of a repository.
pub open spec fn default_branch(
    owner: Seq<char>,
    repo: Seq<char>,
    status: u16,
    text: Seq<char>,
) -> Result<Seq<char>, Seq<char>> {
    if !is_success(status) {
        Err(
            "github repos/"@ + owner + "/"@ + repo + " returned "@ + status_line(status as int)
                + ": "@ + trimmed(text),
        )
    } else {
        match json_parsed(text) {
            Ok(v) => match branch_of(v) {
                Some(b) => Ok(b),
                None => Err("parse repo info"@),
            },
            Err(_) => Err("parse repo info"@),
        }
    }
}

/// The default branch of a repository, from what GitHub answered of it.
pub fn resolve_default_branch(owner: &str, repo: &str, status: u16, text: &str) -> (r: Result<
    String,
    String,
>)
    requires
        100 <= status <= 999,
    ensures
        match r {
            Ok(b) => default_branch(owner@, repo@, status, text@) == Ok::<Seq<char>, Seq<char>>(b@),
            Err(e) => default_branch(owner@, repo@, status, text@) == Err::<Seq<char>, Seq<char>>(
                e@,
            ),
        },
{
    if !(200 <= status && status < 300) {
        let line = status_text(status);
        let mut r = concat7("github repos/", owner, "/", repo, " returned ", line.as_str(), ": ");
        r.append(trim(text));
        return Err(r);
    }
    match parse(text) {
        Ok(v) => {
            if v.has_at_most(1) {
                if let Some(b) = get_text(v.part("default_branch", 0)) {
                    return Ok(b);
                }
            }
            Err("parse repo info".to_owned())
        },
        Err(_) => Err("parse repo info".to_owned()),
    }
}

/// The address of what a directory holds.
pub fn contents_url(spec: &ExternalSpec, path: &str, at: &str) -> (r: String)
    ensures
        r@ == "https://api.github.com/repos/"@ + spec@.owner + "/"@ + spec@.repo + "/contents/"@
            + path@ + "?ref="@ + at@,
{
    let mut r = concat7(
        "https://api.github.com/repos/",
        spec.owner.as_str(),
        "/",
        spec.repo.as_str(),
        "/contents/",
        path,
        "?ref=",
    );
    r.append(at);
    r
}

// ---------------------------------------------------------------------------
// What comes back
// ---------------------------------------------------------------------------

/// An entry of a directory.
#[derive(Debug)]
pub struct ContentsEntry {
    pub name: String,
    pub path: String,
    pub kind: String,
    pub download_url: Option<String>,
}

/// An entry of a directory as a mathematical value.
#[verifier::ext_equal]
pub ghost struct ContentView {
    pub name: Seq<char>,
    pub path: Seq<char>,
    pub kind: Seq<char>,
    pub download_url: Option<Seq<char>>,
}

impl View for ContentsEntry {
    type V = ContentView;

    open spec fn view(&self) -> ContentView {
        ContentView {
            name: self.name@,
            path: self.path@,
            kind: self.kind@,
            download_url: opt_view(self.download_url),
        }
    }
}

/// An address that may be left out; nothing where something else stands there.
pub open spec fn address_in(v: JsonView) -> Option<Option<Seq<char>>> {
    match field(v, "download_url"@) {
        None => Some(None),
        Some(JsonView::Null) => Some(None),
        Some(JsonView::Text(s)) => Some(Some(s)),
        Some(_) => None,
    }
}

/// The entry that a value describes, if it does.
pub open spec fn entry_in(v: JsonView) -> Option<ContentView> {
    match (text_field(v, "name"@), text_field(v, "path"@), text_field(v, "type"@), address_in(v)) {
        (Some(name), Some(path), Some(kind), Some(download_url)) => Some(
            ContentView { name, path, kind, download_url },
        ),
        _ => None,
    }
}

/// The values in the answer: those of a list, or the one that it is.
pub open spec fn answered(v: JsonView) -> Seq<JsonView> {
    match v {
        JsonView::Array(s) => s,
        _ => seq![v],
    }
}

/// The first `n` values all describe entries.
pub open spec fn all_entries(s: Seq<JsonView>, n: int) -> bool {
    forall|i: int| 0 <= i < n ==> entry_in(#[trigger] s[i]) is Some
}

/// The entries in an answer, if all that is in it are entries.
pub open spec fn entries_in(v: JsonView) -> Option<Seq<ContentView>> {
    let s = answered(v);
    if all_entries(s, s.len() as int) {
        Some(Seq::new(s.len(), |i: int| entry_in(s[i])->0))
    } else {
        None
    }
}

/// The views of entries.
pub open spec fn content_views(v: Seq<ContentsEntry>) -> Seq<ContentView> {
    Seq::new(v.len(), |i: int| v[i]@)
}

fn read_address(v: &Json) -> (r: Option<Option<String>>)
    ensures
        match r {
            Some(a) => address_in(v.value()) == Some(opt_view(a)),
            None => address_in(v.value()) is None,
        },
{
    match v.get("download_url") {
        None => Some(None),
        Some(Json::Null) => Some(None),
        Some(Json::Text(s)) => Some(Some(s.clone())),
        Some(_) => None,
    }
}

fn read_entry(v: &Json) -> (r: Option<ContentsEntry>)
    ensures
        match r {
            Some(e) => entry_in(v.value()) == Some(e@),
            None => entry_in(v.value()) is None,
        },
{
    match (v.get_str("name"), v.get_str("path"), v.get_str("type"), read_address(v)) {
        (Some(name), Some(path), Some(kind), Some(download_url)) => Some(
            ContentsEntry {
                name: name.to_owned(),
                path: path.to_owned(),
                kind: kind.to_owned(),
                download_url,
            },
        ),
        _ => None,
    }
}

/// The entries in an answer: a directory's are a list, a file's own is not.
pub fn read_entries(body: &Json) -> (r: Option<Vec<ContentsEntry>>)
    ensures
        match r {
            Some(v) => entries_in(body.value()) == Some(content_views(v@)),
            None => entries_in(body.value()) is None,
        },
{
    match body {
        Json::Array(a) => {
            proof {
                crate::json::lemma_array_value(*a);
            }
            let ghost s = values(a@);
            let mut out: Vec<ContentsEntry> = Vec::new();
            let mut i: usize = 0;
            while i < a.len()
                invariant
                    i <= a.len(),
                    s == values(a@),
                    answered(body.value()) == s,
                    out@.len() == i,
                    forall|j: int| 0 <= j < i ==> entry_in(#[trigger] s[j]) == Some(out@[j]@),
                decreases a.len() - i,
            {
                assert(s[i as int] == a@[i as int].value());
                match read_entry(&a[i]) {
                    Some(e) => out.push(e),
                    None => {
                        assert(entry_in(s[i as int]) is None);
                        return None;
                    },
                }
                i += 1;
            }
            assert(content_views(out@) =~= Seq::new(s.len(), |i: int| entry_in(s[i])->0));
            Some(out)
        },
        _ => {
            let ghost s = answered(body.value());
            assert(s =~= seq![body.value()]);
            match read_entry(body) {
                Some(e) => {
                    let mut out: Vec<ContentsEntry> = Vec::new();
                    let ghost x = e@;
                    out.push(e);
                    assert(content_views(out@) =~= Seq::new(s.len(), |i: int| entry_in(s[i])->0));
                    Some(out)
                },
                None => {
                    assert(entry_in(s[0]) is None);
                    None
                },
            }
        },
    }
}

/// What to do with an entry.
#[derive(Debug)]
pub enum EntryStep {
    /// Fetch the file at the address, and keep it under the path.
    Fetch { url: String, rel: String },
    /// Go into the directory, and keep what it holds below the path.
    Descend { path: String, rel: String },
    /// Leave it out.
    Skip,
}

/// What to do with an entry: a file that can be had is fetched, a directory is
/// entered, and anything else (a link, a module of its own) is left out.
pub fn entry_step(entry: &ContentsEntry, rel_so_far: &str) -> (r: EntryStep)
    ensures
        match r {
            EntryStep::Fetch { url, rel } => entry@.kind == "file"@ && entry@.download_url == Some(url@)
                && rel@ == below(rel_so_far@, entry@.name),
            EntryStep::Descend { path, rel } => entry@.kind == "dir"@ && path@ == entry@.path && rel@
                == below(rel_so_far@, entry@.name),
            EntryStep::Skip => entry@.kind != "dir"@ && (entry@.kind == "file"@
                ==> entry@.download_url is None),
        },
{
    proof {
        reveal_strlit("file");
        reveal_strlit("dir");
        assert("file"@.len() != "dir"@.len());
    }
    let rel = join_path(rel_so_far, entry.name.as_str());
    if same(entry.kind.as_str(), "file") {
        match &entry.download_url {
            Some(u) => EntryStep::Fetch { url: u.clone(), rel },
            None => EntryStep::Skip,
        }
    } else if same(entry.kind.as_str(), "dir") {
        EntryStep::Descend { path: entry.path.clone(), rel }
    } else {
        EntryStep::Skip
    }
}

/// Something that is still to be done while a directory is walked.
#[derive(Debug)]
pub enum Work {
    /// Fetch the file at the address, and keep it under the path.
    Fetch { url: String, rel: String },
    /// List the directory, and keep what it holds below the path.
    List { path: String, rel: String },
}

/// Something that is still to be done, as a mathematical value.
pub ghost enum WorkView {
    Fetch { url: Seq<char>, rel: Seq<char> },
    List { path: Seq<char>, rel: Seq<char> },
}

impl View for Work {
    type V = WorkView;

    open spec fn view(&self) -> WorkView {
        match *self {
            Work::Fetch { url, rel } => WorkView::Fetch { url: url@, rel: rel@ },
            Work::List { path, rel } => WorkView::List { path: path@, rel: rel@ },
        }
    }
}

pub open spec fn work_views(v: Seq<Work>) -> Seq<WorkView> {
    Seq::new(v.len(), |i: int| v[i]@)
}

/// What an entry leads to: a file that can be had is fetched, a directory is listed,
/// and anything else is left out.
pub open spec fn entry_work(e: ContentView, rel: Seq<char>) -> Seq<WorkView> {
    if e.kind == "file"@ && e.download_url is Some {
        seq![WorkView::Fetch { url: e.download_url->0, rel: below(rel, e.name) }]
    } else if e.kind == "dir"@ {
        seq![WorkView::List { path: e.path, rel: below(rel, e.name) }]
    } else {
        seq![]
    }
}

/// What the first `n` entries of a directory lead to.
pub open spec fn entries_work(s: Seq<ContentView>, rel: Seq<char>, n: int) -> Seq<WorkView>
    decreases n,
{
    if n <= 0 {
        seq![]
    } else {
        entries_work(s, rel, n - 1) + entry_work(s[n - 1], rel)
    }
}

/// What is to be done once a directory was listed: what its entries lead to comes
/// first, so that files come in the order of the directories that hold them.
pub fn walk_contents(entries: &Vec<ContentsEntry>, rel: &str, rest: Vec<Work>) -> (r: Vec<Work>)
    ensures
        work_views(r@) == entries_work(
            viewed(entries@),
            rel@,
            entries@.len() as int,
        ) + work_views(rest@),
{
    proof {
        reveal_strlit("file");
        reveal_strlit("dir");
        assert("file"@.len() != "dir"@.len());
    }
    let ghost s = viewed(entries@);
    let ghost was = work_views(rest@);
    let mut out: Vec<Work> = Vec::new();
    let mut i: usize = 0;
    assert(work_views(out@) =~= seq![]);
    while i < entries.len()
        invariant
            i <= entries.len(),
            s == viewed(entries@),
            "file"@ != "dir"@,
            work_views(out@) == entries_work(s, rel@, i as int),
        decreases entries.len() - i,
    {
        let ghost before = work_views(out@);
        assert(s[i as int] == entries@[i as int]@);
        match entry_step(&entries[i], rel) {
            EntryStep::Fetch { url, rel: at } => {
                out.push(Work::Fetch { url, rel: at });
            },
            EntryStep::Descend { path, rel: at } => {
                out.push(Work::List { path, rel: at });
            },
            EntryStep::Skip => {},
        }
        i += 1;
        assert(work_views(out@) =~= before + entry_work(s[i - 1], rel@));
    }
    let ghost mine = work_views(out@);
    let mut rest = rest;
    out.append(&mut rest);
    assert(work_views(out@) =~= mine + was);
    out
}

/// The error of a directory that could not be listed.
pub fn list_failed(path: &str, status: u16, text: &str) -> (r: String)
    requires
        100 <= status <= 999,
    ensures
        r@ == "github contents "@ + path@ + " returned "@ + status_line(status as int) + ": "@
            + trimmed(text@),
{
    let line = status_text(status);
    let mut r = concat5("github contents ", path, " returned ", line.as_str(), ": ");
    r.append(trim(text));
    r
}

// ---------------------------------------------------------------------------
// The package
// ---------------------------------------------------------------------------

/// The first file under a path, from `from` on.
pub open spec fn file_at(files: Seq<SkillFile>, path: Seq<char>, from: int) -> Option<Seq<u8>>
    decreases files.len() - from,
{
    if from < 0 || from >= files.len() {
        None
    } else if files[from].path@ == path {
        Some(files[from].bytes@)
    } else {
        file_at(files, path, from + 1)
    }
}

/// The version in a document, if it is text.
pub open spec fn text_of(f: Result<FieldView, Seq<char>>) -> Option<Seq<char>> {
    match f {
        Ok(FieldView::Text(s)) => Some(s),
        _ => None,
    }
}

/// The version that the files of a skill state themselves.
pub open spec fn stated_version(files: Seq<SkillFile>) -> Option<Seq<char>> {
    match file_at(files, "meta.knack.yaml"@, 0) {
        Some(b) => if valid_utf8(b) {
            text_of(yaml_value_field(b, "version"@))
        } else {
            None
        },
        None => None,
    }
}

/// The version, if it is text.
pub fn version_from(f: Result<YamlField, String>) -> (r: Option<String>)
    ensures
        opt_view(r) == text_of(field_result(f)),
{
    match f {
        Ok(YamlField::Text(s)) => Some(s),
        _ => None,
    }
}

/// The version that the files of a skill state themselves.
pub fn read_version_from_meta(files: &Vec<SkillFile>) -> (r: Option<String>)
    ensures
        opt_view(r) == stated_version(files@),
{
    let mut i: usize = 0;
    while i < files.len()
        invariant
            i <= files.len(),
            file_at(files@, "meta.knack.yaml"@, 0) == file_at(
                files@,
                "meta.knack.yaml"@,
                i as int,
            ),
        decreases files.len() - i,
    {
        if same(files[i].path.as_str(), "meta.knack.yaml") {
            return match utf8_text(files[i].bytes.as_slice()) {
                Ok(_) => version_from(value_field(files[i].bytes.as_slice(), "version")),
                Err(_) => None,
            };
        }
        i += 1;
    }
    None
}

/// The version of a package: the one that was asked for, else the one that the
/// files state, else a first one.
pub open spec fn version_shown(asked: Option<Seq<char>>, stated: Option<Seq<char>>) -> Seq<char> {
    match (asked, stated) {
        (Some(v), _) => v,
        (None, Some(v)) => v,
        (None, None) => "0.0.0"@,
    }
}

/// The paths of files.
pub open spec fn paths_of(files: Seq<SkillFile>) -> Seq<Seq<char>> {
    Seq::new(files.len(), |i: int| files[i].path@)
}

/// The package holds the files, under the slug and the version.
pub open spec fn is_package(
    p: SkillPackage,
    slug: Seq<char>,
    version: Seq<char>,
    files: Seq<SkillFile>,
    now: Timestamp,
) -> bool {
    &&& p.slug@ == slug
    &&& p.version@ == version
    &&& p.files@ == files
    &&& p.manifest.slug@ == slug
    &&& p.manifest.version@ == version
    &&& p.manifest.description is None
    &&& p.manifest.entry@ == "SKILL.md"@
    &&& views(p.manifest.assets@) == paths_of(files)
    &&& p.manifest.created_at == now
}

/// The package of the files that were fetched, under a version.
pub fn package_of(
    spec: &ExternalSpec,
    version: String,
    files: Vec<SkillFile>,
    now: Timestamp,
) -> (r: SkillPackage)
    ensures
        is_package(r, spec@.slug, version@, files@, now),
{
    let mut assets: Vec<String> = Vec::new();
    let mut i: usize = 0;
    while i < files.len()
        invariant
            i <= files.len(),
            assets@.len() == i,
            forall|j: int| 0 <= j < i ==> (#[trigger] assets@[j])@ == files@[j].path@,
        decreases files.len() - i,
    {
        assets.push(files[i].path.clone());
        i += 1;
    }
    assert(views(assets@) =~= paths_of(files@));
    SkillPackage {
        slug: spec.slug.clone(),
        version: version.clone(),
        manifest: SkillManifest {
            slug: spec.slug.clone(),
            version,
            description: None,
            entry: "SKILL.md".to_owned(),
            assets,
            created_at: now,
        },
        files,
    }
}

/// The package of the files that were fetched. Without any file there is none.
pub fn pull_external(
    spec: &ExternalSpec,
    at: &str,
    files: Vec<SkillFile>,
    now: Timestamp,
) -> (r: Result<SkillPackage, String>)
    ensures
        match r {
            Ok(p) => files@.len() > 0 && is_package(
                p,
                spec@.slug,
                version_shown(spec@.version, stated_version(files@)),
                files@,
                now,
            ),
            Err(e) => files@.len() == 0 && e@ == "no files found at "@ + spec@.owner + "/"@
                + spec@.repo + " "@ + ("skills/"@ + spec@.slug) + " ("@ + at@ + ")"@,
        },
{
    if files.len() == 0 {
        let path = skill_path(spec);
        let mut m = concat7(
            "no files found at ",
            spec.owner.as_str(),
            "/",
            spec.repo.as_str(),
            " ",
            path.as_str(),
            " (",
        );
        m.append(at);
        m.append(")");
        return Err(m);
    }
    let version = match &spec.version {
        Some(v) => v.clone(),
        None => match read_version_from_meta(&files) {
            Some(v) => v,
            None => "0.0.0".to_owned(),
        },
    };
    Ok(package_of(spec, version, files, now))
}

} // verus!
