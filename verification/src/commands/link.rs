//! `knack link` and `knack unlink`: skills as commands of the agents on this machine.
//!
//! A linked skill stays at the version it was linked at. That a newer one was
//! published is told, and never acted on by itself.

use vstd::prelude::*;
use vstd::utf8::encode_utf8;

use crate::api::error::{status_line, status_text};
use crate::archive::{file_views, utf8_lossy, utf8_text_lossy};
use crate::commands::fetch::ServerVersion;
use crate::commands::install::installed::{agent_views, AgentEntry, AgentView, Scope, scope_name};
use crate::commands::install::linked::{
    link_views, links_json, links_to_json, LinkView, LinkedSkill,
};
use crate::commands::install::shim::{
    linked_skill, render_linked_rule, render_linked_skill, render_linked_text_block, support_files,
    write_linked_skill,
};
use crate::commands::install::targets::{
    copy_all, find, names, target_named, target_names, target_views, AgentTarget,
    ShimStyle, TargetView,
};
use crate::config::{below, join_path, LinkScope};
use crate::errors::{user_error_hint, CliError, ErrorView};
use crate::frontmatter::SkillFrontmatter;
use crate::json::{
    member_views, no_members, text_or_null, text_values, values, with_member, Json, JsonView,
};
use crate::numbers::{decimal, usize_text};
use crate::order::{distinct_sorted, in_order};
use crate::text::{
    ascii_lower, concat3, concat5, concat7, join, join_strings, joined, opt_str, opt_str_view,
    opt_view, same, same_ignoring_case, trim, trimmed, views,
};

pub mod flow;
pub mod laws;

verus! {

/// The arguments of `knack link`.
#[derive(Debug, Clone)]
pub struct LinkArgs {
    pub slug_at_version: Option<String>,
    pub global: bool,
    pub local: bool,
    pub agent: Option<String>,
    pub print: bool,
    pub list: bool,
    pub check: bool,
    pub all: bool,
}

/// The arguments of `knack unlink`.
#[derive(Debug, Clone)]
pub struct UnlinkArgs {
    pub slug: String,
    pub global: bool,
    pub local: bool,
    pub agent: Option<String>,
}

/// What `knack link` is asked to do.
#[derive(Debug)]
pub enum LinkAction {
    List,
    Check,
    UpdateAll,
    /// Link the skill that is named.
    Link(String),
}

/// What `knack link` is asked to do. Without a skill there is nothing to link.
pub fn link_action(args: &LinkArgs) -> (r: Result<LinkAction, CliError>)
    ensures
        if args.list {
            r is Ok && r->Ok_0 is List
        } else if args.check {
            r is Ok && r->Ok_0 is Check
        } else if args.all {
            r is Ok && r->Ok_0 is UpdateAll
        } else {
            match opt_view(args.slug_at_version) {
                Some(s) => r is Ok && (r->Ok_0 matches LinkAction::Link(t) && t@ == s),
                None => r is Err && r->Err_0@ == (ErrorView::User {
                    code: "LINK_NO_SLUG"@,
                    message: "missing skill slug"@,
                    hint: Some(
                        "usage: knack link <slug>[@<semver>]  (or `knack link --list` / `--all`)"@,
                    ),
                }),
            }
        },
{
    if args.list {
        return Ok(LinkAction::List);
    }
    if args.check {
        return Ok(LinkAction::Check);
    }
    if args.all {
        return Ok(LinkAction::UpdateAll);
    }
    match &args.slug_at_version {
        Some(s) => Ok(LinkAction::Link(s.clone())),
        None => Err(
            user_error_hint(
                "LINK_NO_SLUG",
                "missing skill slug".to_owned(),
                "usage: knack link <slug>[@<semver>]  (or `knack link --list` / `--all`)",
            ),
        ),
    }
}

/// The scope that is asked for, else the one that is configured.
pub open spec fn scope_of(global: bool, local: bool, default: LinkScope) -> Scope {
    if global {
        Scope::Home
    } else if local {
        Scope::Project
    } else {
        match default {
            LinkScope::Home => Scope::Home,
            LinkScope::Project => Scope::Project,
        }
    }
}

/// The scope that is asked for, else the one that is configured.
pub fn resolve_scope(global: bool, local: bool, default: LinkScope) -> (r: Scope)
    ensures
        r == scope_of(global, local, default),
{
    if global {
        Scope::Home
    } else if local {
        Scope::Project
    } else {
        match default {
            LinkScope::Home => Scope::Home,
            LinkScope::Project => Scope::Project,
        }
    }
}

// ---------------------------------------------------------------------------
// Targets
// ---------------------------------------------------------------------------

/// The error for an agent that is not known.
pub open spec fn unknown_agent(all: Seq<TargetView>, name: Seq<char>) -> ErrorView {
    ErrorView::User {
        code: "UNKNOWN_TARGET"@,
        message: "unknown agent target: "@ + name,
        hint: Some("known: "@ + joined(target_names(all), ", "@)),
    }
}

/// The error for an agent that is not among those that are known.
pub fn unknown_agent_err(all: &Vec<AgentTarget>, name: &str) -> (r: CliError)
    ensures
        r@ == unknown_agent(target_views(all@), name@),
{
    let known = names(all);
    let list = join(known.as_slice(), ", ");
    let hint = crate::errors::prefixed("known: ", list.as_str());
    user_error_hint(
        "UNKNOWN_TARGET",
        crate::errors::prefixed("unknown agent target: ", name),
        hint.as_str(),
    )
}

pub open spec fn has_name(s: Seq<TargetView>, name: Seq<char>) -> bool {
    exists|i: int| 0 <= i < s.len() && (#[trigger] s[i]).name == name
}

/// The agents of the first `n` entries that are known, each once.
pub open spec fn known_targets(
    all: Seq<TargetView>,
    entries: Seq<AgentView>,
    n: int,
) -> Seq<TargetView>
    decreases n,
{
    if n <= 0 {
        seq![]
    } else {
        let before = known_targets(all, entries, n - 1);
        match target_named(all, entries[n - 1].slug) {
            Some(t) => if has_name(before, t.name) {
                before
            } else {
                before.push(t)
            },
            None => before,
        }
    }
}

fn is_named(v: &Vec<AgentTarget>, name: &str) -> (r: bool)
    ensures
        r == has_name(target_views(v@), name@),
{
    let mut i: usize = 0;
    while i < v.len()
        invariant
            i <= v.len(),
            forall|j: int| 0 <= j < i ==> (#[trigger] target_views(v@)[j]).name != name@,
        decreases v.len() - i,
    {
        assert(target_views(v@)[i as int] == v@[i as int]@);
        if same(v[i].name, name) {
            return true;
        }
        i += 1;
    }
    false
}

/// The agents to link into: the one that is named, else every one that is set up.
pub fn resolve_targets(
    all: &Vec<AgentTarget>,
    agent: Option<&str>,
    installed: &Vec<AgentEntry>,
) -> (r: Result<Vec<AgentTarget>, CliError>)
    ensures
        match agent {
            Some(name) => match target_named(target_views(all@), name@) {
                Some(t) => r is Ok && target_views(r->Ok_0@) == seq![t],
                None => r is Err && r->Err_0@ == unknown_agent(target_views(all@), name@),
            },
            None => {
                let known = known_targets(
                    target_views(all@),
                    agent_views(installed@),
                    installed@.len() as int,
                );
                if known.len() > 0 {
                    r is Ok && target_views(r->Ok_0@) == known
                } else {
                    r is Err && r->Err_0@ == (ErrorView::User {
                        code: "NO_AGENTS_INSTALLED"@,
                        message: "no AI agents are registered with knack on this machine"@,
                        hint: Some(
                            "run `knack install` first (or pass `--agent <name>` to target one explicitly)"@,
                        ),
                    })
                }
            },
        },
{
    match agent {
        Some(name) => {
            return match find(all, name) {
                Some(t) => {
                    let ghost x = t@;
                    let mut v: Vec<AgentTarget> = Vec::new();
                    v.push(t);
                    assert(target_views(v@) =~= seq![x]);
                    Ok(v)
                },
                None => Err(unknown_agent_err(all, name)),
            };
        },
        None => {},
    }
    let ghost s = agent_views(installed@);
    let mut out: Vec<AgentTarget> = Vec::new();
    let mut i: usize = 0;
    assert(target_views(out@) =~= seq![]);
    while i < installed.len()
        invariant
            i <= installed.len(),
            s == agent_views(installed@),
            target_views(out@) == known_targets(target_views(all@), s, i as int),
        decreases installed.len() - i,
    {
        assert(s[i as int] == installed@[i as int]@);
        match find(all, installed[i].slug.as_str()) {
            Some(t) => {
                if !is_named(&out, t.name) {
                    let ghost was = target_views(out@);
                    let ghost x = t@;
                    out.push(t);
                    assert(target_views(out@) =~= was.push(x));
                }
            },
            None => {},
        }
        i += 1;
    }
    assert(target_views(out@).len() == out@.len());
    if out.len() == 0 {
        return Err(
            user_error_hint(
                "NO_AGENTS_INSTALLED",
                "no AI agents are registered with knack on this machine".to_owned(),
                "run `knack install` first (or pass `--agent <name>` to target one explicitly)",
            ),
        );
    }
    Ok(out)
}

/// The agents to unlink from: the one that is named, else every one that is known,
/// set up or not.
pub fn unlink_targets(all: &Vec<AgentTarget>, agent: Option<&str>) -> (r: Result<
    Vec<AgentTarget>,
    CliError,
>)
    ensures
        match agent {
            Some(name) => match target_named(target_views(all@), name@) {
                Some(t) => r is Ok && target_views(r->Ok_0@) == seq![t],
                None => r is Err && r->Err_0@ == unknown_agent(target_views(all@), name@),
            },
            None => r is Ok && target_views(r->Ok_0@) == target_views(all@),
        },
{
    match agent {
        Some(name) => match find(all, name) {
            Some(t) => {
                let ghost x = t@;
                let mut v: Vec<AgentTarget> = Vec::new();
                v.push(t);
                assert(target_views(v@) =~= seq![x]);
                Ok(v)
            },
            None => Err(unknown_agent_err(all, name)),
        },
        None => Ok(copy_all(all)),
    }
}

/// No agent is linked into twice.
pub proof fn law_targets_are_distinct(
    all: Seq<TargetView>,
    entries: Seq<AgentView>,
    n: int,
    i: int,
    j: int,
)
    requires
        0 <= n <= entries.len(),
        0 <= i < j < known_targets(all, entries, n).len(),
    ensures
        known_targets(all, entries, n)[i].name != known_targets(all, entries, n)[j].name,
    decreases n,
{
    let before = known_targets(all, entries, n - 1);
    if n > 0 {
        if j < before.len() {
            law_targets_are_distinct(all, entries, n - 1, i, j);
        } else {
            assert(before[i] == known_targets(all, entries, n)[i]);
            assert(!has_name(before, known_targets(all, entries, n)[j].name));
        }
    }
}

// ---------------------------------------------------------------------------
// What a skill consists of
// ---------------------------------------------------------------------------

/// A version of a skill, with its files.
#[derive(Debug)]
pub struct Materialized {
    pub slug: String,
    pub version: String,
    /// Every file under its path, the skill file among them.
    pub files: Vec<(String, Vec<u8>)>,
    pub skill_md: String,
}

/// The version to link: the one that is asked for, else the one that is published.
pub fn pick_version(slug: &str, wanted: Option<&str>, current: Option<&str>) -> (r: Result<
    String,
    CliError,
>)
    ensures
        match (wanted, current) {
            (Some(v), _) => r is Ok && r->Ok_0@ == v@,
            (None, Some(v)) => r is Ok && r->Ok_0@ == v@,
            (None, None) => r is Err && r->Err_0@ == ErrorView::NotFound(
                "skill `"@ + slug@ + "` has no published version"@,
            ),
        },
{
    match (wanted, current) {
        (Some(v), _) => Ok(v.to_owned()),
        (None, Some(v)) => Ok(v.to_owned()),
        (None, None) => Err(
            CliError::NotFound(concat3("skill `", slug, "` has no published version")),
        ),
    }
}

/// The error for a skill that is not there.
pub fn skill_not_found(slug: &str) -> (r: CliError)
    ensures
        r@ == ErrorView::NotFound("skill `"@ + slug@ + "` not found"@),
{
    CliError::NotFound(concat3("skill `", slug, "` not found"))
}

/// The error for a bundle that could not be fetched.
pub fn bundle_error(status: u16) -> (r: CliError)
    requires
        100 <= status <= 999,
    ensures
        r@ == (ErrorView::Server {
            status: status as int,
            code: "BUNDLE_DOWNLOAD_FAILED"@,
            message: "R2 GET returned "@ + status_line(status as int),
        }),
{
    let s = status_text(status);
    CliError::Server {
        status,
        code: "BUNDLE_DOWNLOAD_FAILED".to_owned(),
        message: crate::errors::prefixed("R2 GET returned ", s.as_str()),
    }
}

/// The content of the first file under a path, from `from` on.
pub open spec fn content_at(files: Seq<(Seq<char>, Seq<u8>)>, path: Seq<char>, from: int) -> Option<
    Seq<u8>,
>
    decreases files.len() - from,
{
    if from < 0 || from >= files.len() {
        None
    } else if files[from].0 == path {
        Some(files[from].1)
    } else {
        content_at(files, path, from + 1)
    }
}

/// A version put together from the files of its bundle. Without the skill file it
/// is no skill.
pub fn from_files(
    slug: String,
    version: String,
    files: Vec<(String, Vec<u8>)>,
    what: &str,
) -> (r: Result<Materialized, CliError>)
    ensures
        match content_at(file_views(files@), "SKILL.md"@, 0) {
            Some(b) => r is Ok && r->Ok_0.slug == slug && r->Ok_0.version == version && r->Ok_0.files
                == files && r->Ok_0.skill_md@ == utf8_lossy(b),
            None => r is Err && r->Err_0@ == ErrorView::Internal(
                what@ + " `"@ + slug@ + "` has no SKILL.md"@,
            ),
        },
{
    let mut i: usize = 0;
    let ghost s = file_views(files@);
    while i < files.len()
        invariant
            i <= files.len(),
            s == file_views(files@),
            content_at(s, "SKILL.md"@, 0) == content_at(s, "SKILL.md"@, i as int),
        decreases files.len() - i,
    {
        assert(s[i as int] == (files@[i as int].0@, files@[i as int].1@));
        if same(files[i].0.as_str(), "SKILL.md") {
            let skill_md = utf8_text_lossy(files[i].1.as_slice());
            return Ok(Materialized { slug, version, files, skill_md });
        }
        i += 1;
    }
    let mut m = concat3(what, " `", slug.as_str());
    m.append("` has no SKILL.md");
    Err(CliError::Internal(m))
}

pub open spec fn text_file(path: Seq<char>, text: Seq<char>) -> (Seq<char>, Seq<u8>) {
    (path, encode_utf8(text))
}

/// A file, unless its text is blank.
pub open spec fn optional_file(path: Seq<char>, text: Seq<char>) -> Seq<(Seq<char>, Seq<u8>)> {
    if trimmed(text).len() == 0 {
        seq![]
    } else {
        seq![text_file(path, text)]
    }
}

/// The files of a version that was published as texts.
pub open spec fn text_files(
    skill_md: Seq<char>,
    meta: Seq<char>,
    intuition: Seq<char>,
    tests: Seq<char>,
) -> Seq<(Seq<char>, Seq<u8>)> {
    seq![text_file("SKILL.md"@, skill_md), text_file("meta.knack.yaml"@, meta)] + optional_file(
        "intuition.md"@,
        intuition,
    ) + optional_file("tests/basic.yaml"@, tests)
}

fn push_text(files: &mut Vec<(String, Vec<u8>)>, path: &str, text: &str)
    ensures
        file_views(final(files)@) == file_views(old(files)@).push(text_file(path@, text@)),
{
    let ghost was = file_views(files@);
    files.push((path.to_owned(), text.as_bytes_vec()));
    assert(file_views(files@) =~= was.push(text_file(path@, text@)));
}

fn push_optional(files: &mut Vec<(String, Vec<u8>)>, path: &str, text: &str)
    ensures
        file_views(final(files)@) == file_views(old(files)@) + optional_file(path@, text@),
{
    let ghost was = file_views(files@);
    if !trim(text).is_empty() {
        push_text(files, path, text);
    }
    assert(file_views(files@) =~= was + optional_file(path@, text@));
}

/// The files of a version that was published as texts.
pub fn legacy_files(
    skill_md: &str,
    meta_yaml: &str,
    intuition_md: &str,
    tests_yaml: &str,
) -> (r: Vec<(String, Vec<u8>)>)
    ensures
        file_views(r@) == text_files(skill_md@, meta_yaml@, intuition_md@, tests_yaml@),
{
    let mut files: Vec<(String, Vec<u8>)> = Vec::new();
    assert(file_views(files@) =~= Seq::empty());
    push_text(&mut files, "SKILL.md", skill_md);
    push_text(&mut files, "meta.knack.yaml", meta_yaml);
    assert(file_views(files@) =~= seq![
        text_file("SKILL.md"@, skill_md@),
        text_file("meta.knack.yaml"@, meta_yaml@),
    ]);
    push_optional(&mut files, "intuition.md", intuition_md);
    push_optional(&mut files, "tests/basic.yaml", tests_yaml);
    files
}

/// A version put together from what the server sent: from the files of its archive,
/// or else from its texts.
pub fn materialize(
    slug: &str,
    v: &ServerVersion,
    files: Option<Vec<(String, Vec<u8>)>>,
) -> (r: Result<Materialized, CliError>)
    ensures
        match files {
            Some(f) => match content_at(file_views(f@), "SKILL.md"@, 0) {
                Some(b) => r is Ok && r->Ok_0.slug@ == slug@ && r->Ok_0.version@ == v.version@
                    && r->Ok_0.files == f && r->Ok_0.skill_md@ == utf8_lossy(b),
                None => r is Err && r->Err_0@ == ErrorView::Internal(
                    "bundle for `"@ + slug@ + "` has no SKILL.md"@,
                ),
            },
            None => r is Ok && r->Ok_0.slug@ == slug@ && r->Ok_0.version@ == v.version@
                && file_views(r->Ok_0.files@) == text_files(
                v.skill_md@,
                v.meta_yaml@,
                v.intuition_md@,
                v.tests_yaml@,
            ) && r->Ok_0.skill_md@ == v.skill_md@,
        },
{
    match files {
        Some(f) => {
            proof {
                reveal_strlit("bundle for");
                reveal_strlit(" `");
                reveal_strlit("bundle for `");
                assert("bundle for"@ + " `"@ =~= "bundle for `"@);
            }
            from_files(slug.to_owned(), v.version.clone(), f, "bundle for")
        },
        None => Ok(
            Materialized {
                slug: slug.to_owned(),
                version: v.version.clone(),
                files: legacy_files(
                    v.skill_md.as_str(),
                    v.meta_yaml.as_str(),
                    v.intuition_md.as_str(),
                    v.tests_yaml.as_str(),
                ),
                skill_md: v.skill_md.clone(),
            },
        ),
    }
}

// ---------------------------------------------------------------------------
// Writing
// ---------------------------------------------------------------------------

/// What became of one agent.
#[derive(Debug)]
pub struct AgentOutcome {
    pub agent: &'static str,
    pub display: &'static str,
    pub path: Option<String>,
    pub status: &'static str,
    pub reason: Option<String>,
}

/// What became of one agent, as a mathematical value.
#[verifier::ext_equal]
pub ghost struct OutcomeView {
    pub agent: Seq<char>,
    pub display: Seq<char>,
    pub path: Option<Seq<char>>,
    pub status: Seq<char>,
    pub reason: Option<Seq<char>>,
}

impl View for AgentOutcome {
    type V = OutcomeView;

    open spec fn view(&self) -> OutcomeView {
        OutcomeView {
            agent: self.agent@,
            display: self.display@,
            path: opt_view(self.path),
            status: self.status@,
            reason: opt_view(self.reason),
        }
    }
}

pub open spec fn outcome_views(v: Seq<AgentOutcome>) -> Seq<OutcomeView> {
    Seq::new(v.len(), |i: int| v[i]@)
}

pub open spec fn linked_outcome(t: TargetView, path: Seq<char>) -> OutcomeView {
    OutcomeView {
        agent: t.name,
        display: t.display,
        path: Some(path),
        status: "linked"@,
        reason: None,
    }
}

pub open spec fn dry_outcome(t: TargetView, path: Seq<char>) -> OutcomeView {
    OutcomeView {
        agent: t.name,
        display: t.display,
        path: Some(path),
        status: "dry_run"@,
        reason: None,
    }
}

pub open spec fn skipped_outcome(
    t: TargetView,
    path: Option<Seq<char>>,
    reason: Seq<char>,
) -> OutcomeView {
    OutcomeView {
        agent: t.name,
        display: t.display,
        path,
        status: "skipped"@,
        reason: Some(reason),
    }
}

impl AgentOutcome {
    /// The skill was written.
    pub fn wrote(t: &AgentTarget, path: String) -> (r: Self)
        ensures
            r@ == linked_outcome(t@, path@),
    {
        AgentOutcome {
            agent: t.name,
            display: t.display,
            path: Some(path),
            status: "linked",
            reason: None,
        }
    }

    /// The skill would be written.
    pub fn dry_run(t: &AgentTarget, path: String) -> (r: Self)
        ensures
            r@ == dry_outcome(t@, path@),
    {
        AgentOutcome {
            agent: t.name,
            display: t.display,
            path: Some(path),
            status: "dry_run",
            reason: None,
        }
    }

    /// The skill was not written.
    pub fn skipped(t: &AgentTarget, path: Option<String>, reason: &str) -> (r: Self)
        ensures
            r@ == skipped_outcome(t@, opt_view(path), reason@),
    {
        AgentOutcome {
            agent: t.name,
            display: t.display,
            path,
            status: "skipped",
            reason: Some(reason.to_owned()),
        }
    }
}

/// What to do for one agent.
#[derive(Debug)]
pub enum WritePlan {
    /// Nothing, for a reason.
    Skip(&'static str),
    /// Tell what would be written, and where.
    Tell(String),
    /// Write the files into the directory.
    Folder { dest: String, files: Vec<(String, Vec<u8>)> },
    /// Write the rule file.
    Rule { dest: String, body: String },
    /// Put the entry into the context file.
    Block { file: String, body: String },
}

/// Where the skill goes for an agent, below the agent's directory.
pub open spec fn destination(style: ShimStyle, root: Seq<char>, slug: Seq<char>) -> Seq<char> {
    match style {
        ShimStyle::NativeSkill => below(root, slug),
        ShimStyle::NativeRule => below(root, "knack-"@ + slug + ".mdc"@),
        _ => root,
    }
}

/// What an agent that reads rules is given.
pub open spec fn rule_text(
    slug: Seq<char>,
    agent: Seq<char>,
    fm: SkillFrontmatter,
    md: Seq<char>,
) -> Seq<char> {
    crate::commands::install::shim::SHIM_SIGIL@ + "\n"@ + ("---\ndescription: "@
        + crate::commands::install::shim::text_or(
        opt_view(fm.description),
        "A skill managed by knack."@,
    ) + "\nalwaysApply: false\n---\n"@ + crate::commands::install::shim::linked_rest(
        slug,
        agent,
        crate::frontmatter::split_doc(md).1,
    ))
}

/// What an agent with a context file is given.
pub open spec fn block_text(slug: Seq<char>, agent: Seq<char>, fm: SkillFrontmatter) -> Seq<char> {
    "- **"@ + slug + "** — "@ + crate::commands::install::shim::text_or(
        opt_view(fm.description),
        "(no description)"@,
    ) + ". Run `knack run "@ + slug + " --runtime "@ + agent
        + "`, do the work, then `knack mark <run_id> succeeded`."@
}

/// What to do for one agent: by its style, and by where its skills are put, if
/// anywhere. With `print` nothing is written.
pub fn plan_write(
    skill: &Materialized,
    fm: &SkillFrontmatter,
    t: &AgentTarget,
    root: Option<String>,
    print: bool,
) -> (r: WritePlan)
    ensures
        match opt_view(root) {
            None => r matches WritePlan::Skip(m) && m@ == "no skill directory for this scope on this OS"@,
            Some(root) => {
                let dest = destination(t@.shim_style, root, skill.slug@);
                if t@.shim_style == ShimStyle::Unsupported {
                    r matches WritePlan::Skip(m) && m@ == "agent has no per-skill discovery surface"@
                } else if print {
                    r matches WritePlan::Tell(d) && d@ == dest
                } else {
                    match t@.shim_style {
                        ShimStyle::NativeSkill => r matches WritePlan::Folder { dest: d, files } && d@
                            == dest && file_views(files@) == seq![
                            (
                                "SKILL.md"@,
                                encode_utf8(linked_skill(skill.slug@, t@.name, skill.skill_md@)),
                            ),
                        ] + support_files(skill.files@, skill.files@.len() as int),
                        ShimStyle::NativeRule => r matches WritePlan::Rule { dest: d, body } && d@
                            == dest && body@ == rule_text(skill.slug@, t@.name, *fm, skill.skill_md@),
                        _ => r matches WritePlan::Block { file, body } && file@ == dest && body@
                            == block_text(skill.slug@, t@.name, *fm),
                    }
                }
            },
        },
{
    let root = match root {
        Some(p) => p,
        None => {
            return WritePlan::Skip("no skill directory for this scope on this OS");
        },
    };
    let slug = skill.slug.as_str();
    match t.shim_style {
        ShimStyle::NativeSkill => {
            let dest = join_path(root.as_str(), slug);
            if print {
                return WritePlan::Tell(dest);
            }
            let wrapped = render_linked_skill(slug, t.name, skill.skill_md.as_str());
            WritePlan::Folder { dest, files: write_linked_skill(wrapped.as_str(), &skill.files) }
        },
        ShimStyle::NativeRule => {
            let name = concat3("knack-", slug, ".mdc");
            let dest = join_path(root.as_str(), name.as_str());
            if print {
                return WritePlan::Tell(dest);
            }
            WritePlan::Rule {
                dest,
                body: render_linked_rule(slug, t.name, fm, skill.skill_md.as_str()),
            }
        },
        ShimStyle::TextBlock => {
            if print {
                return WritePlan::Tell(root);
            }
            WritePlan::Block { file: root, body: render_linked_text_block(slug, t.name, fm) }
        },
        ShimStyle::Unsupported => WritePlan::Skip("agent has no per-skill discovery surface"),
    }
}

/// What was done for one agent.
#[derive(Debug)]
pub struct WriteStep {
    pub target: AgentTarget,
    pub plan: WritePlan,
    /// Whether the agent's directory was there before.
    pub root_existed: bool,
    /// How the writing went, where there was any.
    pub result: Result<(), String>,
}

/// Where a plan writes to, if it writes.
pub open spec fn written_to(p: WritePlan) -> Option<Seq<char>> {
    match p {
        WritePlan::Folder { dest, files: _ } => Some(dest@),
        WritePlan::Rule { dest, body: _ } => Some(dest@),
        WritePlan::Block { file, body: _ } => Some(file@),
        _ => None,
    }
}

/// The skill was written for the agent.
pub open spec fn step_wrote(s: WriteStep) -> bool {
    written_to(s.plan) is Some && s.result is Ok
}

/// What became of the agent.
pub open spec fn step_outcome(s: WriteStep) -> OutcomeView {
    match s.plan {
        WritePlan::Skip(m) => skipped_outcome(s.target@, None, m@),
        WritePlan::Tell(d) => dry_outcome(s.target@, d@),
        _ => match s.result {
            Ok(_) => linked_outcome(s.target@, written_to(s.plan)->0),
            Err(e) => skipped_outcome(s.target@, written_to(s.plan), e@),
        },
    }
}

/// The agents among the first `n` that the skill was written for.
pub open spec fn written_names(steps: Seq<WriteStep>, n: int) -> Seq<Seq<char>>
    decreases n,
{
    if n <= 0 {
        seq![]
    } else if step_wrote(steps[n - 1]) {
        written_names(steps, n - 1).push(steps[n - 1].target@.name)
    } else {
        written_names(steps, n - 1)
    }
}

/// A directory of skills had to be made for the agent.
pub open spec fn made_dir(s: WriteStep) -> bool {
    s.plan is Folder && s.result is Ok && !s.root_existed
}

/// What became of all agents.
#[derive(Debug)]
pub struct WriteResult {
    pub outcomes: Vec<AgentOutcome>,
    /// A directory of skills had to be made, so an agent may have to be restarted.
    pub created_top_level_dir: bool,
    /// The agents that the skill was written for.
    pub written_agents: Vec<String>,
}

fn one_outcome(s: &WriteStep) -> (r: AgentOutcome)
    ensures
        r@ == step_outcome(*s),
{
    let dest: &String = match &s.plan {
        WritePlan::Skip(m) => {
            return AgentOutcome::skipped(&s.target, None, m);
        },
        WritePlan::Tell(d) => {
            return AgentOutcome::dry_run(&s.target, d.clone());
        },
        WritePlan::Folder { dest, files: _ } => dest,
        WritePlan::Rule { dest, body: _ } => dest,
        WritePlan::Block { file, body: _ } => file,
    };
    match &s.result {
        Ok(_) => AgentOutcome::wrote(&s.target, dest.clone()),
        Err(e) => AgentOutcome::skipped(&s.target, Some(dest.clone()), e.as_str()),
    }
}

/// What became of all agents, by what was done for each.
pub fn write_skill_to_targets(steps: &Vec<WriteStep>) -> (r: WriteResult)
    ensures
        outcome_views(r.outcomes@) == Seq::new(steps@.len(), |i: int| step_outcome(steps@[i])),
        views(r.written_agents@) == written_names(steps@, steps@.len() as int),
        r.created_top_level_dir == (exists|i: int|
            0 <= i < steps@.len() && made_dir(#[trigger] steps@[i])),
{
    let mut outcomes: Vec<AgentOutcome> = Vec::new();
    let mut created_top_level_dir = false;
    let mut written_agents: Vec<String> = Vec::new();
    let mut i: usize = 0;
    assert(views(written_agents@) =~= seq![]);
    while i < steps.len()
        invariant
            i <= steps.len(),
            outcomes@.len() == i,
            forall|j: int| 0 <= j < i ==> (#[trigger] outcomes@[j])@ == step_outcome(steps@[j]),
            views(written_agents@) == written_names(steps@, i as int),
            created_top_level_dir == (exists|j: int| 0 <= j < i && made_dir(#[trigger] steps@[j])),
        decreases steps.len() - i,
    {
        let s = &steps[i];
        outcomes.push(one_outcome(s));
        let (writes, folder) = match &s.plan {
            WritePlan::Skip(_) => (false, false),
            WritePlan::Tell(_) => (false, false),
            WritePlan::Folder { dest: _, files: _ } => (true, true),
            WritePlan::Rule { dest: _, body: _ } => (true, false),
            WritePlan::Block { file: _, body: _ } => (true, false),
        };
        if writes && s.result.is_ok() {
            let ghost was = views(written_agents@);
            written_agents.push(s.target.name.to_owned());
            assert(views(written_agents@) =~= was.push(s.target@.name));
        }
        if folder && s.result.is_ok() && !s.root_existed {
            assert(made_dir(steps@[i as int]));
            created_top_level_dir = true;
        }
        i += 1;
    }
    assert(outcome_views(outcomes@) =~= Seq::new(steps@.len(), |i: int| step_outcome(steps@[i])));
    WriteResult { outcomes, created_top_level_dir, written_agents }
}

/// Agents that are told of as linked are those that the skill was written for, and
/// no others; a rehearsal writes for none.
pub proof fn law_linked_means_written(s: WriteStep)
    ensures
        step_outcome(s).status == "linked"@ <==> step_wrote(s),
        s.plan is Tell ==> !step_wrote(s) && step_outcome(s).status == "dry_run"@,
{
    reveal_strlit("linked");
    reveal_strlit("dry_run");
    reveal_strlit("skipped");
    assert("linked"@.len() != "dry_run"@.len());
    assert("linked"@.len() != "skipped"@.len());
}

// ---------------------------------------------------------------------------
// Newer versions
// ---------------------------------------------------------------------------

/// A newer version of a skill that is linked.
#[derive(Debug, Clone)]
pub struct UpdateNotice {
    pub slug: String,
    /// The version that is linked.
    pub have: String,
    /// The version that is published.
    pub latest: String,
    /// Who published it.
    pub author: String,
}

/// A notice as a mathematical value.
#[verifier::ext_equal]
pub ghost struct NoticeView {
    pub slug: Seq<char>,
    pub have: Seq<char>,
    pub latest: Seq<char>,
    pub author: Seq<char>,
}

impl View for UpdateNotice {
    type V = NoticeView;

    open spec fn view(&self) -> NoticeView {
        NoticeView {
            slug: self.slug@,
            have: self.have@,
            latest: self.latest@,
            author: self.author@,
        }
    }
}

impl UpdateNotice {
    /// The notice in one line. It states the fact and tells nobody what to do.
    pub fn line(&self) -> (r: String)
        ensures
            r@ == "update available: `"@ + self@.slug + "` is linked at "@ + self@.have + "; "@
                + self@.latest + " (by "@ + self@.author + ") is published upstream."@,
    {
        let mut r = concat7(
            "update available: `",
            self.slug.as_str(),
            "` is linked at ",
            self.have.as_str(),
            "; ",
            self.latest.as_str(),
            " (by ",
        );
        r.append(self.author.as_str());
        r.append(") is published upstream.");
        r
    }
}

/// Who published a skill: the handle, if there is one, else the team, else someone.
pub open spec fn author_of(username: Option<Seq<char>>, team: bool) -> Seq<char> {
    if username is Some && username->0.len() > 0 {
        username->0
    } else if team {
        "your team"@
    } else {
        "the author"@
    }
}

/// Who published a skill.
pub fn author_label(owner_username: Option<&str>, owner_team: bool) -> (r: String)
    ensures
        r@ == author_of(opt_str_view(owner_username), owner_team),
{
    match owner_username {
        Some(u) => {
            if !u.is_empty() {
                return u.to_owned();
            }
        },
        None => {},
    }
    if owner_team {
        "your team".to_owned()
    } else {
        "the author".to_owned()
    }
}

/// The version at which the first link of a skill stands, from `from` on.
pub open spec fn linked_version(s: Seq<LinkView>, slug: Seq<char>, from: int) -> Option<Seq<char>>
    decreases s.len() - from,
{
    if from < 0 || from >= s.len() {
        None
    } else if s[from].slug == slug {
        Some(s[from].version)
    } else {
        linked_version(s, slug, from + 1)
    }
}

/// The notice that is due, if one is: the skill is linked, at another version than
/// the latest.
pub open spec fn notice_due(
    s: Seq<LinkView>,
    slug: Seq<char>,
    latest: Seq<char>,
    username: Option<Seq<char>>,
    team: bool,
) -> Option<NoticeView> {
    match linked_version(s, slug, 0) {
        Some(have) => if have == latest {
            None
        } else {
            Some(NoticeView { slug, have, latest, author: author_of(username, team) })
        },
        None => None,
    }
}

/// The notice that is due, if one is. Nothing is fetched and nothing changes.
pub fn pending_update(
    disabled: bool,
    linked: &Vec<LinkedSkill>,
    slug: &str,
    latest: &str,
    owner_username: Option<&str>,
    owner_team: bool,
) -> (r: Option<UpdateNotice>)
    ensures
        match r {
            Some(n) => !disabled && notice_due(
                link_views(linked@),
                slug@,
                latest@,
                opt_str_view(owner_username),
                owner_team,
            ) == Some(n@),
            None => disabled || notice_due(
                link_views(linked@),
                slug@,
                latest@,
                opt_str_view(owner_username),
                owner_team,
            ) is None,
        },
{
    if disabled {
        return None;
    }
    let ghost s = link_views(linked@);
    let mut i: usize = 0;
    while i < linked.len()
        invariant
            i <= linked.len(),
            s == link_views(linked@),
            !disabled,
            linked_version(s, slug@, 0) == linked_version(s, slug@, i as int),
        decreases linked.len() - i,
    {
        assert(s[i as int] == linked@[i as int]@);
        if same(linked[i].slug.as_str(), slug) {
            if same(linked[i].version.as_str(), latest) {
                return None;
            }
            return Some(
                UpdateNotice {
                    slug: slug.to_owned(),
                    have: linked[i].version.clone(),
                    latest: latest.to_owned(),
                    author: author_label(owner_username, owner_team),
                },
            );
        }
        i += 1;
    }
    None
}

/// The environment asks not to be told.
pub open spec fn no_update_check(env: Option<Seq<char>>) -> bool {
    match env {
        Some(v) => trimmed(v) == "1"@ || ascii_lower(trimmed(v)) == ascii_lower("true"@)
            || ascii_lower(trimmed(v)) == ascii_lower("yes"@),
        None => false,
    }
}

/// Whether the environment asks not to be told, by the value of
/// `KNACK_NO_LINK_UPDATE_CHECK`.
pub fn update_check_disabled(env: Option<&str>) -> (r: bool)
    ensures
        r == no_update_check(opt_str_view(env)),
{
    match env {
        Some(v) => {
            let t = trim(v);
            same(t, "1") || same_ignoring_case(t, "true") || same_ignoring_case(t, "yes")
        },
        None => false,
    }
}

pub open spec fn link_slugs(s: Seq<LinkView>) -> Seq<Seq<char>> {
    Seq::new(s.len(), |i: int| s[i].slug)
}

/// The skills that are linked, each once, in order.
pub fn linked_slugs(linked: &Vec<LinkedSkill>) -> (r: Vec<String>)
    ensures
        views(r@) == in_order(link_slugs(link_views(linked@)).to_set()),
{
    let mut all: Vec<String> = Vec::new();
    let mut i: usize = 0;
    while i < linked.len()
        invariant
            i <= linked.len(),
            all@.len() == i,
            forall|j: int| 0 <= j < i ==> (#[trigger] all@[j])@ == linked@[j].slug@,
        decreases linked.len() - i,
    {
        all.push(linked[i].slug.clone());
        i += 1;
    }
    assert(views(all@) =~= link_slugs(link_views(linked@)));
    distinct_sorted(&all)
}

/// Some link of the skill stands at another version than the latest.
pub open spec fn drifted(s: Seq<LinkView>, slug: Seq<char>, latest: Seq<char>) -> bool {
    exists|i: int| 0 <= i < s.len() && (#[trigger] s[i]).slug == slug && s[i].version != latest
}

/// Whether some link of the skill stands at another version than the latest.
pub fn needs_update(linked: &Vec<LinkedSkill>, slug: &str, latest: &str) -> (r: bool)
    ensures
        r == drifted(link_views(linked@), slug@, latest@),
{
    let ghost s = link_views(linked@);
    let mut i: usize = 0;
    while i < linked.len()
        invariant
            i <= linked.len(),
            s == link_views(linked@),
            forall|j: int| 0 <= j < i ==> !((#[trigger] s[j]).slug == slug@ && s[j].version != latest@),
        decreases linked.len() - i,
    {
        assert(s[i as int] == linked@[i as int]@);
        if same(linked[i].slug.as_str(), slug) && !same(linked[i].version.as_str(), latest) {
            return true;
        }
        i += 1;
    }
    false
}

/// The known ones among the first `n` names.
pub open spec fn targets_named(
    all: Seq<TargetView>,
    names: Seq<Seq<char>>,
    n: int,
) -> Seq<TargetView>
    decreases n,
{
    if n <= 0 {
        seq![]
    } else {
        match target_named(all, names[n - 1]) {
            Some(t) => targets_named(all, names, n - 1).push(t),
            None => targets_named(all, names, n - 1),
        }
    }
}

/// The agents to link a skill into again: those it was linked into, as far as they
/// are known still.
pub fn relink_targets(all: &Vec<AgentTarget>, entry: &LinkedSkill) -> (r: Vec<AgentTarget>)
    ensures
        target_views(r@) == targets_named(
            target_views(all@),
            entry@.agents,
            entry@.agents.len() as int,
        ),
{
    let ghost s = entry@.agents;
    let mut out: Vec<AgentTarget> = Vec::new();
    let mut i: usize = 0;
    assert(target_views(out@) =~= seq![]);
    while i < entry.agents.len()
        invariant
            i <= entry.agents.len(),
            s == views(entry.agents@),
            target_views(out@) == targets_named(target_views(all@), s, i as int),
        decreases entry.agents.len() - i,
    {
        assert(s[i as int] == entry.agents@[i as int]@);
        match find(all, entry.agents[i].as_str()) {
            Some(t) => {
                let ghost was = target_views(out@);
                let ghost x = t@;
                out.push(t);
                assert(target_views(out@) =~= was.push(x));
            },
            None => {},
        }
        i += 1;
    }
    out
}

/// What was found of a skill upstream.
#[derive(Debug)]
pub struct Upstream {
    pub latest: Option<String>,
    pub owner_username: Option<String>,
    /// It belongs to a team.
    pub owner_team: bool,
}

/// The notice that is due for a skill, if it was found and was ever published.
pub open spec fn notice_for(s: Seq<LinkView>, slug: Seq<char>, up: Option<Upstream>) -> Option<
    NoticeView,
> {
    match up {
        Some(u) => match opt_view(u.latest) {
            Some(latest) => notice_due(s, slug, latest, opt_view(u.owner_username), u.owner_team),
            None => None,
        },
        None => None,
    }
}

/// The notices that are due for the first `n` skills.
pub open spec fn notices_for(
    s: Seq<LinkView>,
    slugs: Seq<Seq<char>>,
    ups: Seq<Option<Upstream>>,
    n: int,
) -> Seq<NoticeView>
    decreases n,
{
    if n <= 0 {
        seq![]
    } else {
        match notice_for(s, slugs[n - 1], ups[n - 1]) {
            Some(x) => notices_for(s, slugs, ups, n - 1).push(x),
            None => notices_for(s, slugs, ups, n - 1),
        }
    }
}

/// The notices as mathematical values.
pub open spec fn due_views(v: Seq<UpdateNotice>) -> Seq<NoticeView> {
    Seq::new(v.len(), |i: int| v[i]@)
}

/// The notices that are due, by what was found of each skill. Nothing changes.
pub fn check_updates(
    disabled: bool,
    linked: &Vec<LinkedSkill>,
    slugs: &Vec<String>,
    found: &Vec<Option<Upstream>>,
) -> (r: Vec<UpdateNotice>)
    requires
        slugs@.len() == found@.len(),
    ensures
        due_views(r@) == (if disabled {
            seq![]
        } else {
            notices_for(link_views(linked@), views(slugs@), found@, found@.len() as int)
        }),
{
    let ghost s = link_views(linked@);
    let ghost names = views(slugs@);
    let mut out: Vec<UpdateNotice> = Vec::new();
    assert(due_views(out@) =~= seq![]);
    if disabled {
        return out;
    }
    let mut i: usize = 0;
    while i < slugs.len()
        invariant
            i <= slugs.len(),
            slugs@.len() == found@.len(),
            !disabled,
            s == link_views(linked@),
            names == views(slugs@),
            due_views(out@) == notices_for(s, names, found@, i as int),
        decreases slugs.len() - i,
    {
        assert(names[i as int] == slugs@[i as int]@);
        let notice = match &found[i] {
            Some(u) => match &u.latest {
                Some(latest) => pending_update(
                    disabled,
                    linked,
                    slugs[i].as_str(),
                    latest.as_str(),
                    opt_str(&u.owner_username),
                    u.owner_team,
                ),
                None => None,
            },
            None => None,
        };
        match notice {
            Some(x) => {
                let ghost was = due_views(out@);
                let ghost v = x@;
                out.push(x);
                assert(due_views(out@) =~= was.push(v));
            },
            None => {},
        }
        i += 1;
    }
    out
}

/// The skills among the first `n` that are to be updated, each with its latest
/// version.
pub open spec fn outdated(
    s: Seq<LinkView>,
    slugs: Seq<Seq<char>>,
    latest: Seq<Option<Seq<char>>>,
    n: int,
) -> Seq<(Seq<char>, Seq<char>)>
    decreases n,
{
    if n <= 0 {
        seq![]
    } else {
        match latest[n - 1] {
            Some(v) => if drifted(s, slugs[n - 1], v) {
                outdated(s, slugs, latest, n - 1).push((slugs[n - 1], v))
            } else {
                outdated(s, slugs, latest, n - 1)
            },
            None => outdated(s, slugs, latest, n - 1),
        }
    }
}

pub open spec fn opt_views(v: Seq<Option<String>>) -> Seq<Option<Seq<char>>> {
    Seq::new(v.len(), |i: int| opt_view(v[i]))
}

/// The skills that are to be updated, by the latest version of each: those of which
/// some link drifted.
pub fn update_all(
    linked: &Vec<LinkedSkill>,
    slugs: &Vec<String>,
    latest: &Vec<Option<String>>,
) -> (r: Vec<(String, String)>)
    requires
        slugs@.len() == latest@.len(),
    ensures
        crate::api::request::pair_views(r@) == outdated(
            link_views(linked@),
            views(slugs@),
            opt_views(latest@),
            slugs@.len() as int,
        ),
{
    let ghost s = link_views(linked@);
    let ghost names = views(slugs@);
    let ghost l = opt_views(latest@);
    let mut out: Vec<(String, String)> = Vec::new();
    let mut i: usize = 0;
    assert(crate::api::request::pair_views(out@) =~= seq![]);
    while i < slugs.len()
        invariant
            i <= slugs.len(),
            slugs@.len() == latest@.len(),
            s == link_views(linked@),
            names == views(slugs@),
            l == opt_views(latest@),
            crate::api::request::pair_views(out@) == outdated(s, names, l, i as int),
        decreases slugs.len() - i,
    {
        assert(names[i as int] == slugs@[i as int]@);
        assert(l[i as int] == opt_view(latest@[i as int]));
        match &latest[i] {
            Some(v) => {
                if needs_update(linked, slugs[i].as_str(), v.as_str()) {
                    let ghost was = crate::api::request::pair_views(out@);
                    out.push((slugs[i].clone(), v.clone()));
                    assert(crate::api::request::pair_views(out@) =~= was.push(
                        (slugs@[i as int]@, v@),
                    ));
                }
            },
            None => {},
        }
        i += 1;
    }
    out
}

/// Only what drifted is updated, and each time to the latest version.
pub proof fn law_updates_mean_drift(
    s: Seq<LinkView>,
    slugs: Seq<Seq<char>>,
    latest: Seq<Option<Seq<char>>>,
    n: int,
    i: int,
)
    requires
        0 <= i < outdated(s, slugs, latest, n).len(),
    ensures
        drifted(s, outdated(s, slugs, latest, n)[i].0, outdated(s, slugs, latest, n)[i].1),
    decreases n,
{
    if n > 0 && i < outdated(s, slugs, latest, n - 1).len() {
        law_updates_mean_drift(s, slugs, latest, n - 1, i);
    }
}

/// A notice is due only where updating would change something.
pub proof fn law_notices_mean_drift(
    s: Seq<LinkView>,
    slug: Seq<char>,
    latest: Seq<char>,
    username: Option<Seq<char>>,
    team: bool,
)
    ensures
        notice_due(s, slug, latest, username, team) is Some ==> drifted(s, slug, latest),
{
    lemma_linked_version(s, slug, 0);
}

proof fn lemma_linked_version(s: Seq<LinkView>, slug: Seq<char>, from: int)
    requires
        0 <= from,
    ensures
        linked_version(s, slug, from) matches Some(v) ==> exists|i: int|
            from <= i < s.len() && (#[trigger] s[i]).slug == slug && s[i].version == v,
    decreases s.len() - from,
{
    if from < s.len() {
        if s[from].slug == slug {
            assert(s[from].version == linked_version(s, slug, from)->0);
        } else {
            lemma_linked_version(s, slug, from + 1);
        }
    }
}

// ---------------------------------------------------------------------------
// Precedence
// ---------------------------------------------------------------------------

/// The other scope.
pub open spec fn other_scope(s: Scope) -> Scope {
    match s {
        Scope::Home => Scope::Project,
        Scope::Project => Scope::Home,
    }
}

/// The skill is linked in a scope.
pub open spec fn linked_at(s: Seq<LinkView>, slug: Seq<char>, scope: Scope) -> bool {
    exists|i: int| 0 <= i < s.len() && (#[trigger] s[i]).slug == slug && s[i].scope == scope
}

/// What is told of a skill that is linked in both scopes: the one in the home
/// directory is the one that counts.
pub open spec fn precedence_note(slug: Seq<char>, scope: Scope) -> Seq<char> {
    match scope {
        Scope::Home => "note: `"@ + slug
            + "` is also linked at project scope; the global copy you just linked takes precedence (personal overrides project)."@,
        Scope::Project => "note: `"@ + slug
            + "` is also linked globally; that global copy takes precedence over this project one (personal overrides project)."@,
    }
}

/// What is told of a skill that is linked in the other scope too.
pub fn precedence_warning(
    linked: &Vec<LinkedSkill>,
    slug: &str,
    scope: Scope,
) -> (r: Option<String>)
    ensures
        opt_view(r) == (if linked_at(link_views(linked@), slug@, other_scope(scope)) {
            Some(precedence_note(slug@, scope))
        } else {
            None
        }),
{
    let other = match scope {
        Scope::Home => Scope::Project,
        Scope::Project => Scope::Home,
    };
    let ghost s = link_views(linked@);
    let mut i: usize = 0;
    while i < linked.len()
        invariant
            i <= linked.len(),
            s == link_views(linked@),
            other == other_scope(scope),
            forall|j: int| 0 <= j < i ==> !((#[trigger] s[j]).slug == slug@ && s[j].scope == other),
        decreases linked.len() - i,
    {
        assert(s[i as int] == linked@[i as int]@);
        if same(linked[i].slug.as_str(), slug) && linked[i].scope == other {
            return Some(
                match scope {
                    Scope::Home => concat3(
                        "note: `",
                        slug,
                        "` is also linked at project scope; the global copy you just linked takes precedence (personal overrides project).",
                    ),
                    Scope::Project => concat3(
                        "note: `",
                        slug,
                        "` is also linked globally; that global copy takes precedence over this project one (personal overrides project).",
                    ),
                },
            );
        }
        i += 1;
    }
    None
}

// ---------------------------------------------------------------------------
// Reports
// ---------------------------------------------------------------------------

pub open spec fn outcome_json(o: OutcomeView) -> JsonView {
    JsonView::Object(
        seq![
            ("agent"@, JsonView::Text(o.agent)),
            ("path"@, text_or_null(o.path)),
            ("status"@, JsonView::Text(o.status)),
            ("reason"@, text_or_null(o.reason)),
        ],
    )
}

/// What `knack link` reports.
pub open spec fn link_report(
    slug: Seq<char>,
    version: Seq<char>,
    scope: Scope,
    outcomes: Seq<OutcomeView>,
    dry_run: bool,
    restart: bool,
    note: Option<Seq<char>>,
) -> JsonView {
    JsonView::Object(
        seq![
            ("slug"@, JsonView::Text(slug)),
            ("version"@, JsonView::Text(version)),
            ("scope"@, JsonView::Text(scope_name(scope))),
            ("dry_run"@, JsonView::Bool(dry_run)),
            ("restart_required"@, JsonView::Bool(restart)),
            ("precedence_note"@, text_or_null(note)),
            (
                "agents"@,
                JsonView::Array(Seq::new(outcomes.len(), |i: int| outcome_json(outcomes[i]))),
            ),
        ],
    )
}

impl AgentOutcome {
    fn to_json(&self) -> (r: Json)
        ensures
            r.value() == outcome_json(self@),
    {
        let m = with_member(no_members(), "agent", Json::text(self.agent));
        let m = with_member(m, "path", Json::opt_text(opt_str(&self.path)));
        let m = with_member(m, "status", Json::text(self.status));
        let m = with_member(m, "reason", Json::opt_text(opt_str(&self.reason)));
        assert(member_views(m@) =~= outcome_json(self@)->Object_0);
        Json::object(m)
    }
}

/// What `knack link` reports.
pub fn link_report_json(
    slug: &str,
    version: &str,
    scope: Scope,
    outcomes: &Vec<AgentOutcome>,
    dry_run: bool,
    created_top_level_dir: bool,
    precedence_note: Option<&str>,
) -> (r: Json)
    ensures
        r.value() == link_report(
            slug@,
            version@,
            scope,
            outcome_views(outcomes@),
            dry_run,
            created_top_level_dir,
            opt_str_view(precedence_note),
        ),
{
    let ghost s = outcome_views(outcomes@);
    let mut a: Vec<Json> = Vec::new();
    let mut i: usize = 0;
    while i < outcomes.len()
        invariant
            i <= outcomes.len(),
            s == outcome_views(outcomes@),
            a@.len() == i,
            forall|j: int| 0 <= j < i ==> (#[trigger] a@[j]).value() == outcome_json(s[j]),
        decreases outcomes.len() - i,
    {
        a.push(outcomes[i].to_json());
        i += 1;
    }
    proof {
        crate::json::lemma_array_value(a);
        assert(values(a@) =~= Seq::new(s.len(), |i: int| outcome_json(s[i])));
    }
    let m = with_member(no_members(), "slug", Json::text(slug));
    let m = with_member(m, "version", Json::text(version));
    let m = with_member(m, "scope", Json::text(scope.as_str()));
    let m = with_member(m, "dry_run", Json::Bool(dry_run));
    let m = with_member(m, "restart_required", Json::Bool(created_top_level_dir));
    let m = with_member(m, "precedence_note", Json::opt_text(precedence_note));
    let m = with_member(m, "agents", Json::Array(a));
    assert(member_views(m@) =~= link_report(
        slug@,
        version@,
        scope,
        s,
        dry_run,
        created_top_level_dir,
        opt_str_view(precedence_note),
    )->Object_0);
    Json::object(m)
}

pub open spec fn text_or_nothing(o: Option<Seq<char>>) -> Seq<char> {
    match o {
        Some(s) => s,
        None => ""@,
    }
}

/// What people are told of one agent.
pub open spec fn outcome_line(verb: Seq<char>, slug: Seq<char>, o: OutcomeView) -> Seq<char> {
    if o.status == "linked"@ || o.status == "dry_run"@ {
        verb + " "@ + slug + " ("@ + o.display + ") → "@ + text_or_nothing(o.path)
    } else {
        "Skipped "@ + o.display + " ("@ + (match o.reason {
            Some(s) => s,
            None => "?"@,
        }) + ")"@ + (match o.path {
            Some(p) => " — "@ + p,
            None => ""@,
        })
    }
}

/// What people are told of a link.
pub open spec fn link_lines(
    slug: Seq<char>,
    outcomes: Seq<OutcomeView>,
    dry_run: bool,
    note: Option<Seq<char>>,
) -> Seq<Seq<char>> {
    let verb = if dry_run {
        "Would link"@
    } else {
        "Linked"@
    };
    let told = Seq::new(outcomes.len(), |i: int| outcome_line(verb, slug, outcomes[i]));
    match note {
        Some(n) => told.push(n),
        None => told,
    }
}

fn tell_outcome(verb: &str, slug: &str, o: &AgentOutcome) -> (r: String)
    ensures
        r@ == outcome_line(verb@, slug@, o@),
{
    if same(o.status, "linked") || same(o.status, "dry_run") {
        let mut r = concat5(verb, " ", slug, " (", o.display);
        r.append(") → ");
        r.append(
            match &o.path {
                Some(p) => p.as_str(),
                None => "",
            },
        );
        r
    } else {
        let mut r = concat3("Skipped ", o.display, " (");
        r.append(
            match &o.reason {
                Some(s) => s.as_str(),
                None => "?",
            },
        );
        r.append(")");
        let tail = match &o.path {
            Some(p) => crate::errors::prefixed(" — ", p.as_str()),
            None => "".to_owned(),
        };
        r.append(tail.as_str());
        r
    }
}

/// What people are told of a link.
pub fn link_report_lines(
    slug: &str,
    outcomes: &Vec<AgentOutcome>,
    dry_run: bool,
    precedence_note: Option<&str>,
) -> (r: Vec<String>)
    ensures
        views(r@) == link_lines(
            slug@,
            outcome_views(outcomes@),
            dry_run,
            opt_str_view(precedence_note),
        ),
{
    let verb = if dry_run {
        "Would link"
    } else {
        "Linked"
    };
    let ghost s = outcome_views(outcomes@);
    let mut out: Vec<String> = Vec::new();
    let mut i: usize = 0;
    while i < outcomes.len()
        invariant
            i <= outcomes.len(),
            s == outcome_views(outcomes@),
            out@.len() == i,
            forall|j: int| 0 <= j < i ==> (#[trigger] out@[j])@ == outcome_line(verb@, slug@, s[j]),
        decreases outcomes.len() - i,
    {
        out.push(tell_outcome(verb, slug, &outcomes[i]));
        i += 1;
    }
    let ghost told = Seq::new(s.len(), |i: int| outcome_line(verb@, slug@, s[i]));
    assert(views(out@) =~= told);
    match precedence_note {
        Some(n) => {
            out.push(n.to_owned());
            assert(views(out@) =~= told.push(n@));
        },
        None => {},
    }
    out
}

/// What `knack link --list` reports.
pub fn list_json(linked: &Vec<LinkedSkill>) -> (r: Json)
    ensures
        r.value() == JsonView::Object(
            seq![("linked"@, JsonView::Array(links_json(link_views(linked@))))],
        ),
{
    Json::object(with_member(no_members(), "linked", links_to_json(linked)))
}

/// What people are told of a link that is there.
pub open spec fn listed_line(l: LinkView) -> Seq<char> {
    l.slug + "@"@ + l.version + " ["@ + scope_name(l.scope) + "] → "@ + joined(l.agents, ", "@)
}

/// What `knack link --list` tells people.
pub fn list_linked(linked: &Vec<LinkedSkill>) -> (r: Vec<String>)
    ensures
        if linked@.len() == 0 {
            views(r@) == seq![
                "No skills linked. Use `knack link <slug>` to install one as a slash command."@,
            ]
        } else {
            views(r@) == Seq::new(linked@.len(), |i: int| listed_line(link_views(linked@)[i]))
        },
{
    let mut out: Vec<String> = Vec::new();
    if linked.len() == 0 {
        out.push(
            "No skills linked. Use `knack link <slug>` to install one as a slash command.".to_owned(),
        );
        assert(views(out@) =~= seq![
            "No skills linked. Use `knack link <slug>` to install one as a slash command."@,
        ]);
        return out;
    }
    let ghost s = link_views(linked@);
    let mut i: usize = 0;
    while i < linked.len()
        invariant
            i <= linked.len(),
            s == link_views(linked@),
            out@.len() == i,
            forall|j: int| 0 <= j < i ==> (#[trigger] out@[j])@ == listed_line(s[j]),
        decreases linked.len() - i,
    {
        let l = &linked[i];
        let list = join_strings(&l.agents, ", ");
        out.push(
            concat7(
                l.slug.as_str(),
                "@",
                l.version.as_str(),
                " [",
                l.scope.as_str(),
                "] → ",
                list.as_str(),
            ),
        );
        i += 1;
    }
    assert(views(out@) =~= Seq::new(linked@.len(), |i: int| listed_line(s[i])));
    out
}

pub open spec fn notice_views(v: Seq<UpdateNotice>) -> Seq<NoticeView> {
    Seq::new(v.len(), |i: int| v[i]@)
}

pub open spec fn notice_json(n: NoticeView) -> JsonView {
    JsonView::Object(
        seq![
            ("slug"@, JsonView::Text(n.slug)),
            ("have"@, JsonView::Text(n.have)),
            ("latest"@, JsonView::Text(n.latest)),
            ("author"@, JsonView::Text(n.author)),
        ],
    )
}

/// What `knack link --check` reports.
pub open spec fn check_report(checked: nat, notices: Seq<NoticeView>) -> JsonView {
    JsonView::Object(
        seq![
            ("checked"@, JsonView::Int(checked as int)),
            (
                "updates"@,
                JsonView::Array(Seq::new(notices.len(), |i: int| notice_json(notices[i]))),
            ),
        ],
    )
}

impl UpdateNotice {
    fn to_json(&self) -> (r: Json)
        ensures
            r.value() == notice_json(self@),
    {
        let m = with_member(no_members(), "slug", Json::text(self.slug.as_str()));
        let m = with_member(m, "have", Json::text(self.have.as_str()));
        let m = with_member(m, "latest", Json::text(self.latest.as_str()));
        let m = with_member(m, "author", Json::text(self.author.as_str()));
        assert(member_views(m@) =~= notice_json(self@)->Object_0);
        Json::object(m)
    }
}

/// What `knack link --check` reports.
pub fn check_report_json(checked: usize, notices: &Vec<UpdateNotice>) -> (r: Json)
    ensures
        r.value() == check_report(checked as nat, notice_views(notices@)),
{
    let ghost s = notice_views(notices@);
    let mut a: Vec<Json> = Vec::new();
    let mut i: usize = 0;
    while i < notices.len()
        invariant
            i <= notices.len(),
            s == notice_views(notices@),
            a@.len() == i,
            forall|j: int| 0 <= j < i ==> (#[trigger] a@[j]).value() == notice_json(s[j]),
        decreases notices.len() - i,
    {
        a.push(notices[i].to_json());
        i += 1;
    }
    proof {
        crate::json::lemma_array_value(a);
        assert(values(a@) =~= Seq::new(s.len(), |i: int| notice_json(s[i])));
    }
    let m = with_member(no_members(), "checked", Json::Nat(checked as u64));
    let m = with_member(m, "updates", Json::Array(a));
    assert(member_views(m@) =~= check_report(checked as nat, s)->Object_0);
    Json::object(m)
}

pub open spec fn notice_text(n: NoticeView) -> Seq<char> {
    n.slug + " — have "@ + n.have + ", latest "@ + n.latest + " (by "@ + n.author + ")"@
}

/// What `knack link --check` tells people.
pub open spec fn check_text(checked: nat, notices: Seq<NoticeView>) -> Seq<Seq<char>> {
    if checked == 0 {
        seq!["No skills linked."@]
    } else if notices.len() == 0 {
        seq!["All "@ + decimal(checked) + " linked skill(s) are up to date."@]
    } else {
        Seq::new(notices.len(), |i: int| notice_text(notices[i])).push(
            "\nRun `knack link <slug>` to update one, or `knack link --all` for all."@,
        )
    }
}

/// What `knack link --check` tells people.
pub fn check_lines(checked: usize, notices: &Vec<UpdateNotice>) -> (r: Vec<String>)
    ensures
        views(r@) == check_text(checked as nat, notice_views(notices@)),
{
    let mut out: Vec<String> = Vec::new();
    let ghost s = notice_views(notices@);
    if checked == 0 {
        out.push("No skills linked.".to_owned());
        assert(views(out@) =~= seq!["No skills linked."@]);
        return out;
    }
    if notices.len() == 0 {
        let n = usize_text(checked);
        out.push(concat3("All ", n.as_str(), " linked skill(s) are up to date."));
        assert(views(out@) =~= check_text(checked as nat, s));
        return out;
    }
    let mut i: usize = 0;
    while i < notices.len()
        invariant
            i <= notices.len(),
            s == notice_views(notices@),
            out@.len() == i,
            forall|j: int| 0 <= j < i ==> (#[trigger] out@[j])@ == notice_text(s[j]),
        decreases notices.len() - i,
    {
        let n = &notices[i];
        let mut t = concat7(
            n.slug.as_str(),
            " — have ",
            n.have.as_str(),
            ", latest ",
            n.latest.as_str(),
            " (by ",
            n.author.as_str(),
        );
        t.append(")");
        out.push(t);
        i += 1;
    }
    assert(views(out@) =~= Seq::new(s.len(), |i: int| notice_text(s[i])));
    let ghost told = views(out@);
    out.push("\nRun `knack link <slug>` to update one, or `knack link --all` for all.".to_owned());
    assert(views(out@) =~= told.push(
        "\nRun `knack link <slug>` to update one, or `knack link --all` for all."@,
    ));
    out
}

pub open spec fn removal_json(agent: Seq<char>, path: Seq<char>) -> JsonView {
    JsonView::Object(seq![("agent"@, JsonView::Text(agent)), ("path"@, JsonView::Text(path))])
}

/// What `knack unlink` reports.
pub open spec fn unlink_report(
    slug: Seq<char>,
    scope: Scope,
    removed: Seq<(Seq<char>, Seq<char>)>,
) -> JsonView {
    JsonView::Object(
        seq![
            ("slug"@, JsonView::Text(slug)),
            ("scope"@, JsonView::Text(scope_name(scope))),
            (
                "removed"@,
                JsonView::Array(
                    Seq::new(removed.len(), |i: int| removal_json(removed[i].0, removed[i].1)),
                ),
            ),
        ],
    )
}

/// What `knack unlink` reports.
pub fn unlink_report_json(slug: &str, scope: Scope, removed: &Vec<(String, String)>) -> (r: Json)
    ensures
        r.value() == unlink_report(slug@, scope, crate::api::request::pair_views(removed@)),
{
    let ghost s = crate::api::request::pair_views(removed@);
    let mut a: Vec<Json> = Vec::new();
    let mut i: usize = 0;
    while i < removed.len()
        invariant
            i <= removed.len(),
            s == crate::api::request::pair_views(removed@),
            a@.len() == i,
            forall|j: int| 0 <= j < i ==> (#[trigger] a@[j]).value() == removal_json(s[j].0, s[j].1),
        decreases removed.len() - i,
    {
        let m = with_member(no_members(), "agent", Json::text(removed[i].0.as_str()));
        let m = with_member(m, "path", Json::text(removed[i].1.as_str()));
        assert(member_views(m@) =~= removal_json(s[i as int].0, s[i as int].1)->Object_0);
        a.push(Json::object(m));
        i += 1;
    }
    proof {
        crate::json::lemma_array_value(a);
        assert(values(a@) =~= Seq::new(s.len(), |i: int| removal_json(s[i].0, s[i].1)));
    }
    let m = with_member(no_members(), "slug", Json::text(slug));
    let m = with_member(m, "scope", Json::text(scope.as_str()));
    let m = with_member(m, "removed", Json::Array(a));
    assert(member_views(m@) =~= unlink_report(slug@, scope, s)->Object_0);
    Json::object(m)
}

/// What `knack unlink` tells people.
pub open spec fn unlink_text(
    slug: Seq<char>,
    scope: Scope,
    removed: Seq<(Seq<char>, Seq<char>)>,
) -> Seq<Seq<char>> {
    if removed.len() == 0 {
        seq![
            "Nothing to unlink: `"@ + slug + "` was not linked at "@ + scope_name(scope)
                + " scope in any known agent."@,
        ]
    } else {
        Seq::new(removed.len(), |i: int| "Unlinked "@ + removed[i].0 + " → "@ + removed[i].1)
    }
}

/// What `knack unlink` tells people.
pub fn unlink_lines(slug: &str, scope: Scope, removed: &Vec<(String, String)>) -> (r: Vec<String>)
    ensures
        views(r@) == unlink_text(slug@, scope, crate::api::request::pair_views(removed@)),
{
    let ghost s = crate::api::request::pair_views(removed@);
    let mut out: Vec<String> = Vec::new();
    if removed.len() == 0 {
        out.push(
            concat5(
                "Nothing to unlink: `",
                slug,
                "` was not linked at ",
                scope.as_str(),
                " scope in any known agent.",
            ),
        );
        assert(views(out@) =~= unlink_text(slug@, scope, s));
        return out;
    }
    let mut i: usize = 0;
    while i < removed.len()
        invariant
            i <= removed.len(),
            s == crate::api::request::pair_views(removed@),
            out@.len() == i,
            forall|j: int|
                0 <= j < i ==> (#[trigger] out@[j])@ == "Unlinked "@ + s[j].0 + " → "@ + s[j].1,
        decreases removed.len() - i,
    {
        out.push(
            crate::text::concat4("Unlinked ", removed[i].0.as_str(), " → ", removed[i].1.as_str()),
        );
        i += 1;
    }
    assert(views(out@) =~= unlink_text(slug@, scope, s));
    out
}

/// What `knack link --all` tells people, by how many skills are linked and which of
/// them were updated.
pub open spec fn update_text(checked: nat, updated: Seq<Seq<char>>) -> Seq<Seq<char>> {
    if checked == 0 {
        seq!["No skills linked; nothing to update."@]
    } else if updated.len() == 0 {
        seq!["All "@ + decimal(checked) + " linked skill(s) already up to date."@]
    } else {
        Seq::new(updated.len(), |i: int| "Updated "@ + updated[i])
    }
}

/// What `knack link --all` tells people.
pub fn update_lines(checked: usize, updated: &Vec<String>) -> (r: Vec<String>)
    ensures
        views(r@) == update_text(checked as nat, views(updated@)),
{
    let ghost s = views(updated@);
    let mut out: Vec<String> = Vec::new();
    if checked == 0 {
        out.push("No skills linked; nothing to update.".to_owned());
        assert(views(out@) =~= update_text(checked as nat, s));
        return out;
    }
    if updated.len() == 0 {
        let n = usize_text(checked);
        out.push(concat3("All ", n.as_str(), " linked skill(s) already up to date."));
        assert(views(out@) =~= update_text(checked as nat, s));
        return out;
    }
    let mut i: usize = 0;
    while i < updated.len()
        invariant
            i <= updated.len(),
            s == views(updated@),
            out@.len() == i,
            forall|j: int| 0 <= j < i ==> (#[trigger] out@[j])@ == "Updated "@ + s[j],
        decreases updated.len() - i,
    {
        out.push(crate::errors::prefixed("Updated ", updated[i].as_str()));
        i += 1;
    }
    assert(views(out@) =~= update_text(checked as nat, s));
    out
}

/// What `knack link --all` reports.
pub fn update_report_json(checked: usize, updated: &Vec<String>) -> (r: Json)
    ensures
        r.value() == JsonView::Object(
            seq![
                ("checked"@, JsonView::Int(checked as int)),
                ("updated"@, JsonView::Array(text_values(views(updated@)))),
            ],
        ),
{
    let m = with_member(no_members(), "checked", Json::Nat(checked as u64));
    let m = with_member(m, "updated", Json::texts(updated));
    assert(member_views(m@) =~= seq![
        ("checked"@, JsonView::Int(checked as int)),
        ("updated"@, JsonView::Array(text_values(views(updated@)))),
    ]);
    Json::object(m)
}

} // verus!
