//! `knack fork`: a copy of someone's skill.

use vstd::prelude::*;

use crate::commands::fetch::{
    fetch, fetch_next, sound, FetchAction, FetchFacts, FetchView, NamedSkill,
};
use crate::commands::pull::{mode_label, mode_of};
use crate::errors::{copy_error, user_error_hint, CliError, ErrorView};
use crate::json::{member_views, no_members, text_values, with_member, Json, JsonView};
use crate::text::{concat3, concat7, opt_owned, opt_str, opt_str_view, opt_view, views};

verus! {

/// The arguments of `knack fork`.
#[derive(Debug, Clone)]
pub struct ForkArgs {
    pub handle_slug: String,
    pub slug: Option<String>,
    pub name: Option<String>,
    pub target: Option<String>,
    pub global: bool,
}

/// The error for a text that does not address a skill by its author.
fn handle_error(handle_slug: &str, example: &str) -> (r: CliError)
    ensures
        r@ == (ErrorView::User {
            code: "INVALID_HANDLE"@,
            message: "fork target must be in the form `@author/slug`, got `"@ + handle_slug@ + "`"@,
            hint: Some("example: `knack fork "@ + example@ + "`"@),
        }),
{
    let hint = concat3("example: `knack fork ", example, "`");
    user_error_hint(
        "INVALID_HANDLE",
        concat3("fork target must be in the form `@author/slug`, got `", handle_slug, "`"),
        hint.as_str(),
    )
}

/// The version of the copy: the one it has, else a first one.
pub open spec fn copy_version(current: Option<Seq<char>>) -> Seq<char> {
    match current {
        Some(v) => v,
        None => "0.1.0"@,
    }
}

/// The version of the copy.
pub fn fork_version(current: Option<&str>) -> (r: String)
    ensures
        r@ == copy_version(opt_str_view(current)),
{
    match current {
        Some(v) => v.to_owned(),
        None => "0.1.0".to_owned(),
    }
}

/// What the copy is to be called, where it is not called as what it is a copy of.
#[derive(Debug)]
pub struct SkillFork {
    pub slug: Option<String>,
    pub name: Option<String>,
}

/// What is known while a skill is copied.
#[derive(Debug)]
pub struct ForkFacts {
    /// The author and the name in the handle, where it is one.
    pub handle: Option<(String, String)>,
    /// The id of the skill that is copied.
    pub source: Option<Result<String, CliError>>,
    pub forked: Option<Result<NamedSkill, CliError>>,
    pub fetch: FetchFacts,
}

/// What is done next while a skill is copied.
#[derive(Debug)]
pub enum ForkAction {
    /// Looks for the skill of an author.
    FindSource { author: String, slug: String },
    /// Asks for a copy of the skill with the id.
    Fork { source_id: String, copy: SkillFork },
    Fetch(FetchAction),
}

/// What is done next, as a mathematical value.
pub ghost enum ForkView {
    FindSource { author: Seq<char>, slug: Seq<char> },
    Fork { source_id: Seq<char>, slug: Option<Seq<char>>, name: Option<Seq<char>> },
    Fetch(FetchView),
}

impl View for ForkAction {
    type V = ForkView;

    open spec fn view(&self) -> ForkView {
        match *self {
            ForkAction::FindSource { author, slug } => ForkView::FindSource {
                author: author@,
                slug: slug@,
            },
            ForkAction::Fork { source_id, copy } => ForkView::Fork {
                source_id: source_id@,
                slug: opt_view(copy.slug),
                name: opt_view(copy.name),
            },
            ForkAction::Fetch(a) => ForkView::Fetch(a@),
        }
    }
}

/// What is done next while a skill is copied: the server makes the copy, and then its
/// files are fetched into a folder that is made before. Where no skill is addressed, the
/// example shows how to.
pub open spec fn fork_next(args: ForkArgs, f: ForkFacts, example: Seq<char>) -> ForkView {
    if f.handle is None {
        ForkView::Fetch(
            FetchView::Fail(
                ErrorView::User {
                    code: "INVALID_HANDLE"@,
                    message: "fork target must be in the form `@author/slug`, got `"@
                        + args.handle_slug@ + "`"@,
                    hint: Some("example: `knack fork "@ + example + "`"@),
                },
            ),
        )
    } else {
        match f.source {
            None => ForkView::FindSource { author: (f.handle->0).0@, slug: (f.handle->0).1@ },
            Some(Err(e)) => ForkView::Fetch(FetchView::Fail(e@)),
            Some(Ok(id)) => match f.forked {
                None => ForkView::Fork {
                    source_id: id@,
                    slug: opt_view(args.slug),
                    name: opt_view(args.name),
                },
                Some(Err(e)) => ForkView::Fetch(FetchView::Fail(e@)),
                Some(Ok(s)) => ForkView::Fetch(
                    match f.fetch.folder {
                        None => FetchView::MakeFolder,
                        Some(Err(e)) => FetchView::Fail(e@),
                        Some(Ok(_)) => fetch_next(
                            s.id@,
                            copy_version(opt_view(s.current_version_semver)),
                            f.fetch,
                        ),
                    },
                ),
            },
        }
    }
}

/// What is done next while a skill is copied.
pub fn run(args: &ForkArgs, f: &ForkFacts, example: &str) -> (r: ForkAction)
    requires
        sound(f.fetch),
    ensures
        r@ == fork_next(*args, *f, example@),
{
    let (author, slug) = match &f.handle {
        Some((author, slug)) => (author, slug),
        None => {
            return ForkAction::Fetch(
                FetchAction::Fail(handle_error(args.handle_slug.as_str(), example)),
            );
        },
    };
    match &f.source {
        None => ForkAction::FindSource { author: author.clone(), slug: slug.clone() },
        Some(Err(e)) => ForkAction::Fetch(FetchAction::Fail(copy_error(e))),
        Some(Ok(id)) => match &f.forked {
            None => ForkAction::Fork {
                source_id: id.clone(),
                copy: SkillFork {
                    slug: opt_owned(opt_str(&args.slug)),
                    name: opt_owned(opt_str(&args.name)),
                },
            },
            Some(Err(e)) => ForkAction::Fetch(FetchAction::Fail(copy_error(e))),
            Some(Ok(s)) => match &f.fetch.folder {
                None => ForkAction::Fetch(FetchAction::MakeFolder),
                Some(Err(e)) => ForkAction::Fetch(FetchAction::Fail(copy_error(e))),
                Some(Ok(_)) => {
                    let version = fork_version(opt_str(&s.current_version_semver));
                    ForkAction::Fetch(fetch(s.id.as_str(), version.as_str(), &f.fetch))
                },
            },
        },
    }
}

/// What is reported of a copy.
pub open spec fn fork_report(
    id: Seq<char>,
    slug: Seq<char>,
    version: Seq<char>,
    author: Seq<char>,
    source: Seq<char>,
    dir: Seq<char>,
    written: Seq<Seq<char>>,
    packed: bool,
) -> JsonView {
    JsonView::Object(
        seq![
            ("skill_id"@, JsonView::Text(id)),
            ("slug"@, JsonView::Text(slug)),
            ("version"@, JsonView::Text(version)),
            (
                "forked_from"@,
                JsonView::Object(
                    seq![("author"@, JsonView::Text(author)), ("slug"@, JsonView::Text(source))],
                ),
            ),
            ("path"@, JsonView::Text(dir)),
            ("files_written"@, JsonView::Array(text_values(written))),
            ("mode"@, JsonView::Text(mode_of(packed))),
        ],
    )
}

/// What is reported of a copy.
pub fn fork_json(
    id: &str,
    slug: &str,
    version: &str,
    author: &str,
    source: &str,
    dir: &str,
    written: &Vec<String>,
    packed: bool,
) -> (r: Json)
    ensures
        r.value() == fork_report(
            id@,
            slug@,
            version@,
            author@,
            source@,
            dir@,
            views(written@),
            packed,
        ),
{
    let f = with_member(no_members(), "author", Json::text(author));
    let f = with_member(f, "slug", Json::text(source));
    assert(member_views(f@) =~= seq![
        ("author"@, JsonView::Text(author@)),
        ("slug"@, JsonView::Text(source@)),
    ]);
    let m = with_member(no_members(), "skill_id", Json::text(id));
    let m = with_member(m, "slug", Json::text(slug));
    let m = with_member(m, "version", Json::text(version));
    let m = with_member(m, "forked_from", Json::object(f));
    let m = with_member(m, "path", Json::text(dir));
    let m = with_member(m, "files_written", Json::texts(written));
    let m = with_member(m, "mode", Json::text(mode_label(packed)));
    assert(member_views(m@) =~= fork_report(
        id@,
        slug@,
        version@,
        author@,
        source@,
        dir@,
        views(written@),
        packed,
    )->Object_0);
    Json::object(m)
}

/// What people are told of a copy. Whose it is, is told by the handle, if there is
/// one.
pub open spec fn fork_text(
    author: Seq<char>,
    source: Seq<char>,
    owner: Option<Seq<char>>,
    slug: Seq<char>,
) -> Seq<Seq<char>> {
    seq![
        "✓ forked @"@ + author + "/"@ + source + " → @"@ + (match owner {
            Some(o) => o,
            None => "me"@,
        }) + "/"@ + slug + "  drafts/"@ + slug + "/"@,
        "  edit then `knack publish "@ + slug + "` when ready"@,
    ]
}

/// What people are told of a copy.
pub fn fork_lines(author: &str, source: &str, owner: Option<&str>, slug: &str) -> (r: Vec<String>)
    ensures
        views(r@) == fork_text(author@, source@, opt_str_view(owner), slug@),
{
    let ghost o = opt_str_view(owner);
    let owner = match owner {
        Some(o) => o,
        None => "me",
    };
    let mut first = concat7("✓ forked @", author, "/", source, " → @", owner, "/");
    first.append(slug);
    first.append("  drafts/");
    first.append(slug);
    first.append("/");
    let mut out: Vec<String> = Vec::new();
    out.push(first);
    out.push(concat3("  edit then `knack publish ", slug, "` when ready"));
    assert(views(out@) =~= fork_text(author@, source@, o, slug@));
    out
}

} // verus!
