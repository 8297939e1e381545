//! `knack create`: the start of a new skill.

use vstd::prelude::*;
use vstd::utf8::encode_utf8;

use crate::config::{below, join_path};
use crate::errors::{copy_error, user_error, user_error_hint, CliError, ErrorView};
use crate::github::bootstrap::{new_file_views, NewFile, NewFileView};
use crate::ids::{fresh_id, is_id};
use crate::json::{member_views, no_members, text_or_null, with_member, Json, JsonView};
use crate::output::{display_path, shown_path, Told};
use crate::text::{
    concat3, concat5, concat7, opt_owned, opt_str, opt_str_view, opt_view, same, string_of, views,
};

verus! {

/// The arguments of `knack create`.
#[derive(Debug, Clone)]
pub struct CreateArgs {
    pub slug: String,
    pub name: String,
    pub description: Option<String>,
    /// `personal`, `team` or `public`.
    pub scope: String,
    pub team_id: Option<String>,
    /// Where to write the starter folder.
    pub scaffold: Option<String>,
    pub no_scaffold: bool,
    pub global: bool,
}

// ---------------------------------------------------------------------------
// Slugs
// ---------------------------------------------------------------------------

/// A character that a slug may start with.
pub open spec fn slug_start(c: char) -> bool {
    ('a' <= c <= 'z') || ('0' <= c <= '9')
}

/// A character that may stand in a slug.
pub open spec fn slug_char(c: char) -> bool {
    slug_start(c) || c == '-'
}

/// The slug of a skill: lower case letters, digits and hyphens, the first no hyphen,
/// and at most a hundred of them.
pub open spec fn is_slug(s: Seq<char>) -> bool {
    &&& 1 <= s.len() <= 100
    &&& slug_start(s[0])
    &&& forall|i: int| 0 <= i < s.len() ==> slug_char(#[trigger] s[i])
}

/// The position, from `from` on, of the first character that may not stand there.
pub open spec fn bad_char(s: Seq<char>, from: int) -> Option<int>
    decreases s.len() - from,
{
    if from < 0 || from >= s.len() {
        None
    } else if !slug_char(s[from]) {
        Some(from)
    } else {
        bad_char(s, from + 1)
    }
}

pub open spec fn bad_slug(message: Seq<char>, hint: Option<Seq<char>>) -> ErrorView {
    ErrorView::User { code: "CREATE_BAD_SLUG"@, message, hint }
}

/// What is wrong with a slug, if anything: its length, its start, or its first
/// character that may not stand there.
pub open spec fn slug_error(s: Seq<char>) -> Option<ErrorView> {
    if s.len() == 0 || encode_utf8(s).len() > 100 {
        Some(bad_slug("slug `"@ + s + "` must be 1-100 chars"@, None))
    } else if !slug_start(s[0]) {
        Some(
            bad_slug(
                "slug must start with [a-z0-9], got `"@ + s + "`"@,
                Some("use lowercase letters, numbers, and hyphens"@),
            ),
        )
    } else {
        match bad_char(s, 1) {
            Some(i) => Some(
                bad_slug(
                    "slug contains invalid character `"@ + seq![s[i]] + "` in `"@ + s + "`"@,
                    Some("only [a-z0-9-] allowed after the first character"@),
                ),
            ),
            None => None,
        }
    }
}

fn may_start(c: char) -> (r: bool)
    ensures
        r == slug_start(c),
{
    ('a' <= c && c <= 'z') || ('0' <= c && c <= '9')
}

/// Refuses what is no slug.
pub fn validate_slug(slug: &str) -> (r: Result<(), CliError>)
    ensures
        match slug_error(slug@) {
            Some(e) => r is Err && r->Err_0@ == e,
            None => r is Ok,
        },
{
    if slug.is_empty() || slug.as_bytes().len() > 100 {
        return Err(user_error("CREATE_BAD_SLUG", concat3("slug `", slug, "` must be 1-100 chars")));
    }
    let v = crate::text::chars_of(slug);
    if !may_start(v[0]) {
        return Err(
            user_error_hint(
                "CREATE_BAD_SLUG",
                concat3("slug must start with [a-z0-9], got `", slug, "`"),
                "use lowercase letters, numbers, and hyphens",
            ),
        );
    }
    let mut i: usize = 1;
    while i < v.len()
        invariant
            1 <= i <= v.len(),
            v@ == slug@,
            slug@.len() > 0,
            encode_utf8(slug@).len() <= 100,
            slug_start(slug@[0]),
            bad_char(slug@, 1) == bad_char(slug@, i as int),
        decreases v.len() - i,
    {
        if !(may_start(v[i]) || v[i] == '-') {
            let one: Vec<char> = vec![v[i]];
            let c = string_of(one.as_slice());
            assert(c@ =~= seq![slug@[i as int]]);
            return Err(
                user_error_hint(
                    "CREATE_BAD_SLUG",
                    concat5("slug contains invalid character `", c.as_str(), "` in `", slug, "`"),
                    "only [a-z0-9-] allowed after the first character",
                ),
            );
        }
        i += 1;
    }
    Ok(())
}

/// What is not refused is a slug, and every slug is accepted.
pub proof fn law_slugs_are_accepted(s: Seq<char>)
    ensures
        slug_error(s) is None <==> is_slug(s),
{
    lemma_bad_char(s, 1);
    if is_slug(s) {
        lemma_ascii_length(s);
    }
    if slug_error(s) is None {
        assert forall|i: int| 0 <= i < s.len() implies slug_char(#[trigger] s[i]) by {}
        lemma_ascii_length(s);
    }
}

proof fn lemma_bad_char(s: Seq<char>, from: int)
    requires
        0 <= from,
    ensures
        bad_char(s, from) is None <==> (forall|i: int|
            from <= i < s.len() ==> slug_char(#[trigger] s[i])),
        bad_char(s, from) matches Some(i) ==> from <= i < s.len() && !slug_char(s[i]),
    decreases s.len() - from,
{
    if from < s.len() && slug_char(s[from]) {
        lemma_bad_char(s, from + 1);
    }
}

proof fn lemma_ascii_length(s: Seq<char>)
    requires
        forall|i: int| 0 <= i < s.len() ==> slug_char(#[trigger] s[i]),
    ensures
        encode_utf8(s).len() == s.len(),
{
    assert(vstd::utf8::is_ascii_chars(s));
    vstd::utf8::is_ascii_chars_encode_utf8(s);
}

// ---------------------------------------------------------------------------
// Scopes
// ---------------------------------------------------------------------------

pub open spec fn bad_scope(message: Seq<char>, hint: Option<Seq<char>>) -> ErrorView {
    ErrorView::User { code: "CREATE_BAD_SCOPE"@, message, hint }
}

/// What is wrong with a scope, if anything: a team belongs to the scope `team` and
/// to no other.
pub open spec fn scope_error(scope: Seq<char>, has_team: bool) -> Option<ErrorView> {
    if scope == "personal"@ || scope == "public"@ {
        if has_team {
            Some(bad_scope("--team-id is forbidden when scope=`"@ + scope + "`"@, None))
        } else {
            None
        }
    } else if scope == "team"@ {
        if has_team {
            None
        } else {
            Some(
                bad_scope(
                    "--team-id is required when scope=`team`"@,
                    Some("pass --team-id <uuid>"@),
                ),
            )
        }
    } else {
        Some(
            bad_scope(
                "scope must be one of personal | team | public, got `"@ + scope + "`"@,
                None,
            ),
        )
    }
}

/// Refuses a scope that is none, or that does not go with the team.
pub fn validate_scope(scope: &str, team_id: Option<&str>) -> (r: Result<(), CliError>)
    ensures
        match scope_error(scope@, team_id is Some) {
            Some(e) => r is Err && r->Err_0@ == e,
            None => r is Ok,
        },
{
    if same(scope, "personal") || same(scope, "public") {
        if team_id.is_some() {
            return Err(
                user_error(
                    "CREATE_BAD_SCOPE",
                    concat3("--team-id is forbidden when scope=`", scope, "`"),
                ),
            );
        }
        Ok(())
    } else if same(scope, "team") {
        if team_id.is_none() {
            return Err(
                user_error_hint(
                    "CREATE_BAD_SCOPE",
                    "--team-id is required when scope=`team`".to_owned(),
                    "pass --team-id <uuid>",
                ),
            );
        }
        Ok(())
    } else {
        Err(
            user_error(
                "CREATE_BAD_SCOPE",
                concat3("scope must be one of personal | team | public, got `", scope, "`"),
            ),
        )
    }
}

// ---------------------------------------------------------------------------
// The starter folder
// ---------------------------------------------------------------------------

/// The skill file that a skill starts with.
pub open spec fn starter_skill(name: Seq<char>, description: Seq<char>) -> Seq<char> {
    "---\nname: "@ + name + "\ndescription: "@ + description
        + "\n---\n\n# How to do it\n\nReplace this with the step-by-step procedure. Keep it concrete.\n\n## Intuition\n\nThe judgment calls, edge cases, and exceptions that make this skill non-obvious. Capture rules inline below as the interview reveals them; these survive into every future run.\n\n### Always\n\n- Rules that hold on every run. Keep them imperative and specific.\n\n### Except when\n\n- Carve-outs from the Always rules. Say how to detect each case.\n\n### Edge cases\n\n- Weird inputs, conflicting signals, things you'd only know from doing this work in production.\n\n# Definition of done\n\nReplace this with the criteria that say the work is finished.\n"@
}

/// The skill file that a skill starts with: the frontmatter that is asked for, and
/// a section for the rules, which the interview fills.
pub fn render_skill_md(name: &str, description: &str) -> (r: String)
    ensures
        r@ == starter_skill(name@, description@),
{
    concat5(
        "---\nname: ",
        name,
        "\ndescription: ",
        description,
        "\n---\n\n# How to do it\n\nReplace this with the step-by-step procedure. Keep it concrete.\n\n## Intuition\n\nThe judgment calls, edge cases, and exceptions that make this skill non-obvious. Capture rules inline below as the interview reveals them; these survive into every future run.\n\n### Always\n\n- Rules that hold on every run. Keep them imperative and specific.\n\n### Except when\n\n- Carve-outs from the Always rules. Say how to detect each case.\n\n### Edge cases\n\n- Weird inputs, conflicting signals, things you'd only know from doing this work in production.\n\n# Definition of done\n\nReplace this with the criteria that say the work is finished.\n",
    )
}

/// What is known of a skill that starts.
pub open spec fn starter_meta(
    id: Seq<char>,
    name: Seq<char>,
    slug: Seq<char>,
    author: Seq<char>,
) -> Seq<char> {
    "id: "@ + id + "\nname: \""@ + name + "\"\nslug: "@ + slug + "\nauthor: "@ + author + "\n"@
}

/// What is known of a skill that starts. The name is quoted, so that it may hold a
/// colon.
pub fn render_meta_yaml(skill_id: &str, name: &str, slug: &str, author: &str) -> (r: String)
    ensures
        r@ == starter_meta(skill_id@, name@, slug@, author@),
{
    let mut r = concat7("id: ", skill_id, "\nname: \"", name, "\"\nslug: ", slug, "\nauthor: ");
    r.append(author);
    r.append("\n");
    r
}

/// What is said of the examples.
pub fn render_examples_readme() -> (r: String)
    ensures
        r@ == "# Examples\n\nDrop input/output pairs here. They get bundled with the skill and the conductor uses them as few-shot anchors.\n"@,
{
    "# Examples\n\nDrop input/output pairs here. They get bundled with the skill and the conductor uses them as few-shot anchors.\n".to_owned()
}

/// The files that a skill starts with.
pub open spec fn starter_files(
    id: Seq<char>,
    slug: Seq<char>,
    name: Seq<char>,
    description: Seq<char>,
    author: Seq<char>,
) -> Seq<NewFileView> {
    seq![
        NewFileView { path: "SKILL.md"@, content: starter_skill(name, description) },
        NewFileView { path: "meta.knack.yaml"@, content: starter_meta(id, name, slug, author) },
        NewFileView {
            path: "examples/README.md"@,
            content: "# Examples\n\nDrop input/output pairs here. They get bundled with the skill and the conductor uses them as few-shot anchors.\n"@,
        },
    ]
}

/// The files to write into a starter folder. One that holds something already is
/// left alone.
pub fn write_scaffold(
    dir: &str,
    has_content: bool,
    skill_id: &str,
    slug: &str,
    name: &str,
    description: &str,
    author_email: &str,
) -> (r: Result<Vec<NewFile>, CliError>)
    ensures
        match r {
            Ok(files) => !has_content && new_file_views(files@) == starter_files(
                skill_id@,
                slug@,
                name@,
                description@,
                author_email@,
            ),
            Err(e) => has_content && e@ == (ErrorView::User {
                code: "CREATE_SCAFFOLD_DIR_NOT_EMPTY"@,
                message: "scaffold target "@ + dir@ + " is not empty"@,
                hint: Some("pass a fresh path or remove the existing contents first"@),
            }),
        },
{
    if has_content {
        return Err(
            user_error_hint(
                "CREATE_SCAFFOLD_DIR_NOT_EMPTY",
                concat3("scaffold target ", dir, " is not empty"),
                "pass a fresh path or remove the existing contents first",
            ),
        );
    }
    let mut files: Vec<NewFile> = Vec::new();
    files.push(
        NewFile { path: "SKILL.md".to_owned(), content: render_skill_md(name, description) },
    );
    files.push(
        NewFile {
            path: "meta.knack.yaml".to_owned(),
            content: render_meta_yaml(skill_id, name, slug, author_email),
        },
    );
    files.push(
        NewFile { path: "examples/README.md".to_owned(), content: render_examples_readme() },
    );
    assert(new_file_views(files@) =~= starter_files(
        skill_id@,
        slug@,
        name@,
        description@,
        author_email@,
    ));
    Ok(files)
}

/// The description of a skill: the one that is given, else a reminder to write one.
pub fn description_or_stub(description: Option<&str>, name: &str) -> (r: String)
    ensures
        r@ == description_of(opt_str_view(description), name@),
{
    match description {
        Some(d) => d.to_owned(),
        None => crate::errors::prefixed(name, " — describe what it does in one line."),
    }
}

/// The starter folder: the one that is asked for, else one for the slug below the
/// directory of drafts.
pub fn scaffold_dir(drafts_root: &str, given: bool, slug: &str) -> (r: String)
    ensures
        r@ == (if given {
            drafts_root@
        } else {
            below(drafts_root@, slug@)
        }),
{
    if given {
        drafts_root.to_owned()
    } else {
        join_path(drafts_root, slug)
    }
}

/// The error of a starter folder that could not be written.
pub fn io(e: &str) -> (r: CliError)
    ensures
        r@ == (ErrorView::User {
            code: "CREATE_SCAFFOLD_IO"@,
            message: "scaffold write failed: "@ + e@,
            hint: None,
        }),
{
    user_error("CREATE_SCAFFOLD_IO", crate::errors::prefixed("scaffold write failed: ", e))
}

// ---------------------------------------------------------------------------
// In a repository of one's own
// ---------------------------------------------------------------------------

/// The skill file that a skill starts with in a repository of one's own.
pub open spec fn github_skill(name: Seq<char>, description: Seq<char>) -> Seq<char> {
    "---\nname: "@ + name + "\ndescription: "@ + description + "\n---\n\n# "@ + name
        + "\n\n## How to do it\n\n(write the step-by-step procedure here — concrete, no jargon)\n\n## Intuition\n\nThe judgment calls, edge cases, and exceptions that make this skill non-obvious.\n\n### Always\n\n- Rules that hold on every run.\n\n### Except when\n\n- Carve-outs from the Always rules.\n\n### Edge cases\n\n- Weird inputs, conflicting signals, things you'd only know from production.\n\n## Definition of done\n\n(write the success criteria here)\n"@
}

/// What is known of a skill that starts in a repository of one's own.
pub open spec fn github_meta(
    id: Seq<char>,
    name: Seq<char>,
    slug: Seq<char>,
    author: Seq<char>,
    description: Seq<char>,
) -> Seq<char> {
    "id: "@ + id + "\nname: "@ + name + "\nslug: "@ + slug + "\nauthor: "@ + author
        + "\nversion: 0.1.0\ndescription: "@ + description + "\n"@
}

/// The files that a skill starts with in a repository of one's own.
pub open spec fn github_files(
    id: Seq<char>,
    slug: Seq<char>,
    name: Seq<char>,
    description: Seq<char>,
    author: Seq<char>,
) -> Seq<NewFileView> {
    seq![
        NewFileView { path: "SKILL.md"@, content: github_skill(name, description) },
        NewFileView {
            path: "meta.knack.yaml"@,
            content: github_meta(id, name, slug, author, description),
        },
        NewFileView {
            path: "examples/README.md"@,
            content: "Drop input/output pairs here as `01-input.md` / `01-output.md`, etc.\n"@,
        },
    ]
}

/// The description of a skill: the one that is given, else a reminder to write one.
pub open spec fn github_description(description: Option<Seq<char>>, slug: Seq<char>) -> Seq<char> {
    match description {
        Some(d) => d,
        None => "(describe what '"@ + slug + "' does in one sentence)"@,
    }
}

/// The files that a skill with an id starts with.
pub fn github_files_for(id: &str, args: &CreateArgs, owner: &str) -> (r: Vec<NewFile>)
    ensures
        new_file_views(r@) == github_files(
            id@,
            args.slug@,
            args.name@,
            github_description(opt_view(args.description), args.slug@),
            owner@,
        ),
{
    let name = args.name.as_str();
    let slug = args.slug.as_str();
    let description = match &args.description {
        Some(d) => d.clone(),
        None => concat3("(describe what '", slug, "' does in one sentence)"),
    };
    let desc = description.as_str();
    let mut skill_md = concat7(
        "---\nname: ",
        name,
        "\ndescription: ",
        desc,
        "\n---\n\n# ",
        name,
        "\n\n## How to do it\n\n(write the step-by-step procedure here — concrete, no jargon)\n\n## Intuition\n\nThe judgment calls, edge cases, and exceptions that make this skill non-obvious.\n\n### Always\n\n- Rules that hold on every run.\n\n### Except when\n\n- Carve-outs from the Always rules.\n\n### Edge cases\n\n- Weird inputs, conflicting signals, things you'd only know from production.\n\n## Definition of done\n\n(write the success criteria here)\n",
    );
    let mut meta = concat7("id: ", id, "\nname: ", name, "\nslug: ", slug, "\nauthor: ");
    meta.append(owner);
    meta.append("\nversion: 0.1.0\ndescription: ");
    meta.append(desc);
    meta.append("\n");
    let mut files: Vec<NewFile> = Vec::new();
    files.push(NewFile { path: "SKILL.md".to_owned(), content: skill_md });
    files.push(NewFile { path: "meta.knack.yaml".to_owned(), content: meta });
    files.push(
        NewFile {
            path: "examples/README.md".to_owned(),
            content: "Drop input/output pairs here as `01-input.md` / `01-output.md`, etc.\n".to_owned(),
        },
    );
    assert(new_file_views(files@) =~= github_files(
        id@,
        args.slug@,
        args.name@,
        github_description(opt_view(args.description), args.slug@),
        owner@,
    ));
    files
}

/// Some id goes with the files.
pub open spec fn with_some_id(files: Seq<NewFileView>, args: CreateArgs, owner: Seq<char>) -> bool {
    exists|id: Seq<char>|
        is_id(id) && files == #[trigger] github_files(
            id,
            args.slug@,
            args.name@,
            github_description(opt_view(args.description), args.slug@),
            owner,
        )
}

/// The files to write for a new skill in a repository of one's own, with a fresh id.
/// A skill that is there already is left alone.
pub fn github_create(args: &CreateArgs, owner: &str, skill_dir: &str, exists: bool) -> (r: Result<
    Vec<NewFile>,
    CliError,
>)
    ensures
        match r {
            Ok(files) => !exists && with_some_id(new_file_views(files@), *args, owner@),
            Err(e) => exists && e@ == (ErrorView::User {
                code: "SKILL_EXISTS"@,
                message: "skill folder already exists at "@ + skill_dir@
                    + ". delete it or pick a different slug."@,
                hint: None,
            }),
        },
{
    if exists {
        return Err(
            user_error(
                "SKILL_EXISTS",
                concat3(
                    "skill folder already exists at ",
                    skill_dir,
                    ". delete it or pick a different slug.",
                ),
            ),
        );
    }
    let id = fresh_id();
    Ok(github_files_for(id.as_str(), args, owner))
}

/// What `knack create` reports.
pub open spec fn create_report(
    slug: Seq<char>,
    id: Seq<char>,
    scope: Seq<char>,
    name: Seq<char>,
    scaffold: Option<Seq<char>>,
) -> JsonView {
    JsonView::Object(
        seq![
            ("slug"@, JsonView::Text(slug)),
            ("skill_id"@, JsonView::Text(id)),
            ("scope"@, JsonView::Text(scope)),
            ("name"@, JsonView::Text(name)),
            ("scaffold"@, text_or_null(scaffold)),
        ],
    )
}

/// What `knack create` reports.
pub fn create_json(
    slug: &str,
    id: &str,
    scope: &str,
    name: &str,
    scaffold: Option<&str>,
) -> (r: Json)
    ensures
        r.value() == create_report(slug@, id@, scope@, name@, opt_str_view(scaffold)),
{
    let m = with_member(no_members(), "slug", Json::text(slug));
    let m = with_member(m, "skill_id", Json::text(id));
    let m = with_member(m, "scope", Json::text(scope));
    let m = with_member(m, "name", Json::text(name));
    let m = with_member(m, "scaffold", Json::opt_text(scaffold));
    assert(member_views(m@) =~= create_report(
        slug@,
        id@,
        scope@,
        name@,
        opt_str_view(scaffold),
    )->Object_0);
    Json::object(m)
}

// ---------------------------------------------------------------------------
// At the server
// ---------------------------------------------------------------------------

/// What the server is sent for a new skill.
#[derive(Debug)]
pub struct SkillCreate {
    pub slug: String,
    pub name: String,
    pub scope: Option<String>,
    pub owner_team_id: Option<String>,
}

/// A skill as the server made it.
#[derive(Debug)]
pub struct CreatedSkill {
    pub id: String,
    pub slug: String,
    pub scope: String,
    pub name: String,
}

/// What is known while a skill is made. What was not asked for yet is not there.
#[derive(Debug)]
pub struct CreateFacts {
    pub created: Option<Result<CreatedSkill, CliError>>,
    /// The address of whoever makes it.
    pub email: Option<Result<String, CliError>>,
    /// The starter folder holds something.
    pub has_content: bool,
    /// The starter folder was written.
    pub written: Option<Result<(), CliError>>,
}

/// What is done next.
#[derive(Debug)]
pub enum CreateAction {
    Fail(CliError),
    Post(SkillCreate),
    /// Ask who this is.
    AskMe,
    Write(Vec<NewFile>),
    Done,
}

/// What is done next, as a mathematical value.
pub ghost enum CreateActionView {
    Fail(ErrorView),
    Post { slug: Seq<char>, name: Seq<char>, scope: Option<Seq<char>>, team: Option<Seq<char>> },
    AskMe,
    Write(Seq<NewFileView>),
    Done,
}

impl View for CreateAction {
    type V = CreateActionView;

    open spec fn view(&self) -> CreateActionView {
        match *self {
            CreateAction::Fail(e) => CreateActionView::Fail(e@),
            CreateAction::Post(b) => CreateActionView::Post {
                slug: b.slug@,
                name: b.name@,
                scope: opt_view(b.scope),
                team: opt_view(b.owner_team_id),
            },
            CreateAction::AskMe => CreateActionView::AskMe,
            CreateAction::Write(files) => CreateActionView::Write(new_file_views(files@)),
            CreateAction::Done => CreateActionView::Done,
        }
    }
}

/// The description of a skill: the one that is given, else a reminder to write one.
pub open spec fn description_of(description: Option<Seq<char>>, name: Seq<char>) -> Seq<char> {
    match description {
        Some(d) => d,
        None => name + " — describe what it does in one line."@,
    }
}

/// What is done next with the starter folder.
pub open spec fn scaffold_next(
    args: CreateArgs,
    dir: Seq<char>,
    f: CreateFacts,
    s: CreatedSkill,
) -> CreateActionView {
    match f.email {
        None => CreateActionView::AskMe,
        Some(Err(e)) => CreateActionView::Fail(e@),
        Some(Ok(email)) => match f.written {
            Some(Err(e)) => CreateActionView::Fail(e@),
            Some(Ok(_)) => CreateActionView::Done,
            None => if f.has_content {
                CreateActionView::Fail(
                    ErrorView::User {
                        code: "CREATE_SCAFFOLD_DIR_NOT_EMPTY"@,
                        message: "scaffold target "@ + dir + " is not empty"@,
                        hint: Some("pass a fresh path or remove the existing contents first"@),
                    },
                )
            } else {
                CreateActionView::Write(
                    starter_files(
                        s.id@,
                        args.slug@,
                        args.name@,
                        description_of(opt_view(args.description), args.name@),
                        email@,
                    ),
                )
            },
        },
    }
}

/// What is done next while a skill is made: the server makes it, and then its starter
/// folder is written, unless none is wanted.
pub open spec fn create_next(args: CreateArgs, dir: Seq<char>, f: CreateFacts) -> CreateActionView {
    match slug_error(args.slug@) {
        Some(e) => CreateActionView::Fail(e),
        None => match scope_error(args.scope@, args.team_id is Some) {
            Some(e) => CreateActionView::Fail(e),
            None => match f.created {
                None => CreateActionView::Post {
                    slug: args.slug@,
                    name: args.name@,
                    scope: Some(args.scope@),
                    team: opt_view(args.team_id),
                },
                Some(Err(e)) => CreateActionView::Fail(e@),
                Some(Ok(s)) => if args.no_scaffold {
                    CreateActionView::Done
                } else {
                    scaffold_next(args, dir, f, s)
                },
            },
        },
    }
}

fn scaffold(args: &CreateArgs, dir: &str, f: &CreateFacts, s: &CreatedSkill) -> (r: CreateAction)
    ensures
        r@ == scaffold_next(*args, dir@, *f, *s),
{
    match &f.email {
        None => CreateAction::AskMe,
        Some(Err(e)) => CreateAction::Fail(copy_error(e)),
        Some(Ok(email)) => match &f.written {
            Some(Err(e)) => CreateAction::Fail(copy_error(e)),
            Some(Ok(_)) => CreateAction::Done,
            None => {
                let description = description_or_stub(opt_str(&args.description), args.name.as_str());
                match write_scaffold(
                    dir,
                    f.has_content,
                    s.id.as_str(),
                    args.slug.as_str(),
                    args.name.as_str(),
                    description.as_str(),
                    email.as_str(),
                ) {
                    Ok(files) => CreateAction::Write(files),
                    Err(e) => CreateAction::Fail(e),
                }
            },
        },
    }
}

/// What is done next while a skill is made.
pub fn run(args: &CreateArgs, dir: &str, f: &CreateFacts) -> (r: CreateAction)
    ensures
        r@ == create_next(*args, dir@, *f),
{
    match validate_slug(args.slug.as_str()) {
        Ok(_) => {},
        Err(e) => {
            return CreateAction::Fail(e);
        },
    }
    match validate_scope(args.scope.as_str(), opt_str(&args.team_id)) {
        Ok(_) => {},
        Err(e) => {
            return CreateAction::Fail(e);
        },
    }
    match &f.created {
        None => CreateAction::Post(
            SkillCreate {
                slug: args.slug.clone(),
                name: args.name.clone(),
                scope: Some(args.scope.clone()),
                owner_team_id: opt_owned(opt_str(&args.team_id)),
            },
        ),
        Some(Err(e)) => CreateAction::Fail(copy_error(e)),
        Some(Ok(s)) => {
            if args.no_scaffold {
                CreateAction::Done
            } else {
                scaffold(args, dir, f, s)
            }
        },
    }
}

/// The server is never asked to make a skill under what is no slug.
pub proof fn law_only_slugs_are_sent(args: CreateArgs, dir: Seq<char>, f: CreateFacts)
    ensures
        create_next(args, dir, f) is Post ==> is_slug(args.slug@),
{
    law_slugs_are_accepted(args.slug@);
}

/// What people are told of a skill that was made.
pub open spec fn created_text(
    slug: Seq<char>,
    id: Seq<char>,
    scaffold: Option<Seq<char>>,
) -> Seq<Seq<char>> {
    let first = seq!["✓ created "@ + slug + " (id: "@ + id + ")"@];
    match scaffold {
        Some(p) => first + seq![
            "  scaffolded → "@ + p,
            "next: edit SKILL.md (the body of your skill), then `knack validate "@ + p
                + "` + `knack publish "@ + slug + " --from "@ + p + "`"@,
        ],
        None => first + seq![
            "next: write SKILL.md (rules go in its ## Intuition section), then `knack publish "@ + slug
                + " --from <dir>`. Tip: pass --scaffold ./<dir> next time to skip the boilerplate."@,
        ],
    }
}

/// What people are told of a skill that was made.
pub fn created_lines(slug: &str, id: &str, scaffold: Option<&str>) -> (r: Vec<String>)
    ensures
        views(r@) == created_text(slug@, id@, opt_str_view(scaffold)),
{
    let mut out: Vec<String> = Vec::new();
    out.push(concat5("✓ created ", slug, " (id: ", id, ")"));
    match scaffold {
        Some(p) => {
            out.push(crate::errors::prefixed("  scaffolded → ", p));
            let mut line = concat5(
                "next: edit SKILL.md (the body of your skill), then `knack validate ",
                p,
                "` + `knack publish ",
                slug,
                " --from ",
            );
            line.append(p);
            line.append("`");
            out.push(line);
        },
        None => {
            out.push(
                concat3(
                    "next: write SKILL.md (rules go in its ## Intuition section), then `knack publish ",
                    slug,
                    " --from <dir>`. Tip: pass --scaffold ./<dir> next time to skip the boilerplate.",
                ),
            );
        },
    }
    assert(views(out@) =~= created_text(slug@, id@, opt_str_view(scaffold)));
    out
}

/// What is reported of a skill that was made in a repository.
pub open spec fn github_created_report(slug: Seq<char>, dir: Seq<char>) -> JsonView {
    JsonView::Object(
        seq![
            ("slug"@, JsonView::Text(slug)),
            ("path"@, JsonView::Text(dir)),
            ("backend"@, JsonView::Text("github"@)),
        ],
    )
}

/// What people are told of a skill that was made in a repository.
pub open spec fn github_created_text(slug: Seq<char>, dir: Seq<char>) -> Seq<Seq<char>> {
    seq![
        "✓ created "@ + shown_path(dir),
        ""@,
        "next: edit "@ + shown_path(dir) + "/SKILL.md"@,
        "      then run `knack publish "@ + slug + "`"@,
    ]
}

/// What is told of a skill that was made in a repository.
pub fn github_created(slug: &str, dir: &str) -> (r: Told)
    ensures
        r.report.value() == github_created_report(slug@, dir@),
        views(r.lines@) == github_created_text(slug@, dir@),
{
    let m = with_member(no_members(), "slug", Json::text(slug));
    let m = with_member(m, "path", Json::text(dir));
    let m = with_member(m, "backend", Json::text("github"));
    assert(member_views(m@) =~= github_created_report(slug@, dir@)->Object_0);
    let shown = display_path(dir);
    let mut lines: Vec<String> = Vec::new();
    lines.push(crate::errors::prefixed("✓ created ", shown.as_str()));
    lines.push("".to_owned());
    lines.push(concat3("next: edit ", shown.as_str(), "/SKILL.md"));
    lines.push(concat3("      then run `knack publish ", slug, "`"));
    assert(views(lines@) =~= github_created_text(slug@, dir@));
    Told { report: Json::object(m), lines }
}

} // verus!
