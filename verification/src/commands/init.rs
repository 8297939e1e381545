//! `knack init`: the workspace, and where skills are kept.

use vstd::prelude::*;

use crate::commands::auth::GhAnswer;
use crate::config::{below, join_path, BackendMode, BackendView, DEFAULT_API_BASE};
use crate::errors::{user_error, user_error_hint, CliError, ErrorView};
use crate::github::bootstrap::{BootstrapOpts, Visibility};
use crate::json::{member_views, no_members, text_or_null, with_member, Json, JsonView};
use crate::output::{display_path, shown_path, OutputMode};
use crate::text::{
    chars_of, concat3, concat4, concat5, cut_first, opt_str_view, opt_view, push_line, same, split_once,
    trim, trimmed, views,
};

verus! {

/// The arguments of `knack init`.
#[derive(Debug, Clone)]
pub struct InitArgs {
    pub at: Option<String>,
    pub self_host: bool,
    pub cloud: bool,
    pub github_repo: Option<String>,
    pub visibility: VisibilityFlag,
    pub local_path: Option<String>,
    pub yes: bool,
    pub skip_bootstrap: bool,
}

/// Who can see the repository that is made.
#[derive(Debug, Clone, Copy, PartialEq, Eq, Structural)]
pub enum VisibilityFlag {
    Public,
    Private,
}

/// What a flag stands for.
pub open spec fn visibility_of(v: VisibilityFlag) -> Visibility {
    match v {
        VisibilityFlag::Public => Visibility::Public,
        VisibilityFlag::Private => Visibility::Private,
    }
}

impl vstd::std_specs::convert::FromSpecImpl<VisibilityFlag> for Visibility {
    open spec fn obeys_from_spec() -> bool {
        true
    }

    open spec fn from_spec(v: VisibilityFlag) -> Visibility {
        visibility_of(v)
    }
}

impl From<VisibilityFlag> for Visibility {
    fn from(v: VisibilityFlag) -> (r: Visibility) {
        match v {
            VisibilityFlag::Public => Visibility::Public,
            VisibilityFlag::Private => Visibility::Private,
        }
    }
}

// ---------------------------------------------------------------------------
// The directory
// ---------------------------------------------------------------------------

/// Refuses a directory that is none: one that is missing is made, and only where
/// that fails is it an error.
pub fn check_target(path: &str, there: bool, is_dir: bool, made: Result<(), String>) -> (r: Result<
    (),
    CliError,
>)
    ensures
        if !there {
            match made {
                Ok(_) => r is Ok,
                Err(e) => r is Err && r->Err_0@ == (ErrorView::User {
                    code: "INIT_INVALID_TARGET"@,
                    message: "could not create "@ + path@ + ": "@ + e@,
                    hint: None,
                }),
            }
        } else if !is_dir {
            r is Err && r->Err_0@ == (ErrorView::User {
                code: "INIT_INVALID_TARGET"@,
                message: path@ + " exists but is not a directory"@,
                hint: Some("delete the file or pass --at <another-path>"@),
            })
        } else {
            r is Ok
        },
{
    if !there {
        match made {
            Ok(_) => Ok(()),
            Err(e) => Err(
                user_error(
                    "INIT_INVALID_TARGET",
                    crate::text::concat4("could not create ", path, ": ", e.as_str()),
                ),
            ),
        }
    } else if !is_dir {
        Err(
            user_error_hint(
                "INIT_INVALID_TARGET",
                crate::errors::prefixed(path, " exists but is not a directory"),
                "delete the file or pass --at <another-path>",
            ),
        )
    } else {
        Ok(())
    }
}

// ---------------------------------------------------------------------------
// The backend
// ---------------------------------------------------------------------------

/// How the backend is settled.
#[derive(Debug, Clone, Copy, PartialEq, Eq, Structural)]
pub enum BackendChoice {
    /// A repository of one's own.
    SelfHost,
    Cloud,
    /// Ask.
    Prompt,
    /// It stays what it is.
    Keep,
}

/// How the backend is settled: as a flag says; else it is asked for, the first time
/// and where there is somebody to ask; else it stays what it is.
pub fn choose_backend(
    args: &InitArgs,
    configured: bool,
    mode: OutputMode,
    terminal: bool,
) -> (r: Result<BackendChoice, CliError>)
    ensures
        if args.self_host {
            r == Ok::<BackendChoice, CliError>(BackendChoice::SelfHost)
        } else if args.cloud || args.yes {
            r == Ok::<BackendChoice, CliError>(BackendChoice::Cloud)
        } else if configured || mode.quiet || mode.json {
            r == Ok::<BackendChoice, CliError>(BackendChoice::Keep)
        } else if terminal {
            r == Ok::<BackendChoice, CliError>(BackendChoice::Prompt)
        } else {
            r is Err && r->Err_0@ == (ErrorView::User {
                code: "NEEDS_FLAGS"@,
                message: "non-interactive shell; cannot prompt for backend choice"@,
                hint: Some(
                    "pass --self-host (with --github-repo OWNER/NAME) or --cloud to pick a backend non-interactively"@,
                ),
            })
        },
{
    if args.self_host {
        Ok(BackendChoice::SelfHost)
    } else if args.cloud || args.yes {
        Ok(BackendChoice::Cloud)
    } else if configured || mode.quiet || mode.json {
        Ok(BackendChoice::Keep)
    } else if terminal {
        Ok(BackendChoice::Prompt)
    } else {
        Err(
            user_error_hint(
                "NEEDS_FLAGS",
                "non-interactive shell; cannot prompt for backend choice".to_owned(),
                "pass --self-host (with --github-repo OWNER/NAME) or --cloud to pick a backend non-interactively",
            ),
        )
    }
}

/// What an answer to the question for the backend means.
pub open spec fn answer_means(line: Seq<char>) -> Option<BackendChoice> {
    let c = trimmed(line);
    if c == "1"@ || c == "github"@ || c == "gh"@ {
        Some(BackendChoice::SelfHost)
    } else if c == "2"@ || c == "cloud"@ || c.len() == 0 {
        Some(BackendChoice::Cloud)
    } else {
        None
    }
}

/// What an answer to the question for the backend means. An empty one is the cloud.
pub fn prompt_for_backend(line: &str) -> (r: Result<BackendChoice, CliError>)
    ensures
        match answer_means(line@) {
            Some(c) => r == Ok::<BackendChoice, CliError>(c),
            None => r is Err && r->Err_0@ == (ErrorView::User {
                code: "INVALID_CHOICE"@,
                message: "expected 1 or 2, got '"@ + trimmed(line@) + "'"@,
                hint: Some("re-run `knack init` and pick 1 (github) or 2 (cloud)"@),
            }),
        },
{
    let c = trim(line);
    if same(c, "1") || same(c, "github") || same(c, "gh") {
        Ok(BackendChoice::SelfHost)
    } else if same(c, "2") || same(c, "cloud") || c.is_empty() {
        Ok(BackendChoice::Cloud)
    } else {
        Err(
            user_error_hint(
                "INVALID_CHOICE",
                concat3("expected 1 or 2, got '", c, "'"),
                "re-run `knack init` and pick 1 (github) or 2 (cloud)",
            ),
        )
    }
}

/// The cloud, at its usual address.
pub fn cloud_backend() -> (r: BackendMode)
    ensures
        r@ == (BackendView::Cloud { api_base: DEFAULT_API_BASE@ }),
{
    BackendMode::default()
}

/// What a backend is called.
pub open spec fn backend_name(b: BackendView) -> Seq<char> {
    match b {
        BackendView::Cloud { api_base } => "cloud ("@ + api_base + ")"@,
        BackendView::Github { owner, repo, local_path: _ } => "github ("@ + owner + "/"@ + repo + ")"@,
    }
}

/// What a backend is called.
pub fn backend_label(b: &BackendMode) -> (r: String)
    ensures
        r@ == backend_name(b@),
{
    match b {
        BackendMode::Cloud { api_base } => concat3("cloud (", api_base.as_str(), ")"),
        BackendMode::Github { owner, repo, local_path: _ } => concat5(
            "github (",
            owner.as_str(),
            "/",
            repo.as_str(),
            ")",
        ),
    }
}

// ---------------------------------------------------------------------------
// A repository of one's own
// ---------------------------------------------------------------------------

/// The error for a repository that is not named as it should be.
pub open spec fn invalid_repo(spec: Seq<char>) -> ErrorView {
    ErrorView::User {
        code: "INVALID_REPO"@,
        message: "--github-repo must be '<owner>/<repo>', got '"@ + spec + "'"@,
        hint: None,
    }
}

/// The owner and the repository that a text names: both are there, with a slash
/// between them.
pub open spec fn owner_and_repo(spec: Seq<char>) -> Option<(Seq<char>, Seq<char>)> {
    match cut_first(spec, "/"@) {
        Some((owner, repo)) => if owner.len() == 0 || repo.len() == 0 {
            None
        } else {
            Some((owner, repo))
        },
        None => None,
    }
}

/// The owner and the repository that a text names.
pub fn parse_owner_repo(spec: &str) -> (r: Result<(String, String), CliError>)
    ensures
        match owner_and_repo(spec@) {
            Some((owner, repo)) => r is Ok && r->Ok_0.0@ == owner && r->Ok_0.1@ == repo,
            None => r is Err && r->Err_0@ == invalid_repo(spec@),
        },
{
    match split_once(spec, "/") {
        Some((owner, repo)) => {
            if !owner.is_empty() && !repo.is_empty() {
                return Ok((owner.to_owned(), repo.to_owned()));
            }
        },
        None => {},
    }
    Err(
        user_error(
            "INVALID_REPO",
            concat3("--github-repo must be '<owner>/<repo>', got '", spec, "'"),
        ),
    )
}

/// A character that may stand in the name of a repository.
pub open spec fn repo_char(c: char) -> bool {
    ('a' <= c <= 'z') || ('A' <= c <= 'Z') || ('0' <= c <= '9') || c == '-' || c == '_' || c == '.'
}

/// Every character may stand in the name of a repository.
pub open spec fn repo_chars(s: Seq<char>) -> bool {
    forall|i: int| 0 <= i < s.len() ==> repo_char(#[trigger] s[i])
}

/// The name of a repository that was answered.
pub fn prompt_for_repo_name(line: &str) -> (r: Result<String, CliError>)
    ensures
        ({
            let name = trimmed(line@);
            if name.len() == 0 {
                r is Err && r->Err_0@ == (ErrorView::User {
                    code: "EMPTY_REPO_NAME"@,
                    message: "repo name cannot be empty"@,
                    hint: Some("try `knack-skills` or any name you like"@),
                })
            } else if !repo_chars(name) {
                r is Err && r->Err_0@ == (ErrorView::User {
                    code: "INVALID_REPO_NAME"@,
                    message: "repo name '"@ + name
                        + "' contains invalid characters (use letters, digits, '-', '_', '.')"@,
                    hint: None,
                })
            } else {
                r is Ok && r->Ok_0@ == name
            }
        }),
{
    let name = trim(line);
    if name.is_empty() {
        return Err(
            user_error_hint(
                "EMPTY_REPO_NAME",
                "repo name cannot be empty".to_owned(),
                "try `knack-skills` or any name you like",
            ),
        );
    }
    let v = chars_of(name);
    let mut i: usize = 0;
    while i < v.len()
        invariant
            i <= v.len(),
            v@ == name@,
            name@ == trimmed(line@),
            name@.len() > 0,
            forall|j: int| 0 <= j < i ==> repo_char(#[trigger] name@[j]),
        decreases v.len() - i,
    {
        let c = v[i];
        let ok = ('a' <= c && c <= 'z') || ('A' <= c && c <= 'Z') || ('0' <= c && c <= '9') || c == '-'
            || c == '_' || c == '.';
        if !ok {
            assert(!repo_char(name@[i as int]));
            return Err(
                user_error(
                    "INVALID_REPO_NAME",
                    concat3(
                        "repo name '",
                        name,
                        "' contains invalid characters (use letters, digits, '-', '_', '.')",
                    ),
                ),
            );
        }
        i += 1;
    }
    Ok(name.to_owned())
}

/// The error where nobody is known on GitHub.
pub open spec fn gh_missing() -> ErrorView {
    ErrorView::User {
        code: "GH_NOT_AUTHENTICATED"@,
        message: "could not resolve your GitHub user. install gh and run `gh auth login`, or set $GITHUB_USER"@,
        hint: Some("https://cli.github.com"@),
    }
}

/// The error where nobody is known on GitHub.
pub fn gh_missing_error() -> (r: CliError)
    ensures
        r@ == gh_missing(),
{
    user_error_hint(
        "GH_NOT_AUTHENTICATED",
        "could not resolve your GitHub user. install gh and run `gh auth login`, or set $GITHUB_USER".to_owned(),
        "https://cli.github.com",
    )
}

/// Who is signed in: whom `gh` names, else whom `GITHUB_USER` does.
pub open spec fn gh_login(answer: GhAnswer, env: Option<Seq<char>>) -> Option<Seq<char>> {
    match answer {
        GhAnswer::Printed(t) => if trimmed(t@).len() > 0 {
            Some(trimmed(t@))
        } else {
            nonempty(env)
        },
        _ => nonempty(env),
    }
}

pub open spec fn nonempty(o: Option<Seq<char>>) -> Option<Seq<char>> {
    match o {
        Some(s) => if s.len() > 0 {
            Some(s)
        } else {
            None
        },
        None => None,
    }
}

/// Who is signed in, or nobody.
pub fn resolve_gh_user_opt(answer: &GhAnswer, env: Option<&str>) -> (r: Option<String>)
    ensures
        opt_view(r) == gh_login(*answer, opt_str_view(env)),
{
    match answer {
        GhAnswer::Printed(t) => {
            let user = trim(t.as_str());
            if !user.is_empty() {
                return Some(user.to_owned());
            }
        },
        _ => {},
    }
    match env {
        Some(s) => if s.is_empty() {
            None
        } else {
            Some(s.to_owned())
        },
        None => None,
    }
}

/// Who is signed in. It is an error if nobody is.
pub fn resolve_gh_user(answer: &GhAnswer, env: Option<&str>) -> (r: Result<String, CliError>)
    ensures
        match gh_login(*answer, opt_str_view(env)) {
            Some(u) => r is Ok && r->Ok_0@ == u,
            None => r is Err && r->Err_0@ == gh_missing(),
        },
{
    match resolve_gh_user_opt(answer, env) {
        Some(u) => Ok(u),
        None => Err(gh_missing_error()),
    }
}

/// The repository that is asked for: the one that is named, or one that is still to
/// be asked for, where there is somebody to ask.
pub fn repo_wanted(
    args: &InitArgs,
    terminal: bool,
) -> (r: Result<Option<(String, String)>, CliError>)
    ensures
        match opt_view(args.github_repo) {
            Some(spec) => match owner_and_repo(spec) {
                Some((owner, repo)) => r is Ok && (r->Ok_0 matches Some(x) && x.0@ == owner && x.1@
                    == repo),
                None => r is Err && r->Err_0@ == invalid_repo(spec),
            },
            None => if terminal {
                r is Ok && r->Ok_0 is None
            } else {
                r is Err && r->Err_0@ == (ErrorView::User {
                    code: "NEEDS_REPO_FLAG"@,
                    message: "non-interactive shell; cannot prompt for repo name"@,
                    hint: Some(
                        "pass --github-repo OWNER/REPO (e.g. --github-repo jordan-gibbs/knack-skills)"@,
                    ),
                })
            },
        },
{
    match &args.github_repo {
        Some(spec) => match parse_owner_repo(spec.as_str()) {
            Ok(x) => Ok(Some(x)),
            Err(e) => Err(e),
        },
        None => if terminal {
            Ok(None)
        } else {
            Err(
                user_error_hint(
                    "NEEDS_REPO_FLAG",
                    "non-interactive shell; cannot prompt for repo name".to_owned(),
                    "pass --github-repo OWNER/REPO (e.g. --github-repo jordan-gibbs/knack-skills)",
                ),
            )
        },
    }
}

/// Where the repository is checked out: where it is asked for, else in the home
/// directory, else here.
pub open spec fn checkout_path(
    given: Option<Seq<char>>,
    home: Option<Seq<char>>,
    repo: Seq<char>,
) -> Seq<char> {
    if given is Some {
        given->0
    } else if home is Some {
        below(home->0, repo)
    } else {
        below("."@, repo)
    }
}

/// The backend, and what is set up for it.
pub fn configure_self_host(
    args: &InitArgs,
    gh_user: &str,
    owner: &str,
    repo: &str,
    home: Option<&str>,
) -> (r: (BackendMode, BootstrapOpts))
    ensures
        ({
            let path = checkout_path(opt_view(args.local_path), opt_str_view(home), repo@);
            &&& r.0@ == (BackendView::Github { owner: owner@, repo: repo@, local_path: path })
            &&& r.1.owner@ == owner@
            &&& r.1.repo@ == repo@
            &&& r.1.visibility == visibility_of(args.visibility)
            &&& r.1.local_path@ == path
            &&& r.1.author_name@ == gh_user@
            &&& r.1.author_email@ == gh_user@ + "@users.noreply.github.com"@
        }),
{
    let path = match (&args.local_path, home) {
        (Some(p), _) => p.clone(),
        (None, Some(h)) => join_path(h, repo),
        (None, None) => join_path(".", repo),
    };
    let opts = BootstrapOpts {
        owner: owner.to_owned(),
        repo: repo.to_owned(),
        visibility: Visibility::from(args.visibility),
        local_path: path.clone(),
        author_name: gh_user.to_owned(),
        author_email: crate::errors::prefixed(gh_user, "@users.noreply.github.com"),
    };
    (
        BackendMode::Github { owner: owner.to_owned(), repo: repo.to_owned(), local_path: path },
        opts,
    )
}

/// The error of a repository that could not be set up.
pub fn bootstrap_failed(e: &str) -> (r: CliError)
    ensures
        r@ == (ErrorView::User {
            code: "BOOTSTRAP_FAILED"@,
            message: "self-host bootstrap failed: "@ + e@,
            hint: Some(
                "verify `gh auth status` shows the `repo` scope, and that the repo name isn't already taken"@,
            ),
        }),
{
    user_error_hint(
        "BOOTSTRAP_FAILED",
        crate::errors::prefixed("self-host bootstrap failed: ", e),
        "verify `gh auth status` shows the `repo` scope, and that the repo name isn't already taken",
    )
}

/// What `knack init` reports.
pub open spec fn init_report(
    workspace: Seq<char>,
    existed: bool,
    backend: Option<Seq<char>>,
) -> JsonView {
    JsonView::Object(
        seq![
            ("workspace"@, JsonView::Text(workspace)),
            ("skills_dir"@, JsonView::Text(below(workspace, "skills"@))),
            ("drafts_dir"@, JsonView::Text(below(workspace, "drafts"@))),
            ("already_existed"@, JsonView::Bool(existed)),
            ("backend"@, text_or_null(backend)),
        ],
    )
}

/// What `knack init` reports.
pub fn init_json(workspace: &str, already_existed: bool, backend: Option<&BackendMode>) -> (r: Json)
    ensures
        r.value() == init_report(
            workspace@,
            already_existed,
            match backend {
                Some(b) => Some(backend_name(b@)),
                None => None,
            },
        ),
{
    let skills = join_path(workspace, "skills");
    let drafts = join_path(workspace, "drafts");
    let label = match backend {
        Some(b) => Json::Text(backend_label(b)),
        None => Json::Null,
    };
    let m = with_member(no_members(), "workspace", Json::text(workspace));
    let m = with_member(m, "skills_dir", Json::Text(skills));
    let m = with_member(m, "drafts_dir", Json::Text(drafts));
    let m = with_member(m, "already_existed", Json::Bool(already_existed));
    let m = with_member(m, "backend", label);
    assert(member_views(m@) =~= init_report(
        workspace@,
        already_existed,
        match backend {
            Some(b) => Some(backend_name(b@)),
            None => None,
        },
    )->Object_0);
    Json::object(m)
}

/// Whether a workspace was there before: it is one, and its files are not empty.
pub fn already_existed(is_workspace: bool, readme: u64, gitignore: u64) -> (r: bool)
    ensures
        r == (is_workspace && readme > 0 && gitignore > 0),
{
    is_workspace && readme > 0 && gitignore > 0
}

/// What people are told of a workspace.
pub open spec fn init_text(
    workspace: Seq<char>,
    existed: bool,
    backend: Option<BackendView>,
) -> Seq<Seq<char>> {
    let first = seq![
        if existed {
            "✓ workspace ready at "@ + workspace
        } else {
            "✓ initialized "@ + workspace + " (skills/, drafts/)"@
        },
    ];
    match backend {
        Some(b) => {
            let second = first.push("✓ backend: "@ + backend_name(b));
            if b is Cloud {
                second.push(""@).push("next: run `knack auth login` to sign into Knack Cloud."@)
            } else {
                second
            }
        },
        None => first,
    }
}

/// What people are told of a workspace.
pub fn init_lines(workspace: &str, existed: bool, backend: Option<&BackendMode>) -> (r: Vec<String>)
    ensures
        views(r@) == init_text(
            workspace@,
            existed,
            match backend {
                Some(b) => Some(b@),
                None => None,
            },
        ),
{
    let mut out: Vec<String> = Vec::new();
    if existed {
        push_line(&mut out, crate::errors::prefixed("✓ workspace ready at ", workspace));
        assert(views(out@) =~= seq!["✓ workspace ready at "@ + workspace@]);
    } else {
        push_line(&mut out, concat3("✓ initialized ", workspace, " (skills/, drafts/)"));
        assert(views(out@) =~= seq!["✓ initialized "@ + workspace@ + " (skills/, drafts/)"@]);
    }
    match backend {
        Some(b) => {
            let label = backend_label(b);
            push_line(&mut out, crate::errors::prefixed("✓ backend: ", label.as_str()));
            match b {
                BackendMode::Cloud { .. } => {
                    push_line(&mut out, "".to_owned());
                    push_line(
                        &mut out,
                        "next: run `knack auth login` to sign into Knack Cloud.".to_owned(),
                    );
                },
                BackendMode::Github { .. } => {},
            }
        },
        None => {},
    }
    out
}

/// What people are asked who have no backend yet. The last line waits for an answer.
pub fn backend_question() -> (r: Vec<String>)
    ensures
        views(r@) == seq![
            ""@,
            "welcome to knack."@,
            ""@,
            "where do you want your skills to live?"@,
            ""@,
            "  1. github (self-host, free, lives in your own repo)"@,
            "  2. knack cloud (zero setup, free tier, public marketplace)"@,
            ""@,
            "pick one [1/2]: "@,
        ],
{
    let mut out: Vec<String> = Vec::new();
    out.push("".to_owned());
    out.push("welcome to knack.".to_owned());
    out.push("".to_owned());
    out.push("where do you want your skills to live?".to_owned());
    out.push("".to_owned());
    out.push("  1. github (self-host, free, lives in your own repo)".to_owned());
    out.push("  2. knack cloud (zero setup, free tier, public marketplace)".to_owned());
    out.push("".to_owned());
    out.push("pick one [1/2]: ".to_owned());
    assert(views(out@) =~= seq![
        ""@,
        "welcome to knack."@,
        ""@,
        "where do you want your skills to live?"@,
        ""@,
        "  1. github (self-host, free, lives in your own repo)"@,
        "  2. knack cloud (zero setup, free tier, public marketplace)"@,
        ""@,
        "pick one [1/2]: "@,
    ]);
    out
}

/// What people are asked who have no repository yet. The last line waits for an answer.
pub fn repo_question() -> (r: Vec<String>)
    ensures
        views(r@) == seq![
            ""@,
            "what should we call your skills repo?"@,
            "  (this becomes github.com/<your-handle>/<name>)"@,
            "repo name: "@,
        ],
{
    let mut out: Vec<String> = Vec::new();
    out.push("".to_owned());
    out.push("what should we call your skills repo?".to_owned());
    out.push("  (this becomes github.com/<your-handle>/<name>)".to_owned());
    out.push("repo name: ".to_owned());
    assert(views(out@) =~= seq![
        ""@,
        "what should we call your skills repo?"@,
        "  (this becomes github.com/<your-handle>/<name>)"@,
        "repo name: "@,
    ]);
    out
}

/// What people are told before a repository is set up.
pub fn bootstrap_lines(owner: &str, repo: &str, local_path: &str) -> (r: Vec<String>)
    ensures
        views(r@) == seq![
            ""@,
            "→ bootstrapping github.com/"@ + owner@ + "/"@ + repo@,
            "  local clone: "@ + shown_path(local_path@),
        ],
{
    let shown = display_path(local_path);
    let mut out: Vec<String> = Vec::new();
    out.push("".to_owned());
    out.push(concat4("→ bootstrapping github.com/", owner, "/", repo));
    out.push(crate::errors::prefixed("  local clone: ", shown.as_str()));
    assert(views(out@) =~= seq![
        ""@,
        "→ bootstrapping github.com/"@ + owner@ + "/"@ + repo@,
        "  local clone: "@ + shown_path(local_path@),
    ]);
    out
}

/// What people are told once a repository is set up.
pub fn bootstrapped_lines(created: bool, url: &str, local_path: &str) -> (r: Vec<String>)
    ensures
        views(r@) == seq![
            (if created {
                "✓ created "@
            } else {
                "✓ using existing "@
            }) + url@,
            "✓ scaffolded "@ + shown_path(local_path@),
        ],
{
    let shown = display_path(local_path);
    let mut out: Vec<String> = Vec::new();
    out.push(
        if created {
            crate::errors::prefixed("✓ created ", url)
        } else {
            crate::errors::prefixed("✓ using existing ", url)
        },
    );
    out.push(crate::errors::prefixed("✓ scaffolded ", shown.as_str()));
    assert(views(out@) =~= seq![
        (if created {
            "✓ created "@
        } else {
            "✓ using existing "@
        }) + url@,
        "✓ scaffolded "@ + shown_path(local_path@),
    ]);
    out
}

} // verus!
