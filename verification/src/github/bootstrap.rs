//! Setting up a repository of one's own for skills.

use vstd::prelude::*;

use crate::github::git::{owner_repo, parse_github_owner_repo};
use crate::text::{concat3, concat4, concat5, opt_str_view, same, trim, trimmed, views};

verus! {

/// Who can see a repository.
#[derive(Debug, Clone, Copy, PartialEq, Eq, Structural)]
pub enum Visibility {
    Public,
    Private,
}

impl Visibility {
    /// The flag of `gh`.
    pub fn gh_flag(self) -> (r: &'static str)
        ensures
            r@ == (match self {
                Visibility::Public => "--public"@,
                Visibility::Private => "--private"@,
            }),
    {
        match self {
            Visibility::Public => "--public",
            Visibility::Private => "--private",
        }
    }
}

/// What is set up.
#[derive(Debug, Clone)]
pub struct BootstrapOpts {
    pub owner: String,
    pub repo: String,
    pub visibility: Visibility,
    pub local_path: String,
    pub author_name: String,
    pub author_email: String,
}

/// What was set up.
#[derive(Debug)]
pub struct BootstrapResult {
    pub created_repo: bool,
    pub local_path: String,
    pub https_url: String,
}

/// The address that git pushes to. It holds no credential.
pub fn remote_url(owner: &str, repo: &str) -> (r: String)
    ensures
        r@ == "https://github.com/"@ + owner@ + "/"@ + repo@ + ".git"@,
{
    concat5("https://github.com/", owner, "/", repo, ".git")
}

/// The address that a remote of git has names the repository.
pub open spec fn names_repo(url: Option<Seq<char>>, owner: Seq<char>, repo: Seq<char>) -> bool {
    url matches Some(u) && owner_repo(trimmed(u)) == Some(owner + "/"@ + repo)
}

/// Whether a local directory is a clone of the repository, by the address that git has
/// for its remote, if it has one.
pub fn is_clone_of(url: Option<&str>, owner: &str, repo: &str) -> (r: bool)
    ensures
        r == names_repo(opt_str_view(url), owner@, repo@),
{
    match url {
        Some(u) => match parse_github_owner_repo(trim(u)) {
            Some(found) => {
                let wanted = concat3(owner, "/", repo);
                same(found.as_str(), wanted.as_str())
            },
            None => false,
        },
        None => false,
    }
}

/// What was set up, once every step is done: the repository is made where there was
/// none. Over a clone of the repository it can be done again, and what is missing is
/// added. A local directory that holds something else is left alone where the
/// repository exists.
pub fn bootstrap_repo(
    opts: &BootstrapOpts,
    exists: bool,
    has_content: bool,
    is_clone: bool,
) -> (r: Result<BootstrapResult, String>)
    ensures
        match r {
            Ok(b) => !(exists && has_content && !is_clone) && b.created_repo == !exists
                && b.local_path@ == opts.local_path@ && b.https_url@ == "https://github.com/"@
                + opts.owner@ + "/"@ + opts.repo@,
            Err(e) => exists && has_content && !is_clone && e@ == opts.owner@ + "/"@ + opts.repo@
                + " already exists on GitHub and "@ + opts.local_path@
                + " is non-empty. point --github-repo at a different name or delete the local path"@,
        },
{
    if exists && has_content && !is_clone {
        let mut e = concat5(
            opts.owner.as_str(),
            "/",
            opts.repo.as_str(),
            " already exists on GitHub and ",
            opts.local_path.as_str(),
        );
        e.append(
            " is non-empty. point --github-repo at a different name or delete the local path",
        );
        return Err(e);
    }
    Ok(
        BootstrapResult {
            created_repo: !exists,
            local_path: opts.local_path.clone(),
            https_url: concat4(
                "https://github.com/",
                opts.owner.as_str(),
                "/",
                opts.repo.as_str(),
            ),
        },
    )
}

/// The arguments of `gh` that make the repository.
pub fn gh_repo_create(owner: &str, repo: &str, vis: Visibility) -> (r: Vec<String>)
    ensures
        views(r@) == seq![
            "repo"@,
            "create"@,
            owner@ + "/"@ + repo@,
            match vis {
                Visibility::Public => "--public"@,
                Visibility::Private => "--private"@,
            },
            "--description"@,
            "My Knack skills."@,
        ],
{
    let mut v: Vec<String> = Vec::new();
    v.push("repo".to_owned());
    v.push("create".to_owned());
    v.push(concat3(owner, "/", repo));
    v.push(vis.gh_flag().to_owned());
    v.push("--description".to_owned());
    v.push("My Knack skills.".to_owned());
    assert(views(v@) =~= seq![
        "repo"@,
        "create"@,
        owner@ + "/"@ + repo@,
        match vis {
            Visibility::Public => "--public"@,
            Visibility::Private => "--private"@,
        },
        "--description"@,
        "My Knack skills."@,
    ]);
    v
}

/// A file to write.
#[derive(Debug)]
pub struct NewFile {
    pub path: String,
    pub content: String,
}

/// A file to write, as a mathematical value.
#[verifier::ext_equal]
pub ghost struct NewFileView {
    pub path: Seq<char>,
    pub content: Seq<char>,
}

impl View for NewFile {
    type V = NewFileView;

    open spec fn view(&self) -> NewFileView {
        NewFileView { path: self.path@, content: self.content@ }
    }
}

pub open spec fn new_file_views(v: Seq<NewFile>) -> Seq<NewFileView> {
    Seq::new(v.len(), |i: int| v[i]@)
}

/// The repository's own configuration.
pub open spec fn workspace_yaml(owner: Seq<char>, repo: Seq<char>) -> Seq<char> {
    "# Knack self-host config. Edited by the Knack CLI.\nowner: "@ + owner + "\nrepo: "@ + repo
        + "\nformat: knack-skills/v1\n"@
}

/// What the repository says of itself.
pub open spec fn readme_text(repo: Seq<char>) -> Seq<char> {
    "# "@ + repo
        + "\n\nThis is a Knack skills repository. It is managed by the [Knack CLI](https://knack.ai).\n\n## Layout\n\n- `skills/<slug>/` — authored skills\n- `runs/<yyyy-mm>/<yyyy-mm-dd>.jsonl` — run telemetry\n- `knack.yaml` — repo metadata\n\n## Add a skill\n\n```\nknack create my-first-skill\nknack publish my-first-skill\n```\n\nVersions are per-skill git tags: `my-first-skill/v0.1.0`.\n"@
}

/// The files that a fresh repository starts with.
pub open spec fn scaffolding(owner: Seq<char>, repo: Seq<char>) -> Seq<NewFileView> {
    seq![
        NewFileView { path: "skills/.gitkeep"@, content: ""@ },
        NewFileView { path: "runs/.gitkeep"@, content: ""@ },
        NewFileView { path: ".gitignore"@, content: ".knack/local-state.json\n.DS_Store\n"@ },
        NewFileView { path: "knack.yaml"@, content: workspace_yaml(owner, repo) },
        NewFileView { path: "README.md"@, content: readme_text(repo) },
    ]
}

/// Those of the first `n` files that are not there yet.
pub open spec fn missing(
    files: Seq<NewFileView>,
    present: Seq<Seq<char>>,
    n: int,
) -> Seq<NewFileView>
    decreases n,
{
    if n <= 0 {
        seq![]
    } else if present.contains(files[n - 1].path) {
        missing(files, present, n - 1)
    } else {
        missing(files, present, n - 1).push(files[n - 1])
    }
}

fn new_file(path: &str, content: String) -> (r: NewFile)
    ensures
        r@ == (NewFileView { path: path@, content: content@ }),
{
    NewFile { path: path.to_owned(), content }
}

/// Whether the text is among the others.
pub fn is_among(v: &Vec<String>, s: &str) -> (r: bool)
    ensures
        r == views(v@).contains(s@),
{
    let mut i: usize = 0;
    while i < v.len()
        invariant
            i <= v.len(),
            forall|j: int| 0 <= j < i ==> (#[trigger] views(v@)[j]) != s@,
        decreases v.len() - i,
    {
        if same(v[i].as_str(), s) {
            assert(views(v@)[i as int] == s@);
            return true;
        }
        i += 1;
    }
    false
}

/// The files to write into a repository: those that a fresh one starts with and
/// that are not among the paths that are there already.
pub fn scaffold(owner: &str, repo: &str, present: &Vec<String>) -> (r: Vec<NewFile>)
    ensures
        new_file_views(r@) == missing(scaffolding(owner@, repo@), views(present@), 5),
{
    let mut all: Vec<NewFile> = Vec::new();
    all.push(new_file("skills/.gitkeep", "".to_owned()));
    all.push(new_file("runs/.gitkeep", "".to_owned()));
    all.push(new_file(".gitignore", ".knack/local-state.json\n.DS_Store\n".to_owned()));
    all.push(
        new_file(
            "knack.yaml",
            concat5(
                "# Knack self-host config. Edited by the Knack CLI.\nowner: ",
                owner,
                "\nrepo: ",
                repo,
                "\nformat: knack-skills/v1\n",
            ),
        ),
    );
    all.push(
        new_file(
            "README.md",
            concat3(
                "# ",
                repo,
                "\n\nThis is a Knack skills repository. It is managed by the [Knack CLI](https://knack.ai).\n\n## Layout\n\n- `skills/<slug>/` — authored skills\n- `runs/<yyyy-mm>/<yyyy-mm-dd>.jsonl` — run telemetry\n- `knack.yaml` — repo metadata\n\n## Add a skill\n\n```\nknack create my-first-skill\nknack publish my-first-skill\n```\n\nVersions are per-skill git tags: `my-first-skill/v0.1.0`.\n",
            ),
        ),
    );
    let ghost s = scaffolding(owner@, repo@);
    assert(new_file_views(all@) =~= s);
    let mut out: Vec<NewFile> = Vec::new();
    let mut i: usize = 0;
    assert(new_file_views(out@) =~= seq![]);
    while i < all.len()
        invariant
            i <= all.len(),
            new_file_views(all@) == s,
            new_file_views(out@) == missing(s, views(present@), i as int),
        decreases all.len() - i,
    {
        assert(s[i as int] == all@[i as int]@);
        if !is_among(present, all[i].path.as_str()) {
            let ghost was = new_file_views(out@);
            out.push(
                NewFile { path: all[i].path.clone(), content: all[i].content.clone() },
            );
            assert(new_file_views(out@) =~= was.push(s[i as int]));
        }
        i += 1;
    }
    assert(all@.len() == new_file_views(all@).len());
    out
}

/// The message of the first commit.
pub const INITIAL_COMMIT: &'static str = "Initial Knack skills repo (via `knack init --self-host`)";

/// Whether there is anything to commit: not where a commit is there already and
/// nothing has changed since.
pub fn needs_commit(has_head: bool, clean: bool) -> (r: bool)
    ensures
        r == !(has_head && clean),
{
    !(has_head && clean)
}

/// What is told of a push that failed.
pub fn push_error(stderr: &str) -> (r: String)
    ensures
        r@ == "git push origin main failed: "@ + trimmed(stderr@),
{
    crate::errors::prefixed("git push origin main failed: ", trim(stderr))
}

/// What is told of a repository that could not be made.
pub fn create_error(stderr: &str) -> (r: String)
    ensures
        r@ == "gh repo create failed: "@ + trimmed(stderr@),
{
    crate::errors::prefixed("gh repo create failed: ", trim(stderr))
}

/// Setting up overwrites nothing: only files that are not there are written.
pub proof fn law_scaffolding_overwrites_nothing(
    owner: Seq<char>,
    repo: Seq<char>,
    present: Seq<Seq<char>>,
    i: int,
)
    requires
        0 <= i < missing(scaffolding(owner, repo), present, 5).len(),
    ensures
        !present.contains(missing(scaffolding(owner, repo), present, 5)[i].path),
{
    lemma_missing_is_absent(scaffolding(owner, repo), present, 5, i);
}

proof fn lemma_missing_is_absent(
    files: Seq<NewFileView>,
    present: Seq<Seq<char>>,
    n: int,
    i: int,
)
    requires
        0 <= n <= files.len(),
        0 <= i < missing(files, present, n).len(),
    ensures
        !present.contains(missing(files, present, n)[i].path),
    decreases n,
{
    if n > 0 && i < missing(files, present, n - 1).len() {
        lemma_missing_is_absent(files, present, n - 1, i);
    }
}

/// Setting up is idempotent: once every file is there, none is written again.
pub proof fn law_setting_up_again_writes_nothing(
    owner: Seq<char>,
    repo: Seq<char>,
    present: Seq<Seq<char>>,
)
    requires
        forall|i: int|
            0 <= i < 5 ==> present.contains((#[trigger] scaffolding(owner, repo)[i]).path),
    ensures
        missing(scaffolding(owner, repo), present, 5).len() == 0,
{
    lemma_nothing_missing(scaffolding(owner, repo), present, 5);
}

proof fn lemma_nothing_missing(files: Seq<NewFileView>, present: Seq<Seq<char>>, n: int)
    requires
        0 <= n <= files.len(),
        forall|i: int| 0 <= i < n ==> present.contains((#[trigger] files[i]).path),
    ensures
        missing(files, present, n).len() == 0,
    decreases n,
{
    if n > 0 {
        assert(present.contains(files[n - 1].path));
        lemma_nothing_missing(files, present, n - 1);
    }
}

} // verus!
