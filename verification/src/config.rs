//! The configuration of one invocation.

use vstd::prelude::*;

use crate::text::{
    drop_trailing, lowercased, opt_str_view, opt_view, same, to_lowercase, trim, trim_end, trimmed,
    CharClass,
};

verus! {

/// The name of a file that holds JSON.
pub open spec fn json_name(stem: Seq<char>) -> Seq<char> {
    stem + ".json"@
}

/// The name of a file that holds JSON.
pub fn json_file(stem: &str) -> (r: String)
    ensures
        r@ == json_name(stem@),
{
    crate::errors::prefixed(stem, ".json")
}

/// Where the API is, unless something else is said.
pub const DEFAULT_API_BASE: &'static str = "https://api.getknack.ai";

/// Where skills are kept.
#[derive(Debug, Clone)]
pub enum BackendMode {
    /// In the cloud, behind the API.
    Cloud { api_base: String },
    /// In a repository of the user's own, in a local checkout.
    Github { owner: String, repo: String, local_path: String },
}

/// A backend as a mathematical value.
pub ghost enum BackendView {
    Cloud { api_base: Seq<char> },
    Github { owner: Seq<char>, repo: Seq<char>, local_path: Seq<char> },
}

impl View for BackendMode {
    type V = BackendView;

    open spec fn view(&self) -> BackendView {
        match *self {
            BackendMode::Cloud { api_base } => BackendView::Cloud { api_base: api_base@ },
            BackendMode::Github { owner, repo, local_path } => BackendView::Github {
                owner: owner@,
                repo: repo@,
                local_path: local_path@,
            },
        }
    }
}

impl Default for BackendMode {
    fn default() -> (r: BackendMode)
        ensures
            r@ == (BackendView::Cloud { api_base: DEFAULT_API_BASE@ }),
    {
        BackendMode::Cloud { api_base: DEFAULT_API_BASE.to_owned() }
    }
}

/// Where `knack link` puts a skill when no flag says so.
#[derive(Debug, Clone, Copy, PartialEq, Eq, Structural)]
pub enum LinkScope {
    /// In the home directory, for every project.
    Home,
    /// In the current project only.
    Project,
}

impl Default for LinkScope {
    fn default() -> (r: LinkScope)
        ensures
            r == LinkScope::Home,
    {
        LinkScope::Home
    }
}

/// The name of a scope.
pub open spec fn link_scope_name(s: LinkScope) -> Seq<char> {
    match s {
        LinkScope::Home => "home"@,
        LinkScope::Project => "project"@,
    }
}

/// The scope that a text names: by its name, or as the flags say it.
pub open spec fn link_scope_named(s: Seq<char>) -> Option<LinkScope> {
    let low = lowercased(trimmed(s));
    if low == "home"@ || low == "global"@ {
        Some(LinkScope::Home)
    } else if low == "project"@ || low == "local"@ {
        Some(LinkScope::Project)
    } else {
        None
    }
}

impl LinkScope {
    /// The name of the scope.
    pub fn as_str(self) -> (r: &'static str)
        ensures
            r@ == link_scope_name(self),
    {
        match self {
            LinkScope::Home => "home",
            LinkScope::Project => "project",
        }
    }

    /// The scope that a text names, once it is in lower case.
    pub fn from_lower(low: &str) -> (r: Option<LinkScope>)
        ensures
            low@ == "home"@ || low@ == "global"@ ==> r == Some(LinkScope::Home),
            low@ == "project"@ || low@ == "local"@ ==> r == Some(LinkScope::Project),
            low@ != "home"@ && low@ != "global"@ && low@ != "project"@ && low@ != "local"@ ==> r is None,
    {
        proof {
            lemma_scope_names_differ();
        }
        if same(low, "home") || same(low, "global") {
            Some(LinkScope::Home)
        } else if same(low, "project") || same(low, "local") {
            Some(LinkScope::Project)
        } else {
            None
        }
    }

    /// The scope that a text names: by its name, or as the flags say it.
    pub fn parse(s: &str) -> (r: Option<LinkScope>)
        ensures
            r == link_scope_named(s@),
    {
        let low = to_lowercase(trim(s));
        LinkScope::from_lower(low.as_str())
    }
}

proof fn lemma_scope_names_differ()
    ensures
        "home"@ != "project"@,
        "home"@ != "local"@,
        "global"@ != "project"@,
        "global"@ != "local"@,
{
    reveal_strlit("home");
    reveal_strlit("global");
    reveal_strlit("project");
    reveal_strlit("local");
    assert("home"@.len() != "project"@.len());
    assert("home"@.len() != "local"@.len());
    assert("global"@.len() != "project"@.len());
    assert("global"@.len() != "local"@.len());
}

/// What a profile on disk says.
#[derive(Debug)]
pub struct Profile {
    pub backend: BackendMode,
    /// The scope of `knack link`, in the profile's own words.
    pub link_scope: Option<String>,
}

/// The configuration of one invocation.
#[derive(Debug)]
pub struct Config {
    pub api_base: String,
    pub skills_dir: String,
    pub keyring_service: String,
    pub backend: BackendMode,
    /// Where `knack link` puts a skill when no flag says so.
    pub link_scope: LinkScope,
}

/// The address of the API, without slashes at its end.
pub open spec fn api_base_of(env: Option<Seq<char>>) -> Seq<char> {
    drop_trailing(
        match env {
            Some(s) => s,
            None => DEFAULT_API_BASE@,
        },
        CharClass::One('/'),
    )
}

/// The scope that a profile sets: none without a profile, without the entry or
/// where it names no scope.
pub open spec fn profile_scope(p: Option<Profile>) -> LinkScope {
    match p {
        Some(p) => match p.link_scope {
            Some(s) => match link_scope_named(s@) {
                Some(k) => k,
                None => LinkScope::Home,
            },
            None => LinkScope::Home,
        },
        None => LinkScope::Home,
    }
}

impl Config {
    /// The configuration, by the value of `KNACK_API_URL`, by the profile, if one
    /// could be read, and by the directory of skills.
    pub fn load(env: Option<&str>, profile: Option<Profile>, skills_dir: String) -> (r: Config)
        ensures
            r.api_base@ == api_base_of(opt_str_view(env)),
            r.skills_dir == skills_dir,
            r.keyring_service@ == "knack"@,
            r.backend@ == (match profile {
                Some(p) => p.backend@,
                None => BackendView::Cloud { api_base: api_base_of(opt_str_view(env)) },
            }),
            r.link_scope == profile_scope(profile),
    {
        let base = match env {
            Some(s) => s,
            None => DEFAULT_API_BASE,
        };
        let api_base = trim_end(base, CharClass::One('/')).to_owned();
        let (backend, link_scope) = match profile {
            Some(p) => {
                let scope = match &p.link_scope {
                    Some(s) => match LinkScope::parse(s.as_str()) {
                        Some(k) => k,
                        None => LinkScope::Home,
                    },
                    None => LinkScope::Home,
                };
                (p.backend, scope)
            },
            None => (BackendMode::Cloud { api_base: api_base.clone() }, LinkScope::Home),
        };
        Config { api_base, skills_dir, keyring_service: "knack".to_owned(), backend, link_scope }
    }
}

/// A path below a directory. An absolute path stays what it is.
pub open spec fn below(dir: Seq<char>, rest: Seq<char>) -> Seq<char> {
    if dir.len() == 0 || (rest.len() > 0 && rest[0] == '/') {
        rest
    } else if dir.last() == '/' {
        dir + rest
    } else {
        dir + "/"@ + rest
    }
}

/// A path below a directory.
pub fn join_path(dir: &str, rest: &str) -> (r: String)
    ensures
        r@ == below(dir@, rest@),
{
    let n: usize = dir.unicode_len();
    if n == 0 || (!rest.is_empty() && rest.get_char(0) == '/') {
        return rest.to_owned();
    }
    let mut r = dir.to_owned();
    if dir.get_char(n - 1) != '/' {
        r.append("/");
    }
    r.append(rest);
    r
}

/// The file of the profile: the one that `KNACK_CONFIG_FILE` names, else the one
/// in the home directory, if there is one.
pub open spec fn profile_path(
    env: Option<Seq<char>>,
    home: Option<Seq<char>>,
) -> Option<Seq<char>> {
    match (env, home) {
        (Some(p), _) => Some(p),
        (None, Some(h)) => Some(below(h, ".knack/config.yaml"@)),
        (None, None) => None,
    }
}

/// The file of the profile.
pub fn config_file_path(env: Option<&str>, home: Option<&str>) -> (r: Option<String>)
    ensures
        opt_view(r) == profile_path(opt_str_view(env), opt_str_view(home)),
{
    match (env, home) {
        (Some(p), _) => Some(p.to_owned()),
        (None, Some(h)) => Some(join_path(h, ".knack/config.yaml")),
        (None, None) => None,
    }
}

/// The directory of skills: the one that `KNACK_SKILLS_DIR` names, else on Linux
/// the one among the user's data, else the one in the home directory, else one in
/// the current directory.
pub open spec fn skills_path(
    env: Option<Seq<char>>,
    linux: bool,
    data: Option<Seq<char>>,
    home: Option<Seq<char>>,
) -> Seq<char> {
    if env is Some {
        env->0
    } else if linux && data is Some {
        below(data->0, "knack/skills"@)
    } else if home is Some {
        below(home->0, ".knack/skills"@)
    } else {
        ".knack/skills"@
    }
}

/// The directory of skills.
pub fn skills_dir(
    env: Option<&str>,
    linux: bool,
    data: Option<&str>,
    home: Option<&str>,
) -> (r: String)
    ensures
        r@ == skills_path(opt_str_view(env), linux, opt_str_view(data), opt_str_view(home)),
{
    match env {
        Some(p) => {
            return p.to_owned();
        },
        None => {},
    }
    if linux {
        match data {
            Some(d) => {
                return join_path(d, "knack/skills");
            },
            None => {},
        }
    }
    match home {
        Some(h) => join_path(h, ".knack/skills"),
        None => ".knack/skills".to_owned(),
    }
}

/// The profile to write when the backend is chosen: what was said of scopes stays.
pub fn save_backend_mode(backend: BackendMode, old: Option<Profile>) -> (r: Profile)
    ensures
        r.backend == backend,
        r.link_scope == (match old {
            Some(p) => p.link_scope,
            None => None,
        }),
{
    let link_scope = match old {
        Some(p) => p.link_scope,
        None => None,
    };
    Profile { backend, link_scope }
}

/// A directory of skills is never the empty path, whatever is known of the
/// machine, unless the environment says so.
pub proof fn law_skills_dir_is_some_path(
    env: Option<Seq<char>>,
    linux: bool,
    data: Option<Seq<char>>,
    home: Option<Seq<char>>,
)
    requires
        env is Some ==> env->0.len() > 0,
    ensures
        skills_path(env, linux, data, home).len() > 0,
{
    reveal_strlit("knack/skills");
    reveal_strlit(".knack/skills");
}

/// The address of the API never ends in a slash.
pub proof fn law_api_base_has_no_slash(env: Option<Seq<char>>)
    ensures
        api_base_of(env).len() > 0 ==> api_base_of(env).last() != '/',
{
    let s = match env {
        Some(s) => s,
        None => DEFAULT_API_BASE@,
    };
    lemma_no_trailing(s, CharClass::One('/'));
}

proof fn lemma_no_trailing(s: Seq<char>, k: CharClass)
    ensures
        drop_trailing(s, k).len() > 0 ==> !k.holds(drop_trailing(s, k).last()),
    decreases s.len(),
{
    if s.len() > 0 && k.holds(s.last()) {
        lemma_no_trailing(s.drop_last(), k);
    }
}

} // verus!
