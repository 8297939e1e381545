//! Which remote and which branch a repository is pushed to.
//!
//! The environment has the first word, then what git knows of the remote, then
//! what GitHub says; `origin` and `main` are the last resort.

use vstd::prelude::*;

use crate::order::TextMap;
use crate::text::{
    drop_trailing, has_suffix, lines, lines_of, opt_owned, opt_str_view, opt_view, slice_views,
    strip_prefix, strip_suffix, trim, trim_end, trimmed, views, without_prefix, CharClass,
};

verus! {

/// A branch of a remote.
#[derive(Debug, Clone)]
pub struct RemoteTarget {
    pub remote: String,
    pub branch: String,
}

impl RemoteTarget {
    /// The last resort.
    pub fn fallback() -> (r: Self)
        ensures
            r.remote@ == "origin"@,
            r.branch@ == "main"@,
    {
        RemoteTarget { remote: "origin".to_owned(), branch: "main".to_owned() }
    }
}

/// The value is there and not empty.
pub open spec fn given(v: Option<Seq<char>>) -> bool {
    v is Some && v->0.len() > 0
}

/// The names among the first `n` lines.
pub open spec fn names_in(s: Seq<Seq<char>>, n: int) -> Seq<Seq<char>>
    decreases n,
{
    if n <= 0 {
        seq![]
    } else if trimmed(s[n - 1]).len() == 0 {
        names_in(s, n - 1)
    } else {
        names_in(s, n - 1).push(trimmed(s[n - 1]))
    }
}

/// The remotes that `git remote` lists.
pub open spec fn remotes_in(listing: Seq<char>) -> Seq<Seq<char>> {
    names_in(lines_of(listing), lines_of(listing).len() as int)
}

/// The name of the remote: what the environment says; else the only remote there
/// is; else `origin`.
pub open spec fn remote_name(env: Option<Seq<char>>, listing: Option<Seq<char>>) -> Seq<char> {
    if given(env) {
        env->0
    } else {
        match listing {
            Some(t) => if remotes_in(t).len() == 1 {
                remotes_in(t)[0]
            } else {
                "origin"@
            },
            None => "origin"@,
        }
    }
}

/// The remotes that `git remote` lists.
pub fn list_remotes(listing: &str) -> (r: Vec<String>)
    ensures
        views(r@) == remotes_in(listing@),
{
    let all = lines(listing);
    let ghost s = lines_of(listing@);
    let mut out: Vec<String> = Vec::new();
    let mut i: usize = 0;
    assert(views(out@) =~= seq![]);
    assert(slice_views(all@).len() == all@.len());
    while i < all.len()
        invariant
            i <= all.len(),
            s == slice_views(all@),
            views(out@) == names_in(s, i as int),
        decreases all.len() - i,
    {
        let name = trim(all[i]);
        assert(s[i as int] == all@[i as int]@);
        if !name.is_empty() {
            let ghost was = views(out@);
            out.push(name.to_owned());
            assert(views(out@) =~= was.push(name@));
        }
        i += 1;
    }
    out
}

/// The name of the remote, by the value of `KNACK_REMOTE_NAME` and by what
/// `git remote` lists, if it succeeds.
pub fn resolve_remote_name(env: Option<&str>, listing: Option<&str>) -> (r: String)
    ensures
        r@ == remote_name(opt_str_view(env), opt_str_view(listing)),
{
    match env {
        Some(v) => {
            if !v.is_empty() {
                return v.to_owned();
            }
        },
        None => {},
    }
    match listing {
        Some(t) => {
            let mut names = list_remotes(t);
            assert(views(names@).len() == names@.len());
            if names.len() == 1 {
                assert(views(names@)[0] == names@[0]@);
                names.remove(0)
            } else {
                "origin".to_owned()
            }
        },
        None => "origin".to_owned(),
    }
}

/// Without the suffix at the end, however often it stands there.
pub open spec fn without_suffixes(s: Seq<char>, p: Seq<char>) -> Seq<char>
    decreases s.len(),
{
    if p.len() > 0 && has_suffix(s, p) {
        without_suffixes(s.take(s.len() - p.len()), p)
    } else {
        s
    }
}

fn trim_suffixes<'a>(s: &'a str, p: &str) -> (r: &'a str)
    requires
        p@.len() > 0,
    ensures
        r@ == without_suffixes(s@, p@),
{
    let mut r = s;
    loop
        invariant
            p@.len() > 0,
            without_suffixes(s@, p@) == without_suffixes(r@, p@),
        decreases r@.len(),
    {
        match strip_suffix(r, p) {
            Some(t) => {
                r = t;
            },
            None => {
                return r;
            },
        }
    }
}

/// The owner and the repository in the address of a repository on GitHub, in any of
/// the ways git writes it.
pub open spec fn owner_repo(url: Seq<char>) -> Option<Seq<char>> {
    let s = without_suffixes(drop_trailing(trimmed(url), CharClass::One('/')), ".git"@);
    if without_prefix(s, "git@github.com:"@) is Some {
        without_prefix(s, "git@github.com:"@)
    } else if without_prefix(s, "https://github.com/"@) is Some {
        without_prefix(s, "https://github.com/"@)
    } else {
        without_prefix(s, "ssh://git@github.com/"@)
    }
}

/// The owner and the repository in the address of a repository on GitHub.
pub fn parse_github_owner_repo(url: &str) -> (r: Option<String>)
    ensures
        opt_view(r) == owner_repo(url@),
{
    proof {
        reveal_strlit(".git");
    }
    let s = trim_suffixes(trim_end(trim(url), CharClass::One('/')), ".git");
    let a = strip_prefix(s, "git@github.com:");
    if a.is_some() {
        return opt_owned(a);
    }
    let b = strip_prefix(s, "https://github.com/");
    if b.is_some() {
        return opt_owned(b);
    }
    opt_owned(strip_prefix(s, "ssh://git@github.com/"))
}

/// The branch in what `git symbolic-ref` printed of the remote's head.
pub open spec fn branch_in_ref(remote: Seq<char>, printed: Seq<char>) -> Option<Seq<char>> {
    match without_prefix(trimmed(printed), remote + "/"@) {
        Some(b) => if b.len() == 0 {
            None
        } else {
            Some(b)
        },
        None => None,
    }
}

/// The branch: what the environment says; else what git knows of the remote's
/// head; else what GitHub says, where the remote is there; else `main`.
pub open spec fn default_branch(
    env: Option<Seq<char>>,
    remote: Seq<char>,
    symbolic: Option<Seq<char>>,
    url: Option<Seq<char>>,
    gh: Option<Seq<char>>,
) -> Seq<char> {
    if given(env) {
        env->0
    } else if symbolic is Some && branch_in_ref(remote, symbolic->0) is Some {
        branch_in_ref(remote, symbolic->0)->0
    } else if url is Some && owner_repo(url->0) is Some && gh is Some && trimmed(gh->0).len() > 0 {
        trimmed(gh->0)
    } else {
        "main"@
    }
}

fn read_ref(remote: &str, printed: &str) -> (r: Option<String>)
    ensures
        opt_view(r) == branch_in_ref(remote@, printed@),
{
    let prefix = crate::errors::prefixed(remote, "/");
    match strip_prefix(trim(printed), prefix.as_str()) {
        Some(b) => if b.is_empty() {
            None
        } else {
            Some(b.to_owned())
        },
        None => None,
    }
}

/// The branch, by the value of `KNACK_REMOTE_BRANCH` and by what the commands
/// print that succeed: `git symbolic-ref`, `git remote get-url` and `gh repo view`.
pub fn resolve_default_branch(
    env: Option<&str>,
    remote: &str,
    symbolic: Option<&str>,
    url: Option<&str>,
    gh: Option<&str>,
) -> (r: String)
    ensures
        r@ == default_branch(
            opt_str_view(env),
            remote@,
            opt_str_view(symbolic),
            opt_str_view(url),
            opt_str_view(gh),
        ),
{
    match env {
        Some(v) => {
            if !v.is_empty() {
                return v.to_owned();
            }
        },
        None => {},
    }
    match symbolic {
        Some(t) => match read_ref(remote, t) {
            Some(b) => {
                return b;
            },
            None => {},
        },
        None => {},
    }
    match (url, gh) {
        (Some(u), Some(g)) => {
            let name = trim(g);
            if parse_github_owner_repo(u).is_some() && !name.is_empty() {
                return name.to_owned();
            }
        },
        _ => {},
    }
    "main".to_owned()
}

/// What is known of a repository before its remote is settled.
pub struct RemoteFacts<'a> {
    pub env_name: Option<&'a str>,
    pub env_branch: Option<&'a str>,
    /// What `git remote` lists.
    pub listing: Option<&'a str>,
    /// What `git symbolic-ref` prints of the remote's head.
    pub symbolic: Option<&'a str>,
    /// What `git remote get-url` prints.
    pub url: Option<&'a str>,
    /// What `gh repo view` prints.
    pub gh: Option<&'a str>,
}

/// The remote and the branch of a repository. It never fails: a repository that
/// git knows nothing of is pushed to the last resort.
pub fn fresh_target(facts: &RemoteFacts) -> (r: RemoteTarget)
    ensures
        r@ == target_of(*facts),
{
    let remote = resolve_remote_name(facts.env_name, facts.listing);
    let branch = resolve_default_branch(
        facts.env_branch,
        remote.as_str(),
        facts.symbolic,
        facts.url,
        facts.gh,
    );
    RemoteTarget { remote, branch }
}

/// A branch of a remote, as a mathematical value.
#[verifier::ext_equal]
pub ghost struct TargetView {
    pub remote: Seq<char>,
    pub branch: Seq<char>,
}

impl View for RemoteTarget {
    type V = TargetView;

    open spec fn view(&self) -> TargetView {
        TargetView { remote: self.remote@, branch: self.branch@ }
    }
}

/// What was resolved in this process, by the path of the repository.
#[derive(Debug)]
pub struct ResolvedRemotes {
    pub targets: TextMap<RemoteTarget>,
}

impl ResolvedRemotes {
    pub open spec fn wf(self) -> bool {
        self.targets.wf()
    }

    /// Nothing was resolved yet.
    pub fn new() -> (r: Self)
        ensures
            r.wf(),
            r@ == Map::<Seq<char>, TargetView>::empty(),
    {
        let r = ResolvedRemotes { targets: TextMap::new() };
        assert(r@ =~= Map::<Seq<char>, TargetView>::empty());
        r
    }
}

impl View for ResolvedRemotes {
    type V = Map<Seq<char>, TargetView>;

    open spec fn view(&self) -> Map<Seq<char>, TargetView> {
        self.targets.contents().map_values(|t: RemoteTarget| t@)
    }
}

/// What was resolved, once a repository was resolved too: an answer that is there stays.
pub open spec fn resolved(
    known: Map<Seq<char>, TargetView>,
    repo: Seq<char>,
    answer: TargetView,
) -> Map<Seq<char>, TargetView> {
    if known.dom().contains(repo) {
        known
    } else {
        known.insert(repo, answer)
    }
}

/// The answer to what git and `gh` say.
pub open spec fn target_of(facts: RemoteFacts) -> TargetView {
    let remote = remote_name(opt_str_view(facts.env_name), opt_str_view(facts.listing));
    TargetView {
        remote,
        branch: default_branch(
            opt_str_view(facts.env_branch),
            remote,
            opt_str_view(facts.symbolic),
            opt_str_view(facts.url),
            opt_str_view(facts.gh),
        ),
    }
}

/// The remote and the branch of a repository, resolved once in a process: later answers
/// of git and `gh` are of no account.
pub fn resolve_remote(
    known: &mut ResolvedRemotes,
    repo: &str,
    facts: &RemoteFacts,
) -> (r: RemoteTarget)
    requires
        old(known).wf(),
    ensures
        final(known).wf(),
        final(known)@ == resolved(old(known)@, repo@, target_of(*facts)),
        r@ == final(known)@[repo@],
{
    let ghost was = known@;
    assert(was.dom() =~= known.targets.contents().dom());
    if let Some(t) = known.targets.get(repo) {
        return RemoteTarget { remote: t.remote.clone(), branch: t.branch.clone() };
    }
    let t = fresh_target(facts);
    let r = RemoteTarget { remote: t.remote.clone(), branch: t.branch.clone() };
    let ghost v = t@;
    assert(v =~= target_of(*facts));
    known.targets.insert(repo.to_owned(), t);
    assert(known@ =~= was.insert(repo@, v));
    r
}

/// What was resolved of a repository stays, whatever is resolved later and whatever git
/// and `gh` say then.
pub proof fn law_resolved_targets_are_kept(
    known: Map<Seq<char>, TargetView>,
    repo: Seq<char>,
    answer: TargetView,
    later: Seq<(Seq<char>, TargetView)>,
)
    ensures
        ({
            let first = resolved(known, repo, answer);
            let last = resolved_after(first, later, later.len() as int);
            &&& first.dom().contains(repo)
            &&& last.dom().contains(repo)
            &&& last[repo] == first[repo]
            &&& !known.dom().contains(repo) ==> first[repo] == answer
        }),
{
    lemma_resolved_after(resolved(known, repo, answer), repo, later, later.len() as int);
}

/// What was resolved after the first `n` further answers.
pub open spec fn resolved_after(
    known: Map<Seq<char>, TargetView>,
    later: Seq<(Seq<char>, TargetView)>,
    n: int,
) -> Map<Seq<char>, TargetView>
    decreases n,
{
    if n <= 0 {
        known
    } else {
        resolved(resolved_after(known, later, n - 1), later[n - 1].0, later[n - 1].1)
    }
}

proof fn lemma_resolved_after(
    known: Map<Seq<char>, TargetView>,
    repo: Seq<char>,
    later: Seq<(Seq<char>, TargetView)>,
    n: int,
)
    requires
        0 <= n <= later.len(),
        known.dom().contains(repo),
    ensures
        resolved_after(known, later, n).dom().contains(repo),
        resolved_after(known, later, n)[repo] == known[repo],
    decreases n,
{
    if n > 0 {
        lemma_resolved_after(known, repo, later, n - 1);
    }
}

/// `origin` wins over every other remote that is listed beside it.
pub proof fn law_origin_wins(listing: Seq<char>)
    requires
        remotes_in(listing).contains("origin"@),
    ensures
        remote_name(None, Some(listing)) == "origin"@,
{
}

/// Where no remote is listed it is `origin`, and where nothing is known of the head of a
/// remote it is `main`.
pub proof fn law_last_resort_is_origin_main(listing: Option<Seq<char>>, remote: Seq<char>)
    requires
        listing matches Some(l) ==> remotes_in(l).len() == 0,
    ensures
        remote_name(None, listing) == "origin"@,
        default_branch(None, remote, None, None, None) == "main"@,
{
}

/// What the environment names wins over everything that git knows.
pub proof fn law_environment_names_the_target(
    name: Seq<char>,
    branch: Seq<char>,
    listing: Option<Seq<char>>,
    symbolic: Option<Seq<char>>,
    url: Option<Seq<char>>,
    gh: Option<Seq<char>>,
)
    requires
        given(Some(name)),
        given(Some(branch)),
    ensures
        remote_name(Some(name), listing) == name,
        default_branch(Some(branch), name, symbolic, url, gh) == branch,
{
}

} // verus!
