//! How commands go on, step by step, said of what is known so far.

use vstd::prelude::*;

use crate::commands::diff::{diff_next, DiffAction, DiffFacts, DiffRequest};
use crate::commands::fetch::{fetch_next, named_next, FetchFacts, FetchView, Lookup};
use crate::commands::fork::{fork_next, ForkArgs, ForkFacts, ForkView};
use crate::commands::link::flow::note_due;
use crate::commands::install::installed::Scope;
use crate::commands::install::linked::LinkedView;
use crate::commands::publish::flow::{repo_next, RepoActionView, RepoFacts};
use crate::commands::publish::{next_repo_version, PublishArgs};
use crate::commands::pull::github::{
    first_fault, pull_from, FileFault, GithubPullFacts, GithubPullStep, PullFrom,
};
use crate::commands::pull::PullArgs;
use crate::commands::rate::{rate_next, RateArgs, RateFacts, RateView};
use crate::commands::run::version_error;
use crate::commands::runs::flow::{list_next, ListAction, ListFacts};
use crate::commands::runs::list::ListArgs;
use crate::config::below;
use crate::errors::ErrorView;
use crate::github::external::spec_of;
use crate::slug::slug_parts;
use crate::text::opt_view;
use crate::time::{day_of, second_of_day};

verus! {

// ---------------------------------------------------------------------------
// Listing runs
// ---------------------------------------------------------------------------

/// The skill is looked for first, under its name; without it nothing is listed.
pub proof fn law_listing_starts_with_the_skill(
    args: ListArgs,
    since: i64,
    until: i64,
    f: ListFacts,
    r: ListAction,
)
    requires
        list_next(args, since, until, f, r),
    ensures
        f.skill is None ==> (r matches ListAction::FindSkill { slug } && slug@ == slug_parts(
            args.slug@,
        ).0),
        f.skill matches Some(Err(e)) ==> (r matches ListAction::Fail(x) && x@ == e@),
        (f.skill matches Some(Ok(None))) ==> (r matches ListAction::Fail(x) && x@ is NotFound),
{
}

/// The version that is asked for is looked up, and then the runs of the window are asked
/// for: from the first second of its first day to the last second of its last day, with the
/// status, the limit and the page that are asked for.
pub proof fn law_runs_of_the_window_are_asked_for(
    args: ListArgs,
    since: i64,
    until: i64,
    f: ListFacts,
    r: ListAction,
)
    requires
        list_next(args, since, until, f, r),
        f.skill matches Some(Ok(Some(_))),
    ensures
        ({
            let id = (f.skill->0)->Ok_0->0;
            &&& args.version is Some && f.version_id is None ==> (r matches ListAction::GetVersion {
                skill_id,
                version,
            } && skill_id@ == id@ && version@ == args.version->0@)
            &&& args.version is Some && (f.version_id matches Some(Err(e))) ==> r is Fail
            &&& (args.version is None || (f.version_id matches Some(Ok(_)))) && f.page is None ==> (
            r matches ListAction::AskRuns { skill_id, query } && skill_id@ == id@ && {
                &&& opt_view(query.status) == opt_view(args.status)
                &&& opt_view(query.cursor) == opt_view(args.cursor)
                &&& query.limit == Some(args.limit)
                &&& query.since matches Some(t) && day_of(t) == since && second_of_day(t) == 0
                &&& query.until matches Some(t) && day_of(t) == until && second_of_day(t) == 24
                    * 60 * 60 - 1
            })
            &&& (args.version is None || (f.version_id matches Some(Ok(_)))) && (
            f.page matches Some(Ok(_))) ==> r is Done
        }),
{
}

/// A version that is not there is told by the skill and the version; any other failure is
/// told as it is.
pub proof fn law_missing_versions_are_told(slug: Seq<char>, version: Seq<char>, e: ErrorView)
    ensures
        e is NotFound ==> version_error(slug, version, e) == ErrorView::NotFound(
            "skill `"@ + slug + "` has no version `"@ + version + "`"@,
        ),
        !(e is NotFound) ==> version_error(slug, version, e) == e,
{
}

// ---------------------------------------------------------------------------
// Comparing versions
// ---------------------------------------------------------------------------

/// The skill is found, then the left version and then the right one are read, and only then
/// are they compared.
pub proof fn law_both_versions_are_read(q: DiffRequest, f: DiffFacts, r: DiffAction)
    requires
        diff_next(q, f, r),
    ensures
        f.skill is None ==> (r matches DiffAction::FindSkill { slug } && slug@ == q.slug@),
        (f.skill matches Some(Ok(None))) ==> (r matches DiffAction::Fail(x) && x@ is NotFound),
        (f.skill matches Some(Ok(Some(_)))) && f.left is None ==> (
        r matches DiffAction::GetVersion { skill_id, version } && version@ == q.left@ && skill_id@
            == (f.skill->0)->Ok_0->0@),
        (f.skill matches Some(Ok(Some(_)))) && (f.left matches Some(Ok(_))) && f.right is None ==> (
        r matches DiffAction::GetVersion { skill_id, version } && version@ == q.right@ && skill_id@
            == (f.skill->0)->Ok_0->0@),
        r is Done <==> (f.skill matches Some(Ok(Some(_)))) && (f.left matches Some(Ok(_))) && (
        f.right matches Some(Ok(_))),
{
}

// ---------------------------------------------------------------------------
// Rating
// ---------------------------------------------------------------------------

/// A rating is taken back where that is asked for; else the stars and what is said are sent.
/// Without stars there is nothing to send.
pub proof fn law_ratings_are_sent_or_taken_back(args: RateArgs, f: RateFacts, id: Seq<char>)
    ensures
        !args.clear && args.stars is None ==> rate_next(args, f) is Fail,
        (args.clear || args.stars is Some) && f.skill is None ==> rate_next(args, f)
            == RateView::FindSkill(args.slug@),
        (args.clear || args.stars is Some) && (f.skill matches Some(Ok(None))) ==> rate_next(args, f)
            is Fail,
        (f.skill matches Some(Ok(Some(x))) && x@ == id) && f.done is None ==> {
            &&& args.clear ==> rate_next(args, f) == RateView::Clear(id)
            &&& !args.clear && args.stars is Some ==> rate_next(args, f) == (RateView::Rate {
                id,
                stars: args.stars->0 as int,
                review: match args.review {
                    Some(t) => Some(t@),
                    None => None,
                },
            })
        },
        (args.clear || args.stars is Some) && (f.skill matches Some(Ok(Some(_)))) && (
        f.done matches Some(Ok(_))) ==> rate_next(args, f) is Done,
{
}

// ---------------------------------------------------------------------------
// Copying and fetching skills
// ---------------------------------------------------------------------------

/// A skill that is copied is looked for under its author and its name, copied under the name
/// that is asked for, and then the copy is fetched.
pub proof fn law_copies_are_made_and_fetched(args: ForkArgs, f: ForkFacts, example: Seq<char>)
    ensures
        f.handle is None ==> (fork_next(args, f, example) matches ForkView::Fetch(FetchView::Fail(e))
            && (e matches ErrorView::User { code, message, hint } && code == "INVALID_HANDLE"@)),
        f.handle is Some && f.source is None ==> fork_next(args, f, example) == (
        ForkView::FindSource { author: (f.handle->0).0@, slug: (f.handle->0).1@ }),
        f.handle is Some && (f.source matches Some(Ok(_))) && f.forked is None ==> fork_next(
            args,
            f,
            example,
        ) == (ForkView::Fork {
            source_id: (f.source->0)->Ok_0@,
            slug: match args.slug {
                Some(t) => Some(t@),
                None => None,
            },
            name: match args.name {
                Some(t) => Some(t@),
                None => None,
            },
        }),
        f.handle is Some && (f.source matches Some(Ok(_))) && (f.forked matches Some(Ok(_))) && (
        f.fetch.folder matches Some(Ok(_))) ==> fork_next(args, f, example) == ForkView::Fetch(
            fetch_next(
                (f.forked->0)->Ok_0.id@,
                match (f.forked->0)->Ok_0.current_version_semver {
                    Some(v) => v@,
                    None => "0.1.0"@,
                },
                f.fetch,
            ),
        ),
{
}

/// A skill is fetched by its name, in the version behind the name or else in the current one;
/// one that was never published cannot be.
pub proof fn law_skills_are_fetched_by_their_name(spec: Seq<char>, skill: Lookup, f: FetchFacts)
    ensures
        skill is None ==> named_next(spec, skill, f) == (FetchView::FindSkill {
            slug: slug_parts(spec).0,
        }),
        (skill matches Some(Ok(None))) ==> (named_next(spec, skill, f) matches FetchView::Fail(e)
            && e is NotFound),
        (skill matches Some(Ok(Some(_)))) ==> {
            let s = (skill->0)->Ok_0->0;
            &&& slug_parts(spec).1 matches Some(v) ==> named_next(spec, skill, f) == fetch_next(
                s.id@,
                v,
                f,
            )
            &&& slug_parts(spec).1 is None && s.current_version_semver is Some ==> named_next(
                spec,
                skill,
                f,
            ) == fetch_next(s.id@, s.current_version_semver->0@, f)
            &&& slug_parts(spec).1 is None && s.current_version_semver is None ==> (named_next(
                spec,
                skill,
                f,
            ) matches FetchView::Fail(e) && e is NotFound)
        },
{
}

// ---------------------------------------------------------------------------
// Pulling from a repository
// ---------------------------------------------------------------------------

/// What starts with an at-sign is a skill of others, and anything else one of one's own.
pub proof fn law_others_are_named_with_an_at_sign(s: Seq<char>)
    ensures
        s.len() > 0 && s[0] == '@' && spec_of(s) is Ok ==> pull_from(s) == Ok::<
            PullFrom,
            ErrorView,
        >(PullFrom::External(spec_of(s)->Ok_0)),
        s.len() > 0 && s[0] == '@' && spec_of(s) is Err ==> pull_from(s) is Err,
        s.len() == 0 || s[0] != '@' ==> pull_from(s) == Ok::<PullFrom, ErrorView>(
            PullFrom::Own { slug: slug_parts(s).0, version: slug_parts(s).1 },
        ),
{
    reveal_strlit("@");
    if s.len() > 0 {
        assert(s.take(1)[0] == s[0]);
        if s[0] == '@' {
            assert(s.take(1) =~= "@"@);
        }
    }
}

proof fn lemma_no_fault(w: Seq<Result<(), FileFault>>, from: int)
    requires
        0 <= from,
        forall|i: int| from <= i < w.len() ==> #[trigger] w[i] is Ok,
    ensures
        first_fault(w, from) is None,
    decreases w.len() - from,
{
    if from < w.len() {
        lemma_no_fault(w, from + 1);
    }
}

proof fn lemma_fault(w: Seq<Result<(), FileFault>>, from: int, k: int)
    requires
        0 <= from <= k < w.len(),
        w[k] is Err,
        forall|i: int| from <= i < k ==> #[trigger] w[i] is Ok,
    ensures
        first_fault(w, from) == Some(k),
    decreases k - from,
{
    if from < k {
        lemma_fault(w, from + 1, k);
    }
}

/// All files of a skill are written, one after the other and each below the skill's own
/// directory, until all are or one cannot be.
pub proof fn law_files_are_written_one_after_the_other(
    step: GithubPullStep,
    args: PullArgs,
    root: Seq<char>,
    f: GithubPullFacts,
)
    requires
        step.is_next(args, root, f),
        pull_from(args.slug_at_version@) is Ok,
        f.pulled matches Some(Ok(_)),
        f.written@.len() <= (f.pulled->0)->Ok_0.files@.len(),
        forall|i: int| 0 <= i < f.written@.len() ==> #[trigger] f.written@[i] is Ok,
    ensures
        ({
            let p = (f.pulled->0)->Ok_0;
            let dir = below(root, p.slug@);
            &&& f.folder is None ==> (step matches GithubPullStep::MakeFolder(d) && d@ == dir)
            &&& (f.folder matches Some(Err(_))) ==> step is Fail
            &&& (f.folder matches Some(Ok(_))) && f.written@.len() < p.files@.len() ==> (
            step matches GithubPullStep::WriteFile { index, dest } && index == f.written@.len()
                && dest@ == below(dir, p.files@[index as int].path@))
            &&& (f.folder matches Some(Ok(_))) && f.written@.len() == p.files@.len() ==> step is Done
        }),
{
    lemma_no_fault(f.written@, 0);
}

/// The first file that could not be written ends it.
pub proof fn law_the_first_fault_ends_it(
    step: GithubPullStep,
    args: PullArgs,
    root: Seq<char>,
    f: GithubPullFacts,
    k: int,
)
    requires
        step.is_next(args, root, f),
        pull_from(args.slug_at_version@) is Ok,
        f.pulled matches Some(Ok(_)),
        f.folder matches Some(Ok(_)),
        0 <= k < f.written@.len(),
        f.written@[k] is Err,
        forall|i: int| 0 <= i < k ==> #[trigger] f.written@[i] is Ok,
    ensures
        step matches GithubPullStep::Fail(e) && e@ is Internal,
{
    lemma_fault(f.written@, 0, k);
}

// ---------------------------------------------------------------------------
// Publishing in a repository
// ---------------------------------------------------------------------------

/// The version that is worked out is written to the skill's file first and published then;
/// in a rehearsal it is only told.
pub proof fn law_the_version_is_written_and_published(
    args: PublishArgs,
    dir: Seq<char>,
    f: RepoFacts,
    v: Seq<char>,
)
    requires
        f.is_dir,
        f.format is None,
        f.current is Ok,
        next_repo_version(
            opt_view(args.as_version),
            args.major,
            args.minor,
            args.patch,
            f.current->Ok_0@,
        ) == Ok::<Seq<char>, ErrorView>(v),
    ensures
        args.dry_run ==> repo_next(args, dir, f) == RepoActionView::DryRun(v),
        !args.dry_run && f.updated is None ==> repo_next(args, dir, f)
            == RepoActionView::UpdateMeta(v),
        !args.dry_run && (f.updated matches Some(Err(_))) ==> repo_next(args, dir, f) is Fail,
        !args.dry_run && (f.updated matches Some(Ok(_))) && f.published is None ==> repo_next(
            args,
            dir,
            f,
        ) == RepoActionView::Publish(v),
        !args.dry_run && (f.updated matches Some(Ok(_))) && (f.published matches Some(Err(_)))
            ==> repo_next(args, dir, f) is Fail,
        !args.dry_run && (f.updated matches Some(Ok(_))) && (f.published matches Some(Ok(_)))
            ==> repo_next(args, dir, f) == RepoActionView::Done(v),
{
}

/// What is no folder or does not have the format of a skill is not published.
pub proof fn law_only_skills_are_published(args: PublishArgs, dir: Seq<char>, f: RepoFacts)
    ensures
        !f.is_dir || f.format is Some ==> repo_next(args, dir, f) is Fail,
        f.is_dir && f.format is None && args.as_version is None && f.current is Err ==> repo_next(
            args,
            dir,
            f,
        ) == RepoActionView::Fail(f.current->Err_0@),
{
}

/// Which of two links takes precedence is told where the skill is linked in the other scope
/// too, and only then.
pub proof fn law_precedence_is_told_with_two_links(
    recorded: bool,
    r: LinkedView,
    slug: Seq<char>,
    scope: Scope,
)
    ensures
        note_due(recorded, r, slug, scope) is Some <==> recorded && exists|i: int|
            0 <= i < r.skills.len() && (#[trigger] r.skills[i]).slug == slug && r.skills[i].scope
                != scope,
{
}

} // verus!
