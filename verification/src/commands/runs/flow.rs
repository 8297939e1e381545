//! What is asked of the server about runs, one step after the other.
//!
//! Each step follows from what is known: what was not asked yet is not there.

use vstd::prelude::*;

use crate::commands::link::skill_not_found;
use crate::commands::run::{version_error, version_lookup_error};
use crate::commands::runs::list::{
    cloud_list, is_asked, is_dated, is_told, list_query, CloudRun, ListArgs, RunsListQuery,
};
use crate::errors::{copy_error, CliError, ErrorView};
use crate::output::Told;
use crate::slug::{parse_slug_at_version, slug_parts};
use crate::text::{opt_str, opt_str_view, opt_view};
use crate::time::in_calendar;

verus! {

// ---------------------------------------------------------------------------
// The skill
// ---------------------------------------------------------------------------

/// What was found of a skill: its id, if it is there.
pub type FoundSkill = Option<Result<Option<String>, CliError>>;

/// What is done to find the skill that runs are asked about.
#[derive(Debug)]
pub enum SkillStep {
    FindSkill { slug: String },
    /// It is the one with this id.
    Found(String),
    Fail(CliError),
}

/// What is done to find a skill, as a mathematical value.
#[verifier::ext_equal]
pub ghost enum SkillStepView {
    FindSkill(Seq<char>),
    Found(Seq<char>),
    Fail(ErrorView),
}

impl View for SkillStep {
    type V = SkillStepView;

    open spec fn view(&self) -> SkillStepView {
        match self {
            SkillStep::FindSkill { slug } => SkillStepView::FindSkill(slug@),
            SkillStep::Found(id) => SkillStepView::Found(id@),
            SkillStep::Fail(e) => SkillStepView::Fail(e@),
        }
    }
}

/// What is done to find the skill of an argument, which may name a version too.
pub open spec fn skill_next(arg: Seq<char>, found: FoundSkill) -> SkillStepView {
    let slug = slug_parts(arg).0;
    match found {
        None => SkillStepView::FindSkill(slug),
        Some(Err(e)) => SkillStepView::Fail(e@),
        Some(Ok(None)) => SkillStepView::Fail(
            ErrorView::NotFound("skill `"@ + slug + "` not found"@),
        ),
        Some(Ok(Some(id))) => SkillStepView::Found(id@),
    }
}

/// What is done to find the skill that statistics, a trend, a comparison or a listing of
/// runs is asked for.
pub fn skill_step(arg: &str, found: &FoundSkill) -> (r: SkillStep)
    ensures
        r@ == skill_next(arg@, *found),
{
    let (slug, _) = parse_slug_at_version(arg);
    match found {
        None => SkillStep::FindSkill { slug: slug.to_owned() },
        Some(Err(e)) => SkillStep::Fail(copy_error(e)),
        Some(Ok(None)) => SkillStep::Fail(skill_not_found(slug)),
        Some(Ok(Some(id))) => SkillStep::Found(id.clone()),
    }
}

// ---------------------------------------------------------------------------
// A listing
// ---------------------------------------------------------------------------

/// A page of runs.
#[derive(Debug)]
pub struct RunsPage {
    pub items: Vec<CloudRun>,
    /// Where the next page starts.
    pub next_cursor: Option<String>,
}

/// What is known while runs are listed.
#[derive(Debug)]
pub struct ListFacts {
    pub skill: FoundSkill,
    /// The id of the version that is asked for.
    pub version_id: Option<Result<String, CliError>>,
    pub page: Option<Result<RunsPage, CliError>>,
}

/// What is done next while runs are listed.
#[derive(Debug)]
pub enum ListAction {
    FindSkill { slug: String },
    GetVersion { skill_id: String, version: String },
    AskRuns { skill_id: String, query: RunsListQuery },
    Fail(CliError),
    Done(Told),
}

/// The runs are asked for, and listed once they are there.
pub open spec fn page_next(
    args: ListArgs,
    skill_id: Seq<char>,
    version_id: Option<Seq<char>>,
    since: i64,
    until: i64,
    f: ListFacts,
    r: ListAction,
) -> bool {
    match f.page {
        None => r matches ListAction::AskRuns { skill_id: id, query } && id@ == skill_id && is_asked(
            query,
            args,
            since,
            until,
        ),
        Some(Err(e)) => r matches ListAction::Fail(x) && x@ == e@,
        Some(Ok(p)) => r matches ListAction::Done(t) && is_told(
            t,
            args,
            version_id,
            p.items@,
            opt_view(p.next_cursor),
            since,
            until,
        ),
    }
}

/// What is done next while runs are listed: the skill is found, then the version where
/// one is asked for, then the runs.
pub open spec fn list_next(
    args: ListArgs,
    since: i64,
    until: i64,
    f: ListFacts,
    r: ListAction,
) -> bool {
    match skill_next(args.slug@, f.skill) {
        SkillStepView::FindSkill(s) => r matches ListAction::FindSkill { slug } && slug@ == s,
        SkillStepView::Fail(e) => r matches ListAction::Fail(x) && x@ == e,
        SkillStepView::Found(id) => match opt_view(args.version) {
            None => page_next(args, id, None, since, until, f, r),
            Some(v) => match f.version_id {
                None => r matches ListAction::GetVersion { skill_id, version } && skill_id@ == id
                    && version@ == v,
                Some(Err(e)) => r matches ListAction::Fail(x) && x@ == version_error(
                    slug_parts(args.slug@).0,
                    v,
                    e@,
                ),
                Some(Ok(vid)) => page_next(args, id, Some(vid@), since, until, f, r),
            },
        },
    }
}

/// The runs of a page have moments of the calendar.
pub open spec fn page_is_dated(f: ListFacts) -> bool {
    f.page matches Some(Ok(p)) ==> forall|i: int|
        0 <= i < p.items@.len() ==> is_dated(#[trigger] p.items@[i])
}

fn page_step(
    args: &ListArgs,
    skill_id: &str,
    version_id: Option<&str>,
    since: i64,
    until: i64,
    f: &ListFacts,
) -> (r: ListAction)
    requires
        in_calendar(since as int),
        in_calendar(until as int),
        page_is_dated(*f),
    ensures
        page_next(*args, skill_id@, opt_str_view(version_id), since, until, *f, r),
{
    match &f.page {
        None => ListAction::AskRuns {
            skill_id: skill_id.to_owned(),
            query: list_query(args, since, until),
        },
        Some(Err(e)) => ListAction::Fail(copy_error(e)),
        Some(Ok(p)) => ListAction::Done(
            cloud_list(args, version_id, &p.items, opt_str(&p.next_cursor), since, until),
        ),
    }
}

/// What is done next while the runs that the server knows of are listed.
pub fn list_step(args: &ListArgs, since: i64, until: i64, f: &ListFacts) -> (r: ListAction)
    requires
        in_calendar(since as int),
        in_calendar(until as int),
        page_is_dated(*f),
    ensures
        list_next(*args, since, until, *f, r),
{
    match skill_step(args.slug.as_str(), &f.skill) {
        SkillStep::FindSkill { slug } => ListAction::FindSkill { slug },
        SkillStep::Fail(e) => ListAction::Fail(e),
        SkillStep::Found(id) => match &args.version {
            None => page_step(args, id.as_str(), None, since, until, f),
            Some(v) => match &f.version_id {
                None => ListAction::GetVersion { skill_id: id, version: v.clone() },
                Some(Err(e)) => {
                    let (slug, _) = parse_slug_at_version(args.slug.as_str());
                    ListAction::Fail(version_lookup_error(slug, v.as_str(), copy_error(e)))
                },
                Some(Ok(vid)) => page_step(args, id.as_str(), Some(vid.as_str()), since, until, f),
            },
        },
    }
}

/// The server is asked for runs only of a skill that is there, and of a version only
/// where it is there, too.
pub proof fn law_runs_are_asked_of_what_is_there(
    args: ListArgs,
    since: i64,
    until: i64,
    f: ListFacts,
    r: ListAction,
)
    requires
        list_next(args, since, until, f, r),
        r is AskRuns,
    ensures
        f.skill matches Some(Ok(Some(id))) && r->AskRuns_skill_id@ == id@,
        args.version is Some ==> f.version_id matches Some(Ok(_)),
{
}

} // verus!
