//! `knack rate`: stars for a skill.

use vstd::prelude::*;

use crate::errors::{copy_error, user_error, CliError, ErrorView};
use crate::json::{copy, member_views, no_members, text_or_null, with_member, Json, JsonView};
use crate::numbers::{decimal, u64_text};
use crate::output::Told;
use crate::text::{concat5, opt_owned, opt_str, opt_view, views};

verus! {

/// The arguments of `knack rate`.
#[derive(Debug, Clone)]
pub struct RateArgs {
    pub slug: String,
    /// One to five.
    pub stars: Option<u8>,
    pub review: Option<String>,
    /// Take the rating back.
    pub clear: bool,
}

/// What is done about a rating.
#[derive(Debug)]
pub enum RateAction {
    Clear,
    Rate { stars: u8, review: Option<String> },
}

/// What is done about a rating: stars have to be given, unless it is taken back.
pub fn rate_action(args: &RateArgs) -> (r: Result<RateAction, CliError>)
    ensures
        if args.clear {
            r is Ok && r->Ok_0 is Clear
        } else {
            match args.stars {
                Some(n) => r is Ok && (r->Ok_0 matches RateAction::Rate { stars, review } && stars == n
                    && opt_view(review) == opt_view(args.review)),
                None => r is Err && r->Err_0@ == (ErrorView::User {
                    code: "RATE_NO_STARS"@,
                    message: "pass a 1-5 star value, or --clear to remove your rating"@,
                    hint: None,
                }),
            }
        },
{
    if args.clear {
        return Ok(RateAction::Clear);
    }
    match args.stars {
        Some(stars) => Ok(RateAction::Rate { stars, review: opt_owned(opt_str(&args.review)) }),
        None => Err(
            user_error(
                "RATE_NO_STARS",
                "pass a 1-5 star value, or --clear to remove your rating".to_owned(),
            ),
        ),
    }
}

/// What is reported of a rating that was taken back.
pub fn cleared_json(slug: &str) -> (r: Json)
    ensures
        r.value() == JsonView::Object(
            seq![("slug"@, JsonView::Text(slug@)), ("cleared"@, JsonView::Bool(true))],
        ),
{
    let m = with_member(no_members(), "slug", Json::text(slug));
    let m = with_member(m, "cleared", Json::Bool(true));
    assert(member_views(m@) =~= seq![
        ("slug"@, JsonView::Text(slug@)),
        ("cleared"@, JsonView::Bool(true)),
    ]);
    Json::object(m)
}

/// What is known while a skill is rated. What was not asked for yet is not there.
#[derive(Debug)]
pub struct RateFacts {
    /// The id of the skill, if it was found.
    pub skill: Option<Result<Option<String>, CliError>>,
    pub done: Option<Result<(), CliError>>,
}

/// What is done next.
#[derive(Debug)]
pub enum RateStep {
    Fail(CliError),
    FindSkill(String),
    /// Send what is done about the rating of the skill with the id.
    Send(String, RateAction),
    Done,
}

/// What is done next, as a mathematical value.
pub ghost enum RateView {
    Fail(ErrorView),
    FindSkill(Seq<char>),
    Clear(Seq<char>),
    Rate { id: Seq<char>, stars: int, review: Option<Seq<char>> },
    Done,
}

impl View for RateStep {
    type V = RateView;

    open spec fn view(&self) -> RateView {
        match *self {
            RateStep::Fail(e) => RateView::Fail(e@),
            RateStep::FindSkill(slug) => RateView::FindSkill(slug@),
            RateStep::Send(id, RateAction::Clear) => RateView::Clear(id@),
            RateStep::Send(id, RateAction::Rate { stars, review }) => RateView::Rate {
                id: id@,
                stars: stars as int,
                review: opt_view(review),
            },
            RateStep::Done => RateView::Done,
        }
    }
}

/// What is done next while a skill is rated.
pub open spec fn rate_next(args: RateArgs, f: RateFacts) -> RateView {
    if !args.clear && args.stars is None {
        RateView::Fail(
            ErrorView::User {
                code: "RATE_NO_STARS"@,
                message: "pass a 1-5 star value, or --clear to remove your rating"@,
                hint: None,
            },
        )
    } else {
        match f.skill {
            None => RateView::FindSkill(args.slug@),
            Some(Err(e)) => RateView::Fail(e@),
            Some(Ok(None)) => RateView::Fail(
                ErrorView::NotFound("skill `"@ + args.slug@ + "` not found"@),
            ),
            Some(Ok(Some(id))) => match f.done {
                None => if args.clear {
                    RateView::Clear(id@)
                } else {
                    RateView::Rate {
                        id: id@,
                        stars: args.stars->0 as int,
                        review: opt_view(args.review),
                    }
                },
                Some(Err(e)) => RateView::Fail(e@),
                Some(Ok(_)) => RateView::Done,
            },
        }
    }
}

/// What is done next while a skill is rated.
pub fn run(args: &RateArgs, f: &RateFacts) -> (r: RateStep)
    ensures
        r@ == rate_next(*args, *f),
{
    let action = match rate_action(args) {
        Ok(a) => a,
        Err(e) => {
            return RateStep::Fail(e);
        },
    };
    match &f.skill {
        None => RateStep::FindSkill(args.slug.clone()),
        Some(Err(e)) => RateStep::Fail(copy_error(e)),
        Some(Ok(None)) => RateStep::Fail(
            crate::commands::link::skill_not_found(args.slug.as_str()),
        ),
        Some(Ok(Some(id))) => match &f.done {
            None => RateStep::Send(id.clone(), action),
            Some(Err(e)) => RateStep::Fail(copy_error(e)),
            Some(Ok(_)) => RateStep::Done,
        },
    }
}

/// What people are told of a rating that was taken back.
pub fn cleared_line(slug: &str) -> (r: String)
    ensures
        r@ == "✓ cleared your rating for "@ + slug@,
{
    crate::errors::prefixed("✓ cleared your rating for ", slug)
}

/// A rating as the server keeps it, with the average of all ratings as a value and as
/// text.
#[derive(Debug)]
pub struct Rated {
    pub stars: u8,
    pub review: Option<String>,
    pub average: Json,
    pub average_text: String,
    pub count: u64,
}

/// What is reported of a rating.
pub open spec fn rated_report(slug: Seq<char>, x: Rated) -> JsonView {
    JsonView::Object(
        seq![
            ("slug"@, JsonView::Text(slug)),
            ("stars"@, JsonView::Int(x.stars as int)),
            ("review"@, text_or_null(opt_view(x.review))),
            (
                "summary"@,
                JsonView::Object(
                    seq![
                        ("avg_stars"@, x.average.value()),
                        ("count"@, JsonView::Int(x.count as int)),
                    ],
                ),
            ),
        ],
    )
}

/// What people are told of a rating.
pub open spec fn rated_line(slug: Seq<char>, x: Rated) -> Seq<char> {
    "✓ "@ + slug + " rated "@ + decimal(x.stars as nat) + "★ — community avg now "@
        + x.average_text@ + " over "@ + decimal(x.count as nat) + " rating(s)"@
}

/// What is told of a rating.
pub fn rated(slug: &str, x: &Rated) -> (r: Told)
    ensures
        r.report.value() == rated_report(slug@, *x),
        views(r.lines@) == seq![rated_line(slug@, *x)],
{
    let s = with_member(no_members(), "avg_stars", copy(&x.average));
    let s = with_member(s, "count", Json::Nat(x.count));
    assert(member_views(s@) =~= seq![
        ("avg_stars"@, x.average.value()),
        ("count"@, JsonView::Int(x.count as int)),
    ]);
    let m = with_member(no_members(), "slug", Json::text(slug));
    let m = with_member(m, "stars", Json::Nat(x.stars as u64));
    let m = with_member(m, "review", Json::opt_text(opt_str(&x.review)));
    let m = with_member(m, "summary", Json::object(s));
    assert(member_views(m@) =~= rated_report(slug@, *x)->Object_0);
    let stars = u64_text(x.stars as u64);
    let count = u64_text(x.count);
    let mut line = concat5("✓ ", slug, " rated ", stars.as_str(), "★ — community avg now ");
    line.append(x.average_text.as_str());
    line.append(" over ");
    line.append(count.as_str());
    line.append(" rating(s)");
    let mut lines: Vec<String> = Vec::new();
    lines.push(line);
    assert(views(lines@) =~= seq![rated_line(slug@, *x)]);
    Told { report: Json::object(m), lines }
}

} // verus!
