//! `knack runs overview`: all skills at once.

use vstd::prelude::*;

use crate::api::overview::OverviewQuery;
use crate::commands::mark::{moment, moment_json};
use crate::commands::runs::list::{dash_for_none, number_or_dash, opt_u64, or_dash};
use crate::commands::runs::stats::{ends_day, starts_day};
use crate::commands::runs::{day_text, naive_to_utc, show_day, window_json, window_report};
use crate::errors::{prefixed, CliError, ErrorView};
use crate::github::aggregate::{build_overview, overview_of, SkillOverview};
use crate::github::runs::RunSnapshot;
use crate::json::{
    copy, forms, json_list, member_views, nat_or_null, no_members, opt_nat, text_or_null,
    text_values, with_member, Json, JsonForm, JsonView,
};
use crate::numbers::{decimal, u64_text};
use crate::order::{sort_strings, sorted_texts, viewed};
use crate::output::Told;
use crate::text::{
    concat4, concat7, ellipsized, has_prefix, join_strings, joined, opt_str, opt_view, pad_left,
    pad_right, padded_left, padded_right, push_line, starts_with, truncate, views,
};
use crate::time::in_calendar;

verus! {

/// The arguments of `knack runs overview`.
#[derive(Debug, Clone)]
pub struct OverviewArgs {
    pub since: Option<String>,
    pub until: Option<String>,
    /// Skills with fewer runs are left out.
    pub min_runs: u64,
}

// ---------------------------------------------------------------------------
// The skills of a repository
// ---------------------------------------------------------------------------

/// The names among the first `n` that are not hidden.
pub open spec fn shown_names(names: Seq<Seq<char>>, n: int) -> Seq<Seq<char>>
    decreases n,
{
    if n <= 0 {
        seq![]
    } else if has_prefix(names[n - 1], "."@) {
        shown_names(names, n - 1)
    } else {
        shown_names(names, n - 1).push(names[n - 1])
    }
}

/// The skills of a repository, by the directories below its skills, in order.
pub fn list_local_skills(dirs: &Vec<String>) -> (r: Vec<String>)
    ensures
        views(r@) == sorted_texts(shown_names(views(dirs@), dirs@.len() as int)),
{
    let mut out: Vec<String> = Vec::new();
    let mut i: usize = 0;
    assert(views(out@) =~= seq![]);
    while i < dirs.len()
        invariant
            i <= dirs.len(),
            views(out@) == shown_names(views(dirs@), i as int),
        decreases dirs.len() - i,
    {
        assert(views(dirs@)[i as int] == dirs@[i as int]@);
        if !starts_with(dirs[i].as_str(), ".") {
            let ghost was = views(out@);
            out.push(dirs[i].clone());
            assert(views(out@) =~= was.push(dirs@[i as int]@));
        }
        i += 1;
    }
    sort_strings(out)
}

/// The overview of a skill, where it has runs enough to be told of.
pub fn skill_overview(slug: &str, runs: &Vec<RunSnapshot>, min_runs: u64) -> (r: Option<
    SkillOverview,
>)
    ensures
        ({
            let o = overview_of(slug@, viewed(runs@));
            match r {
                Some(x) => x@ == o && o.runs_total >= min_runs,
                None => o.runs_total < min_runs,
            }
        }),
{
    let o = build_overview(slug, runs);
    if o.runs_total >= min_runs {
        Some(o)
    } else {
        None
    }
}

/// The error of runs that could not be read.
pub fn scan_failed(slug: &str, e: &str) -> (r: CliError)
    ensures
        r@ == ErrorView::Internal("scan runs for `"@ + slug@ + "`: "@ + e@),
{
    CliError::Internal(concat4("scan runs for `", slug, "`: ", e))
}

/// What the server is asked for.
pub fn overview_query(since: i64, until: i64, min_runs: u64) -> (r: OverviewQuery)
    requires
        in_calendar(since as int),
        in_calendar(until as int),
    ensures
        starts_day(r.since, since as int),
        ends_day(r.until, until as int),
        r.min_runs == min_runs,
        r.team_id is None,
{
    OverviewQuery {
        since: Some(naive_to_utc(since, false)),
        until: Some(naive_to_utc(until, true)),
        min_runs,
        team_id: None,
    }
}

// ---------------------------------------------------------------------------
// What is told of skills
// ---------------------------------------------------------------------------

/// A version that does worse than the one before it, with the rates as they are
/// reported.
#[derive(Debug)]
pub struct RatedRegression {
    pub current_version: String,
    pub prior_version: String,
    pub delta: Json,
    pub current_rate: Json,
    pub prior_rate: Json,
}

impl JsonForm for RatedRegression {
    open spec fn json(&self) -> JsonView {
        JsonView::Object(
            seq![
                ("current_version"@, JsonView::Text(self.current_version@)),
                ("prior_version"@, JsonView::Text(self.prior_version@)),
                ("delta_success_rate"@, self.delta.value()),
                ("current_success_rate"@, self.current_rate.value()),
                ("prior_success_rate"@, self.prior_rate.value()),
            ],
        )
    }

    fn to_json(&self) -> (r: Json) {
        let m = with_member(
            no_members(),
            "current_version",
            Json::text(self.current_version.as_str()),
        );
        let m = with_member(m, "prior_version", Json::text(self.prior_version.as_str()));
        let m = with_member(m, "delta_success_rate", copy(&self.delta));
        let m = with_member(m, "current_success_rate", copy(&self.current_rate));
        let m = with_member(m, "prior_success_rate", copy(&self.prior_rate));
        assert(member_views(m@) =~= self.json()->Object_0);
        Json::object(m)
    }
}

/// A skill in an overview, with the rates as they are reported and as people read
/// them.
#[derive(Debug)]
pub struct RatedSkill {
    pub overview: SkillOverview,
    pub rate: Json,
    pub rate_text: String,
    pub regression: Option<RatedRegression>,
    /// The server told of it, and calls the counts by shorter names.
    pub served: bool,
}

/// A regression as it is reported, or nothing.
pub open spec fn regression_json(r: Option<RatedRegression>) -> JsonView {
    match r {
        Some(r) => r.json(),
        None => JsonView::Null,
    }
}

impl JsonForm for RatedSkill {
    open spec fn json(&self) -> JsonView {
        JsonView::Object(
            seq![
                ("slug"@, JsonView::Text(self.overview.slug@)),
                ("current_version"@, text_or_null(opt_view(self.overview.current_version))),
                ("runs_total"@, JsonView::Int(self.overview.runs_total as int)),
                (
                    if self.served {
                        "succeeded"@
                    } else {
                        "runs_succeeded"@
                    },
                    JsonView::Int(self.overview.succeeded as int),
                ),
                (
                    if self.served {
                        "failed"@
                    } else {
                        "runs_failed"@
                    },
                    JsonView::Int(self.overview.failed as int),
                ),
                ("success_rate"@, self.rate.value()),
                ("p50_ms"@, nat_or_null(self.overview.p50_ms)),
                ("p95_ms"@, nat_or_null(self.overview.p95_ms)),
                ("last_run_at"@, moment_json(self.overview.last_run_at)),
                ("regression"@, regression_json(self.regression)),
                ("stale"@, JsonView::Bool(self.overview.stale)),
            ],
        )
    }

    fn to_json(&self) -> (r: Json) {
        let o = &self.overview;
        let regression = match &self.regression {
            Some(r) => r.to_json(),
            None => Json::Null,
        };
        let m = with_member(no_members(), "slug", Json::text(o.slug.as_str()));
        let m = with_member(m, "current_version", Json::opt_text(opt_str(&o.current_version)));
        let m = with_member(m, "runs_total", Json::Nat(o.runs_total));
        let m = if self.served {
            let m = with_member(m, "succeeded", Json::Nat(o.succeeded));
            with_member(m, "failed", Json::Nat(o.failed))
        } else {
            let m = with_member(m, "runs_succeeded", Json::Nat(o.succeeded));
            with_member(m, "runs_failed", Json::Nat(o.failed))
        };
        let m = with_member(m, "success_rate", copy(&self.rate));
        let m = with_member(m, "p50_ms", opt_nat(o.p50_ms));
        let m = with_member(m, "p95_ms", opt_nat(o.p95_ms));
        let m = with_member(m, "last_run_at", moment(&o.last_run_at));
        let m = with_member(m, "regression", regression);
        let m = with_member(m, "stale", Json::Bool(o.stale));
        assert(member_views(m@) =~= self.json()->Object_0);
        Json::object(m)
    }
}

/// How many of the first `n` skills had no runs.
pub open spec fn stale_count(s: Seq<RatedSkill>, n: int) -> nat
    decreases n,
{
    if n <= 0 {
        0
    } else {
        stale_count(s, n - 1) + if s[n - 1].overview.stale {
            1nat
        } else {
            0nat
        }
    }
}

/// The skills among the first `n` whose latest version does worse than the one
/// before it.
pub open spec fn worse_skills(s: Seq<RatedSkill>, n: int) -> Seq<Seq<char>>
    decreases n,
{
    if n <= 0 {
        seq![]
    } else if s[n - 1].regression is Some {
        worse_skills(s, n - 1).push(s[n - 1].overview.slug@)
    } else {
        worse_skills(s, n - 1)
    }
}

/// An overview in short.
pub open spec fn summary_report(s: Seq<RatedSkill>) -> JsonView {
    JsonView::Object(
        seq![
            ("skills_total"@, JsonView::Int(s.len() as int)),
            ("skills_stale"@, JsonView::Int(stale_count(s, s.len() as int) as int)),
            ("regressions"@, JsonView::Array(text_values(worse_skills(s, s.len() as int)))),
        ],
    )
}

fn regressions(skills: &Vec<RatedSkill>) -> (r: Vec<String>)
    ensures
        views(r@) == worse_skills(skills@, skills@.len() as int),
{
    let mut out: Vec<String> = Vec::new();
    let mut i: usize = 0;
    assert(views(out@) =~= seq![]);
    while i < skills.len()
        invariant
            i <= skills.len(),
            views(out@) == worse_skills(skills@, i as int),
        decreases skills.len() - i,
    {
        if skills[i].regression.is_some() {
            let ghost was = views(out@);
            out.push(skills[i].overview.slug.clone());
            assert(views(out@) =~= was.push(skills@[i as int].overview.slug@));
        }
        i += 1;
    }
    out
}

/// An overview in short.
pub fn build_summary(skills: &Vec<RatedSkill>) -> (r: Json)
    ensures
        r.value() == summary_report(skills@),
{
    let mut stale: usize = 0;
    let mut i: usize = 0;
    while i < skills.len()
        invariant
            i <= skills.len(),
            stale <= i,
            stale == stale_count(skills@, i as int),
        decreases skills.len() - i,
    {
        if skills[i].overview.stale {
            stale += 1;
        }
        i += 1;
    }
    let worse = regressions(skills);
    let m = with_member(no_members(), "skills_total", Json::Nat(skills.len() as u64));
    let m = with_member(m, "skills_stale", Json::Nat(stale as u64));
    let m = with_member(m, "regressions", Json::texts(&worse));
    assert(member_views(m@) =~= summary_report(skills@)->Object_0);
    Json::object(m)
}

/// What is reported of skills.
pub open spec fn overview_report(
    backend: Seq<char>,
    s: Seq<RatedSkill>,
    since: int,
    until: int,
) -> JsonView {
    JsonView::Object(
        seq![
            ("backend"@, JsonView::Text(backend)),
            ("window"@, window_report(since, until)),
            ("skills"@, JsonView::Array(forms(s))),
            ("summary"@, summary_report(s)),
        ],
    )
}

/// What a skill is flagged with: that it got worse comes before that it is stale.
pub open spec fn flag_of(s: RatedSkill) -> Seq<char> {
    if s.regression is Some {
        " REGRESSION"@
    } else if s.overview.stale {
        " stale"@
    } else {
        ""@
    }
}

/// The line of a table of skills.
pub open spec fn skill_cells(
    slug: Seq<char>,
    version: Seq<char>,
    runs: Seq<char>,
    rate: Seq<char>,
    p50: Seq<char>,
) -> Seq<char> {
    padded_right(slug, 24) + " "@ + padded_left(version, 10) + " "@ + padded_left(runs, 7) + " "@
        + padded_left(rate, 9) + " "@ + padded_left(p50, 8)
}

fn cells(slug: &str, version: &str, runs: &str, rate: &str, p50: &str) -> (r: String)
    ensures
        r@ == skill_cells(slug@, version@, runs@, rate@, p50@),
{
    let slug = pad_right(slug, 24);
    let version = pad_left(version, 10);
    let runs = pad_left(runs, 7);
    let rate = pad_left(rate, 9);
    let p50 = pad_left(p50, 8);
    let mut r = concat7(slug.as_str(), " ", version.as_str(), " ", runs.as_str(), " ", rate.as_str());
    r.append(" ");
    r.append(p50.as_str());
    r
}

/// The line of a skill.
pub open spec fn skill_row(s: RatedSkill) -> Seq<char> {
    skill_cells(
        ellipsized(s.overview.slug@, 24),
        or_dash(opt_view(s.overview.current_version)),
        decimal(s.overview.runs_total as nat),
        s.rate_text@,
        number_or_dash(s.overview.p50_ms),
    ) + flag_of(s)
}

fn show_skill(s: &RatedSkill) -> (r: String)
    ensures
        r@ == skill_row(*s),
{
    let slug = truncate(s.overview.slug.as_str(), 24);
    let runs = u64_text(s.overview.runs_total);
    let p50 = opt_u64(s.overview.p50_ms);
    let mut r = cells(
        slug.as_str(),
        dash_for_none(&s.overview.current_version),
        runs.as_str(),
        s.rate_text.as_str(),
        p50.as_str(),
    );
    if s.regression.is_some() {
        r.append(" REGRESSION");
    } else if s.overview.stale {
        r.append(" stale");
    } else {
        r.append("");
    }
    r
}

/// What people are told of skills.
pub open spec fn overview_text(
    nothing: Seq<char>,
    s: Seq<RatedSkill>,
    since: int,
    until: int,
) -> Seq<Seq<char>> {
    if s.len() == 0 {
        seq![nothing]
    } else {
        let table = seq![
            "overview · "@ + day_text(since) + " → "@ + day_text(until),
            ""@,
            skill_cells("skill"@, "version"@, "runs"@, "rate"@, "p50(ms)"@) + " flags"@,
        ] + Seq::new(s.len(), |i: int| skill_row(s[i]));
        let worse = worse_skills(s, s.len() as int);
        if worse.len() > 0 {
            table.push(""@).push("regressions: "@ + joined(worse, ", "@))
        } else {
            table.push(""@)
        }
    }
}

/// Tells people of skills. `nothing` is what they are told where there are none.
pub fn render_overview(nothing: &str, skills: &Vec<RatedSkill>, since: i64, until: i64) -> (r: Vec<
    String,
>)
    ensures
        views(r@) == overview_text(nothing@, skills@, since as int, until as int),
{
    let mut out: Vec<String> = Vec::new();
    assert(views(out@) =~= seq![]);
    if skills.len() == 0 {
        push_line(&mut out, nothing.to_owned());
        assert(views(out@) =~= seq![nothing@]);
        return out;
    }
    let a = show_day(since);
    let b = show_day(until);
    push_line(&mut out, concat4("overview · ", a.as_str(), " → ", b.as_str()));
    push_line(&mut out, "".to_owned());
    let mut head = cells("skill", "version", "runs", "rate", "p50(ms)");
    head.append(" flags");
    push_line(&mut out, head);
    let ghost start = views(out@);
    let mut i: usize = 0;
    assert(views(out@) =~= start + Seq::new(0, |j: int| skill_row(skills@[j])));
    while i < skills.len()
        invariant
            i <= skills.len(),
            views(out@) == start + Seq::new(i as nat, |j: int| skill_row(skills@[j])),
        decreases skills.len() - i,
    {
        push_line(&mut out, show_skill(&skills[i]));
        i += 1;
        assert(views(out@) =~= start + Seq::new(i as nat, |j: int| skill_row(skills@[j])));
    }
    push_line(&mut out, "".to_owned());
    let worse = regressions(skills);
    assert(views(worse@).len() == worse@.len());
    if worse.len() > 0 {
        let list = join_strings(&worse, ", ");
        push_line(&mut out, prefixed("regressions: ", list.as_str()));
    }
    assert(views(out@) =~= overview_text(nothing@, skills@, since as int, until as int));
    out
}

/// Tells of the skills of a repository, or of those that the server knows of.
pub fn overview_told(github: bool, skills: &Vec<RatedSkill>, since: i64, until: i64) -> (r: Told)
    ensures
        r.report.value() == overview_report(
            if github {
                "github"@
            } else {
                "cloud"@
            },
            skills@,
            since as int,
            until as int,
        ),
        views(r.lines@) == overview_text(
            if github {
                "no skills under the local clone"@
            } else {
                "no skills"@
            },
            skills@,
            since as int,
            until as int,
        ),
{
    let backend = if github {
        "github"
    } else {
        "cloud"
    };
    let nothing = if github {
        "no skills under the local clone"
    } else {
        "no skills"
    };
    let m = with_member(no_members(), "backend", Json::text(backend));
    let m = with_member(m, "window", window_json(since, until));
    let m = with_member(m, "skills", json_list(skills));
    let m = with_member(m, "summary", build_summary(skills));
    assert(member_views(m@) =~= overview_report(
        backend@,
        skills@,
        since as int,
        until as int,
    )->Object_0);
    Told { report: Json::object(m), lines: render_overview(nothing, skills, since, until) }
}

/// No hidden directory is taken for a skill, and no other one is left out.
pub proof fn law_hidden_directories_are_no_skills(names: Seq<Seq<char>>, n: int, x: Seq<char>)
    requires
        0 <= n <= names.len(),
    ensures
        shown_names(names, n).contains(x) <==> names.take(n).contains(x) && !has_prefix(x, "."@),
    decreases n,
{
    let shown = shown_names(names, n);
    if n > 0 {
        law_hidden_directories_are_no_skills(names, n - 1, x);
        let before = names.take(n - 1);
        let now = names.take(n);
        assert(now =~= before.push(names[n - 1]));
        if before.contains(x) {
            let j = choose|j: int| 0 <= j < before.len() && before[j] == x;
            assert(now[j] == x);
        }
        if x == names[n - 1] {
            assert(now[n - 1] == x);
            if !has_prefix(x, "."@) {
                assert(shown[shown.len() - 1] == x);
            }
        }
        let was = shown_names(names, n - 1);
        if was.contains(x) {
            let j = choose|j: int| 0 <= j < was.len() && was[j] == x;
            assert(shown[j] == x);
        }
    }
}

} // verus!
