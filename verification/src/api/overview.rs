//! The overview over all skills.

use vstd::prelude::*;

use crate::api::request::{plain_request, request, with_query, ApiRequest, RequestView};
use crate::numbers::{decimal, u64_text};
use crate::text::{opt_str, opt_view};
use crate::time::{offset_rendered, render_with_offset, Timestamp};

verus! {

/// What an overview is asked for.
#[derive(Debug, Clone)]
pub struct OverviewQuery {
    pub since: Option<Timestamp>,
    pub until: Option<Timestamp>,
    pub min_runs: u64,
    /// Only the skills of this team.
    pub team_id: Option<String>,
}

impl Default for OverviewQuery {
    fn default() -> (r: OverviewQuery)
        ensures
            r.since is None,
            r.until is None,
            r.min_runs == 0,
            r.team_id is None,
    {
        OverviewQuery { since: None, until: None, min_runs: 0, team_id: None }
    }
}

/// A moment as the value of a parameter, left out where there is none, or where it
/// cannot be written.
pub open spec fn moment_text(t: Option<Timestamp>) -> Option<Seq<char>> {
    match t {
        Some(t) => offset_rendered(t),
        None => None,
    }
}

pub open spec fn added(
    s: Seq<(Seq<char>, Seq<char>)>,
    key: Seq<char>,
    value: Option<Seq<char>>,
) -> Seq<(Seq<char>, Seq<char>)> {
    match value {
        Some(v) => s.push((key, v)),
        None => s,
    }
}

/// The parameters of an overview.
pub open spec fn overview_query(
    min_runs: nat,
    since: Option<Seq<char>>,
    until: Option<Seq<char>>,
    team_id: Option<Seq<char>>,
) -> Seq<(Seq<char>, Seq<char>)> {
    let s = seq![("min_runs"@, decimal(min_runs))];
    added(added(added(s, "since"@, since), "until"@, until), "team_id"@, team_id)
}

fn add_opt(req: ApiRequest, key: &str, value: Option<&str>) -> (r: ApiRequest)
    ensures
        r@ == (RequestView {
            query: added(req@.query, key@, crate::text::opt_str_view(value)),
            ..req@
        }),
{
    match value {
        Some(v) => with_query(req, key, v),
        None => req,
    }
}

/// Asks for the overview, with its moments as text.
pub fn overview_request(
    min_runs: u64,
    since: Option<&str>,
    until: Option<&str>,
    team_id: Option<&str>,
) -> (r: ApiRequest)
    ensures
        r@ == (RequestView {
            query: overview_query(
                min_runs as nat,
                crate::text::opt_str_view(since),
                crate::text::opt_str_view(until),
                crate::text::opt_str_view(team_id),
            ),
            ..plain_request("GET"@, "/runs/overview"@, None)
        }),
{
    let n = u64_text(min_runs);
    let r = with_query(request("GET", "/runs/overview".to_owned(), None), "min_runs", n.as_str());
    assert(r@.query =~= seq![("min_runs"@, decimal(min_runs as nat))]);
    add_opt(add_opt(add_opt(r, "since", since), "until", until), "team_id", team_id)
}

/// Asks for the overview.
pub fn get_overview(q: &OverviewQuery) -> (r: ApiRequest)
    ensures
        r@ == (RequestView {
            query: overview_query(
                q.min_runs as nat,
                moment_text(q.since),
                moment_text(q.until),
                opt_view(q.team_id),
            ),
            ..plain_request("GET"@, "/runs/overview"@, None)
        }),
{
    let since = match &q.since {
        Some(t) => render_with_offset(t),
        None => None,
    };
    let until = match &q.until {
        Some(t) => render_with_offset(t),
        None => None,
    };
    overview_request(q.min_runs, opt_str(&since), opt_str(&until), opt_str(&q.team_id))
}

} // verus!
