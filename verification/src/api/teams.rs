//! Teams.

use vstd::prelude::*;

use crate::api::request::{
    one_text, one_text_body, plain_request, request, two_text_body, two_texts, ApiRequest,
};
use crate::errors::{prefixed, CliError, ErrorView};
use crate::text::{chars_of, same};

verus! {

/// A team.
#[derive(Debug, Clone)]
pub struct Team {
    pub id: String,
    pub name: String,
    pub slug: String,
    pub plan: String,
}

/// An invitation into a team.
#[derive(Debug, Clone)]
pub struct Invite {
    pub id: String,
    pub team_id: String,
    pub email: String,
    pub role: String,
    pub status: String,
    pub invite_token: Option<String>,
}

/// Asks for the caller's teams.
pub fn list_my() -> (r: ApiRequest)
    ensures
        r@ == plain_request("GET"@, "/teams"@, None),
{
    request("GET", "/teams".to_owned(), None)
}

/// Asks to make a team.
pub fn create(name: &str, slug: &str) -> (r: ApiRequest)
    ensures
        r@ == plain_request("POST"@, "/teams"@, Some(two_texts("name"@, name@, "slug"@, slug@))),
{
    request("POST", "/teams".to_owned(), Some(two_text_body("name", name, "slug", slug)))
}

/// Asks for a team.
pub fn get(team_id: &str) -> (r: ApiRequest)
    ensures
        r@ == plain_request("GET"@, "/teams/"@ + team_id@, None),
{
    request("GET", prefixed("/teams/", team_id), None)
}

/// Asks to invite someone into a team.
pub fn invite(team_id: &str, email: &str, role: &str) -> (r: ApiRequest)
    ensures
        r@ == plain_request(
            "POST"@,
            "/teams/"@ + team_id@ + "/invites"@,
            Some(two_texts("email"@, email@, "role"@, role@)),
        ),
{
    let mut path = prefixed("/teams/", team_id);
    path.append("/invites");
    request("POST", path, Some(two_text_body("email", email, "role", role)))
}

/// Asks to accept an invitation.
pub fn accept(invite_token: &str) -> (r: ApiRequest)
    ensures
        r@ == plain_request(
            "POST"@,
            "/teams/invites/accept"@,
            Some(one_text("invite_token"@, invite_token@)),
        ),
{
    request(
        "POST",
        "/teams/invites/accept".to_owned(),
        Some(one_text_body("invite_token", invite_token)),
    )
}

/// Asks to give a member of a team another role.
pub fn set_role(team_id: &str, user_id: &str, role: &str) -> (r: ApiRequest)
    ensures
        r@ == plain_request(
            "PATCH"@,
            "/teams/"@ + team_id@ + "/memberships/"@ + user_id@,
            Some(one_text("role"@, role@)),
        ),
{
    let mut path = prefixed("/teams/", team_id);
    path.append("/memberships/");
    path.append(user_id);
    request("PATCH", path, Some(one_text_body("role", role)))
}

/// How many of the first `n` characters are dashes.
pub open spec fn dashes(s: Seq<char>, n: int) -> nat
    decreases n,
{
    if n <= 0 {
        0
    } else {
        dashes(s, n - 1) + if s[n - 1] == '-' {
            1nat
        } else {
            0nat
        }
    }
}

/// The text has the shape of an id: thirty-six bytes and four dashes.
pub open spec fn id_shaped(s: Seq<char>) -> bool {
    vstd::utf8::encode_utf8(s).len() == 36 && dashes(s, s.len() as int) == 4
}

/// Whether a team is asked for by its id, and not by its name.
pub fn looks_like_uuid(s: &str) -> (r: bool)
    ensures
        r == id_shaped(s@),
{
    let v = chars_of(s);
    let mut n: usize = 0;
    let mut i: usize = 0;
    while i < v.len()
        invariant
            i <= v.len(),
            v@ == s@,
            n == dashes(s@, i as int),
            n <= i,
        decreases v.len() - i,
    {
        if v[i] == '-' {
            n += 1;
        }
        i += 1;
    }
    s.as_bytes().len() == 36 && n == 4
}

/// The position, from `from` on, of the first team with the short name or the name.
pub open spec fn team_index(teams: Seq<Team>, name: Seq<char>, from: int) -> Option<int>
    decreases teams.len() - from,
{
    if from < 0 || from >= teams.len() {
        None
    } else if teams[from].slug@ == name || teams[from].name@ == name {
        Some(from)
    } else {
        team_index(teams, name, from + 1)
    }
}

/// The team with the short name or the name, among the caller's.
pub fn resolve<'a>(teams: &'a Vec<Team>, name: &str) -> (r: Result<&'a Team, CliError>)
    ensures
        match team_index(teams@, name@, 0) {
            Some(i) => r is Ok && *r->Ok_0 == teams@[i],
            None => r is Err && r->Err_0@ == ErrorView::NotFound("team `"@ + name@ + "` not found"@),
        },
{
    let mut i: usize = 0;
    while i < teams.len()
        invariant
            i <= teams.len(),
            team_index(teams@, name@, 0) == team_index(teams@, name@, i as int),
        decreases teams.len() - i,
    {
        if same(teams[i].slug.as_str(), name) || same(teams[i].name.as_str(), name) {
            return Ok(&teams[i]);
        }
        i += 1;
    }
    let mut m = prefixed("team `", name);
    m.append("` not found");
    Err(CliError::NotFound(m))
}

} // verus!
