//! The marketplace and its ratings.

use vstd::prelude::*;

use crate::api::request::{plain_request, request, with_query, ApiRequest, RequestView};
use crate::errors::prefixed;
use crate::json::{member_views, present, push_member, record, Json, JsonView};
use crate::numbers::{decimal, u64_text};
use crate::text::opt_str_view;

verus! {

/// Who published a skill.
#[derive(Debug, Clone)]
pub struct MarketplaceAuthor {
    pub username: String,
    pub display_name: Option<String>,
}

/// A rating.
#[derive(Debug, Clone)]
pub struct RatingRead {
    pub stars: u8,
    pub review: Option<String>,
}

/// The parameters of a search.
pub open spec fn search_query(q: Option<Seq<char>>, sort: Seq<char>, limit: nat) -> Seq<
    (Seq<char>, Seq<char>),
> {
    let s = seq![("sort"@, sort), ("limit"@, decimal(limit))];
    match q {
        Some(q) => s.push(("q"@, q)),
        None => s,
    }
}

/// Asks for skills in the marketplace.
pub fn search(q: Option<&str>, sort: &str, limit: u32) -> (r: ApiRequest)
    ensures
        r@ == (RequestView {
            query: search_query(opt_str_view(q), sort@, limit as nat),
            ..plain_request("GET"@, "/marketplace/skills"@, None)
        }),
{
    let n = u64_text(limit as u64);
    let r = request("GET", "/marketplace/skills".to_owned(), None);
    let r = with_query(with_query(r, "sort", sort), "limit", n.as_str());
    let r = match q {
        Some(q) => with_query(r, "q", q),
        None => r,
    };
    assert(r@.query =~= search_query(opt_str_view(q), sort@, limit as nat));
    r
}

/// What is sent to rate a skill.
pub open spec fn rating_fields(stars: nat, review: Option<Seq<char>>) -> Seq<
    (Seq<char>, Option<JsonView>),
> {
    seq![
        ("stars"@, Some(JsonView::Int(stars as int))),
        (
            "review"@,
            match review {
                Some(t) => Some(JsonView::Text(t)),
                None => None,
            },
        ),
    ]
}

/// Asks to rate a skill.
pub fn rate(skill_id: &str, stars: u8, review: Option<&str>) -> (r: ApiRequest)
    ensures
        r@ == plain_request(
            "POST"@,
            "/skills/"@ + skill_id@ + "/ratings"@,
            Some(record(rating_fields(stars as nat, opt_str_view(review)))),
        ),
{
    let mut m: Vec<(String, Json)> = Vec::new();
    proof {
        reveal_with_fuel(present, 3);
        assert(member_views(m@) =~= seq![]);
    }
    push_member(&mut m, "stars", Some(Json::Nat(stars as u64)));
    let text = match review {
        Some(t) => Some(Json::text(t)),
        None => None,
    };
    push_member(&mut m, "review", text);
    let body = Json::object(m);
    assert(body.value() == record(rating_fields(stars as nat, opt_str_view(review))));
    let mut path = prefixed("/skills/", skill_id);
    path.append("/ratings");
    request("POST", path, Some(body))
}

/// Asks to take the caller's rating back.
pub fn clear_rating(skill_id: &str) -> (r: ApiRequest)
    ensures
        r@ == plain_request("DELETE"@, "/skills/"@ + skill_id@ + "/ratings/mine"@, None),
{
    let mut path = prefixed("/skills/", skill_id);
    path.append("/ratings/mine");
    request("DELETE", path, None)
}

} // verus!
