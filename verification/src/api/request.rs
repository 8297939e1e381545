//! Requests to the API, before they are sent.

use vstd::prelude::*;

use crate::json::{Json, JsonView};

verus! {

/// A request: what to send where.
pub struct ApiRequest {
    pub method: &'static str,
    pub path: String,
    pub query: Vec<(String, String)>,
    pub body: Option<Json>,
    /// The request carries the caller's token.
    pub authenticated: bool,
}

/// A request as a mathematical value.
#[verifier::ext_equal]
pub ghost struct RequestView {
    pub method: Seq<char>,
    pub path: Seq<char>,
    pub query: Seq<(Seq<char>, Seq<char>)>,
    pub body: Option<JsonView>,
    pub authenticated: bool,
}

pub open spec fn pair_views(v: Seq<(String, String)>) -> Seq<(Seq<char>, Seq<char>)> {
    Seq::new(v.len(), |i: int| (v[i].0@, v[i].1@))
}

impl View for ApiRequest {
    type V = RequestView;

    open spec fn view(&self) -> RequestView {
        RequestView {
            method: self.method@,
            path: self.path@,
            query: pair_views(self.query@),
            body: match self.body {
                Some(b) => Some(b.value()),
                None => None,
            },
            authenticated: self.authenticated,
        }
    }
}

/// A request without parameters, with the caller's token.
pub open spec fn plain_request(
    method: Seq<char>,
    path: Seq<char>,
    body: Option<JsonView>,
) -> RequestView {
    RequestView { method, path, query: seq![], body, authenticated: true }
}

/// A request without parameters, with the caller's token.
pub fn request(method: &'static str, path: String, body: Option<Json>) -> (r: ApiRequest)
    ensures
        r@ == plain_request(
            method@,
            path@,
            match body {
                Some(b) => Some(b.value()),
                None => None,
            },
        ),
{
    let r = ApiRequest { method, path, query: Vec::new(), body, authenticated: true };
    assert(r@.query =~= seq![]);
    r
}

/// Adds a parameter to a request.
pub fn with_query(req: ApiRequest, key: &str, value: &str) -> (r: ApiRequest)
    ensures
        r@ == (RequestView { query: req@.query.push((key@, value@)), ..req@ }),
{
    let ghost was = req@;
    let mut r = req;
    r.query.push((key.to_owned(), value.to_owned()));
    assert(r@.query =~= was.query.push((key@, value@)));
    r
}

/// An object with one text in it.
pub open spec fn one_text(key: Seq<char>, value: Seq<char>) -> JsonView {
    JsonView::Object(seq![(key, JsonView::Text(value))])
}

/// An object with two texts in it.
pub open spec fn two_texts(k1: Seq<char>, v1: Seq<char>, k2: Seq<char>, v2: Seq<char>) -> JsonView {
    JsonView::Object(seq![(k1, JsonView::Text(v1)), (k2, JsonView::Text(v2))])
}

/// An object with one text in it.
pub fn one_text_body(key: &str, value: &str) -> (r: Json)
    ensures
        r.value() == one_text(key@, value@),
{
    let mut m: Vec<(String, Json)> = Vec::new();
    m.push((key.to_owned(), Json::text(value)));
    assert(crate::json::member_views(m@) =~= seq![(key@, JsonView::Text(value@))]);
    Json::object(m)
}

/// An object with two texts in it.
pub fn two_text_body(k1: &str, v1: &str, k2: &str, v2: &str) -> (r: Json)
    ensures
        r.value() == two_texts(k1@, v1@, k2@, v2@),
{
    let mut m: Vec<(String, Json)> = Vec::new();
    m.push((k1.to_owned(), Json::text(v1)));
    m.push((k2.to_owned(), Json::text(v2)));
    assert(crate::json::member_views(m@) =~= seq![
        (k1@, JsonView::Text(v1@)),
        (k2@, JsonView::Text(v2@)),
    ]);
    Json::object(m)
}

/// The address of a path of the API.
pub fn url(api_base: &str, path: &str) -> (r: String)
    ensures
        r@ == api_base@ + path@,
{
    crate::errors::prefixed(api_base, path)
}

/// A page of a listing.
#[derive(Debug)]
pub struct Page<T> {
    pub items: Vec<T>,
    pub next_cursor: Option<String>,
}

} // verus!
