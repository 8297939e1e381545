//! User names.

use vstd::prelude::*;

use crate::api::request::{
    one_text, one_text_body, plain_request, request, with_query, ApiRequest, RequestView,
};

verus! {

/// The caller's user name, if there is one.
#[derive(Debug, Clone)]
pub struct UsernameRead {
    pub username: Option<String>,
}

/// Whether a user name can be had.
#[derive(Debug, Clone)]
pub struct UsernameAvailability {
    pub candidate: String,
    pub available: bool,
    pub reason: Option<String>,
}

/// Asks for the caller's user name.
pub fn get_my_username() -> (r: ApiRequest)
    ensures
        r@ == plain_request("GET"@, "/me/username"@, None),
{
    request("GET", "/me/username".to_owned(), None)
}

/// Asks to set the caller's user name.
pub fn put_my_username(username: &str) -> (r: ApiRequest)
    ensures
        r@ == plain_request("PUT"@, "/me/username"@, Some(one_text("username"@, username@))),
{
    request("PUT", "/me/username".to_owned(), Some(one_text_body("username", username)))
}

/// Asks whether a user name can be had.
pub fn check_username(candidate: &str) -> (r: ApiRequest)
    ensures
        r@ == (RequestView {
            query: seq![("candidate"@, candidate@)],
            ..plain_request("GET"@, "/users/check-username"@, None)
        }),
{
    let r = with_query(
        request("GET", "/users/check-username".to_owned(), None),
        "candidate",
        candidate,
    );
    assert(r@.query =~= seq![("candidate"@, candidate@)]);
    r
}

} // verus!
