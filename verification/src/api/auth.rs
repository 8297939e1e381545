//! Signing in, and the tokens of the command line.

use vstd::prelude::*;

use crate::api::request::{
    one_text, one_text_body, plain_request, request, ApiRequest, RequestView,
};
use crate::errors::prefixed;
use crate::json::{
    member_views, present, push_member, record, text_or_null, text_values, Json, JsonView,
};
use crate::text::{opt_str_view, views};
use crate::time::Timestamp;

verus! {

/// The start of signing in on another device.
#[derive(Debug, Clone)]
pub struct DeviceAuthStart {
    pub device_code: String,
    pub user_code: String,
    pub verification_uri: String,
    pub expires_in: i64,
    pub interval: u64,
}

/// The question whether signing in is done.
#[derive(Debug, Clone)]
pub struct DevicePollRequest<'a> {
    pub device_code: &'a str,
}

/// The answer whether signing in is done.
#[derive(Debug, Clone)]
pub struct DevicePollResponse {
    pub status: PollStatus,
    pub access_token: Option<String>,
    pub refresh_token: Option<String>,
    pub expires_in: Option<i64>,
}

/// How far signing in has come.
#[derive(Debug, Clone, Copy, PartialEq, Eq, Structural)]
pub enum PollStatus {
    AuthorizationPending,
    Approved,
    Denied,
    Expired,
    SlowDown,
}

/// The name of a status in an answer.
pub open spec fn poll_status_name(s: PollStatus) -> Seq<char> {
    match s {
        PollStatus::AuthorizationPending => "authorization_pending"@,
        PollStatus::Approved => "approved"@,
        PollStatus::Denied => "denied"@,
        PollStatus::Expired => "expired"@,
        PollStatus::SlowDown => "slow_down"@,
    }
}

impl PollStatus {
    /// The name of the status in an answer.
    pub fn as_str(self) -> (r: &'static str)
        ensures
            r@ == poll_status_name(self),
    {
        match self {
            PollStatus::AuthorizationPending => "authorization_pending",
            PollStatus::Approved => "approved",
            PollStatus::Denied => "denied",
            PollStatus::Expired => "expired",
            PollStatus::SlowDown => "slow_down",
        }
    }
}

/// Who is signed in.
#[derive(Debug, Clone)]
pub struct Me {
    pub id: String,
    pub email: String,
    pub name: Option<String>,
    pub plan: String,
    pub auth_method: String,
}

/// A token that was made.
#[derive(Debug, Clone)]
pub struct CreateCliTokenResponse {
    pub id: String,
    pub name: String,
    pub plaintext: String,
    pub prefix: String,
    pub created_at: Timestamp,
    pub expires_at: Option<Timestamp>,
    pub scopes: Vec<String>,
}

/// Asks to start signing in.
pub fn device_start() -> (r: ApiRequest)
    ensures
        r@ == (RequestView {
            authenticated: false,
            ..plain_request("POST"@, "/auth/device/start"@, None)
        }),
{
    let mut r = request("POST", "/auth/device/start".to_owned(), None);
    r.authenticated = false;
    r
}

/// Asks whether signing in is done.
pub fn device_poll(req: &DevicePollRequest) -> (r: ApiRequest)
    ensures
        r@ == (RequestView {
            authenticated: false,
            ..plain_request(
                "POST"@,
                "/auth/device/poll"@,
                Some(one_text("device_code"@, req.device_code@)),
            )
        }),
{
    let mut r = request(
        "POST",
        "/auth/device/poll".to_owned(),
        Some(one_text_body("device_code", req.device_code)),
    );
    r.authenticated = false;
    r
}

/// Asks who is signed in.
pub fn me() -> (r: ApiRequest)
    ensures
        r@ == plain_request("GET"@, "/auth/me"@, None),
{
    request("GET", "/auth/me".to_owned(), None)
}

/// Asks to sign out.
pub fn logout(refresh_token: Option<&str>) -> (r: ApiRequest)
    ensures
        r@ == plain_request(
            "POST"@,
            "/auth/logout"@,
            Some(
                JsonView::Object(
                    seq![("refresh_token"@, text_or_null(opt_str_view(refresh_token)))],
                ),
            ),
        ),
{
    let mut m: Vec<(String, Json)> = Vec::new();
    m.push(("refresh_token".to_owned(), Json::opt_text(refresh_token)));
    assert(member_views(m@) =~= seq![
        ("refresh_token"@, text_or_null(opt_str_view(refresh_token))),
    ]);
    request("POST", "/auth/logout".to_owned(), Some(Json::object(m)))
}

/// An integer as a value.
pub open spec fn int_json(n: Option<i64>) -> Option<JsonView> {
    match n {
        Some(n) => Some(JsonView::Int(n as int)),
        None => None,
    }
}

/// What is sent to make a token: a lifetime where there is one, that it never
/// expires where it does not, and its scopes where there are any.
pub open spec fn token_fields(
    name: Seq<char>,
    days: Option<i64>,
    never: bool,
    scopes: Seq<Seq<char>>,
) -> Seq<(Seq<char>, Option<JsonView>)> {
    seq![
        ("name"@, Some(JsonView::Text(name))),
        ("expires_in_days"@, int_json(days)),
        (
            "never_expire"@,
            if never {
                Some(JsonView::Bool(true))
            } else {
                None
            },
        ),
        (
            "scopes"@,
            if scopes.len() == 0 {
                None
            } else {
                Some(JsonView::Array(text_values(scopes)))
            },
        ),
    ]
}

/// Asks to make a token.
pub fn create_cli_token(
    name: &str,
    expires_in_days: Option<i64>,
    never_expire: bool,
    scopes: &Vec<String>,
) -> (r: ApiRequest)
    ensures
        r@ == plain_request(
            "POST"@,
            "/me/cli-tokens"@,
            Some(record(token_fields(name@, expires_in_days, never_expire, views(scopes@)))),
        ),
{
    let ghost f = token_fields(name@, expires_in_days, never_expire, views(scopes@));
    let mut m: Vec<(String, Json)> = Vec::new();
    proof {
        reveal_with_fuel(present, 5);
        assert(member_views(m@) =~= seq![]);
    }
    push_member(&mut m, "name", Some(Json::text(name)));
    let days = match expires_in_days {
        Some(n) => Some(Json::Neg(n)),
        None => None,
    };
    push_member(&mut m, "expires_in_days", days);
    let never = if never_expire {
        Some(Json::Bool(true))
    } else {
        None
    };
    push_member(&mut m, "never_expire", never);
    let list = if scopes.len() == 0 {
        None
    } else {
        Some(Json::texts(scopes))
    };
    push_member(&mut m, "scopes", list);
    let body = Json::object(m);
    assert(body.value() == record(f));
    request("POST", "/me/cli-tokens".to_owned(), Some(body))
}

/// Asks to revoke a token.
pub fn revoke_cli_token(token_id: &str) -> (r: ApiRequest)
    ensures
        r@ == plain_request("DELETE"@, "/me/cli-tokens/"@ + token_id@, None),
{
    request("DELETE", prefixed("/me/cli-tokens/", token_id), None)
}

} // verus!
