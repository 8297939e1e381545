//! Sending a request, step by step: when it is asked once more, when a credential is
//! renewed or given up, and what comes out.

use vstd::prelude::*;

use crate::api::error::{api_error, body_json, error_of_body, map_api_error_bytes, raw_text};
use crate::api::request::{one_text, one_text_body, plain_request, request, ApiRequest, RequestView};
use crate::api::session::{
    after_first_answer, after_second_answer, is_personal, renewal_token, renewed, AfterAnswer,
    StoredCredential,
};
use crate::errors::{copy_error, CliError, ErrorView};
use crate::text::opt_view;

verus! {

/// An answer of the server.
#[derive(Debug)]
pub struct Answer {
    pub status: u16,
    /// The body, or why it could not be read.
    pub body: Result<Vec<u8>, CliError>,
}

/// What is known while a request is sent.
#[derive(Debug)]
pub struct SendFacts {
    /// The token was given on the command line.
    pub given: bool,
    /// The token in play is one that can be renewed.
    pub renewable: bool,
    pub first: Option<Result<Answer, CliError>>,
    /// Whether the credential could be renewed.
    pub renewed: Option<bool>,
    pub second: Option<Result<Answer, CliError>>,
}

/// What is done next while a request is sent.
#[derive(Debug)]
pub enum SendStep {
    Ask,
    Renew,
    AskAgain,
    /// It was answered well: the body is read.
    Read(Vec<u8>),
    Fail(CliError),
}

/// What is done next, as a mathematical value.
pub ghost enum SendView {
    Ask,
    Renew,
    AskAgain,
    Read(Seq<u8>),
    Fail(ErrorView),
}

impl View for SendStep {
    type V = SendView;

    open spec fn view(&self) -> SendView {
        match *self {
            SendStep::Ask => SendView::Ask,
            SendStep::Renew => SendView::Renew,
            SendStep::AskAgain => SendView::AskAgain,
            SendStep::Read(b) => SendView::Read(b@),
            SendStep::Fail(e) => SendView::Fail(e@),
        }
    }
}

pub open spec fn is_success(status: u16) -> bool {
    200 <= status <= 299
}

/// The bytes `null`.
pub open spec fn null_bytes() -> Seq<u8> {
    seq![110u8, 117u8, 108u8, 108u8]
}

/// What is read of the body of a good answer: an empty one stands for `null`.
pub open spec fn body_read(a: Answer) -> SendView {
    match a.body {
        Err(e) => SendView::Fail(e@),
        Ok(b) => if b@.len() == 0 {
            SendView::Read(null_bytes())
        } else {
            SendView::Read(b@)
        },
    }
}

/// How an answer that is no success is told of.
pub open spec fn refused(a: Answer) -> SendView {
    match a.body {
        Err(_) => SendView::Fail(api_error(a.status as int, None)),
        Ok(b) => SendView::Fail(error_of_body(a.status as int, body_json(b@), raw_text(b@))),
    }
}

/// What is done next while a request is sent. It is asked once more where it was
/// refused for want of a sound token, the token is one that is kept and can be renewed,
/// and it was renewed; and never a third time.
pub open spec fn send_next(f: SendFacts) -> SendView {
    match f.first {
        None => SendView::Ask,
        Some(Err(e)) => SendView::Fail(e@),
        Some(Ok(a)) => if is_success(a.status) {
            body_read(a)
        } else if a.status == 401 && !f.given && f.renewable {
            match f.renewed {
                None => SendView::Renew,
                Some(false) => refused(a),
                Some(true) => match f.second {
                    None => SendView::AskAgain,
                    Some(Err(e)) => SendView::Fail(e@),
                    Some(Ok(b)) => if is_success(b.status) {
                        body_read(b)
                    } else {
                        refused(b)
                    },
                },
            }
        } else {
            refused(a)
        },
    }
}

/// A status is one of HTTP.
pub open spec fn is_status(a: Option<Result<Answer, CliError>>) -> bool {
    a matches Some(Ok(x)) ==> 100 <= x.status <= 999
}

fn read_body(a: &Answer) -> (r: SendStep)
    ensures
        r@ == body_read(*a),
{
    match &a.body {
        Err(e) => SendStep::Fail(copy_error(e)),
        Ok(b) => {
            let mut out: Vec<u8> = Vec::new();
            if b.len() == 0 {
                out.push(110);
                out.push(117);
                out.push(108);
                out.push(108);
                assert(out@ =~= null_bytes());
            } else {
                out.extend_from_slice(b.as_slice());
                assert(out@ =~= b@);
            }
            SendStep::Read(out)
        },
    }
}

fn tell_refusal(a: &Answer) -> (r: SendStep)
    requires
        100 <= a.status <= 999,
    ensures
        r@ == refused(*a),
{
    SendStep::Fail(
        match &a.body {
            Err(_) => map_api_error_bytes(a.status, None),
            Ok(b) => map_api_error_bytes(a.status, Some(b)),
        },
    )
}

/// What is done next while a request is sent whose answer is read.
pub fn send_json(f: &SendFacts) -> (r: SendStep)
    requires
        is_status(f.first),
        is_status(f.second),
    ensures
        r@ == send_next(*f),
{
    let a = match &f.first {
        None => {
            return SendStep::Ask;
        },
        Some(Err(e)) => {
            return SendStep::Fail(copy_error(e));
        },
        Some(Ok(a)) => a,
    };
    match after_first_answer(a.status, f.given, f.renewable) {
        AfterAnswer::Read => read_body(a),
        AfterAnswer::Fail => tell_refusal(a),
        AfterAnswer::Renew => match f.renewed {
            None => SendStep::Renew,
            Some(false) => tell_refusal(a),
            Some(true) => match &f.second {
                None => SendStep::AskAgain,
                Some(Err(e)) => SendStep::Fail(copy_error(e)),
                Some(Ok(b)) => match after_second_answer(b.status) {
                    AfterAnswer::Read => read_body(b),
                    _ => tell_refusal(b),
                },
            },
        },
    }
}

/// What is done next while a request is sent whose answer is not read: what there is in
/// the body of a good answer is of no account.
pub fn send_empty(f: &SendFacts) -> (r: SendStep)
    requires
        is_status(f.first),
        is_status(f.second),
    ensures
        match f.first {
            Some(Ok(a)) if is_success(a.status) => r@ == SendView::Read(seq![]),
            Some(Ok(a)) if a.status == 401 && !f.given && f.renewable && f.renewed == Some(true)
                && (f.second matches Some(Ok(b)) && is_success(b.status)) => r@ == SendView::Read(
                seq![],
            ),
            _ => r@ == send_next(*f),
        },
{
    let good = match &f.first {
        Some(Ok(a)) => match after_first_answer(a.status, f.given, f.renewable) {
            AfterAnswer::Read => true,
            AfterAnswer::Fail => false,
            AfterAnswer::Renew => match (f.renewed, &f.second) {
                (Some(true), Some(Ok(b))) => after_second_answer(b.status) == AfterAnswer::Read,
                _ => false,
            },
        },
        _ => false,
    };
    if good {
        let out: Vec<u8> = Vec::new();
        assert(out@ =~= seq![]);
        SendStep::Read(out)
    } else {
        send_json(f)
    }
}

// ---------------------------------------------------------------------------
// Renewal
// ---------------------------------------------------------------------------

/// A pair of tokens, as a renewal hands it out.
#[derive(Debug)]
pub struct RefreshResp {
    pub access_token: String,
    pub refresh_token: String,
    pub expires_in: i64,
}

/// How the server answered a renewal.
#[derive(Debug)]
pub enum RefreshAnswer {
    /// With no success.
    Refused,
    /// With a pair of tokens, or what could not be read as one.
    Granted(Result<RefreshResp, CliError>),
}

/// What is done next while a credential is renewed.
pub enum RefreshTokens {
    Ask(ApiRequest),
    /// The credential is given up, and the user has to sign in.
    GiveUp,
    Keep(StoredCredential),
    Fail(CliError),
}

/// The request for a renewal. It carries no token but the one in its body.
pub open spec fn refresh_request(token: Seq<char>) -> RequestView {
    RequestView {
        authenticated: false,
        ..plain_request("POST"@, "/auth/refresh"@, Some(one_text("refresh_token"@, token)))
    }
}

/// A credential can be renewed: it is kept, no personal token, and came with a token
/// for it.
pub open spec fn can_renew(stored: Option<StoredCredential>) -> bool {
    stored matches Some(c) && !is_personal(c.token@) && c.refresh_token is Some
}

/// What is done next while a credential is renewed.
pub fn try_refresh(
    stored: &Option<StoredCredential>,
    answer: Option<Result<RefreshAnswer, CliError>>,
    now: i64,
) -> (r: RefreshTokens)
    requires
        answer matches Some(Ok(RefreshAnswer::Granted(Ok(p)))) ==> i64::MIN <= now + p.expires_in
            <= i64::MAX,
    ensures
        if !can_renew(*stored) {
            r matches RefreshTokens::Fail(e) && e@ == ErrorView::AuthRequired
        } else {
            match answer {
                None => r matches RefreshTokens::Ask(q) && q@ == refresh_request(
                    stored->0.refresh_token->0@,
                ),
                Some(Err(e)) => r matches RefreshTokens::Fail(x) && x == e,
                Some(Ok(RefreshAnswer::Refused)) => r is GiveUp,
                Some(Ok(RefreshAnswer::Granted(Err(e)))) => r matches RefreshTokens::Fail(x) && x
                    == e,
                Some(Ok(RefreshAnswer::Granted(Ok(p)))) => r matches RefreshTokens::Keep(c) && {
                    &&& c.token == p.access_token
                    &&& c.refresh_token == Some(p.refresh_token)
                    &&& c.expires_at == Some((now + p.expires_in) as i64)
                    &&& c.token_id is None && c.prefix is None && c.label is None
                    &&& opt_view(c.user_id) == opt_view(stored->0.user_id)
                    &&& opt_view(c.email) == opt_view(stored->0.email)
                },
            }
        },
{
    let token = match renewal_token(stored) {
        Ok(t) => t,
        Err(e) => {
            return RefreshTokens::Fail(e);
        },
    };
    match answer {
        None => {
            let mut q = request(
                "POST",
                "/auth/refresh".to_owned(),
                Some(one_text_body("refresh_token", token.as_str())),
            );
            q.authenticated = false;
            RefreshTokens::Ask(q)
        },
        Some(Err(e)) => RefreshTokens::Fail(e),
        Some(Ok(RefreshAnswer::Refused)) => RefreshTokens::GiveUp,
        Some(Ok(RefreshAnswer::Granted(Err(e)))) => RefreshTokens::Fail(e),
        Some(Ok(RefreshAnswer::Granted(Ok(p)))) => match stored {
            Some(c) => RefreshTokens::Keep(
                renewed(c, p.access_token, p.refresh_token, p.expires_in, now),
            ),
            None => RefreshTokens::Fail(CliError::AuthRequired),
        },
    }
}

/// A token that was given on the command line, and one that can not be renewed, are
/// never renewed, and such a request is asked once.
pub proof fn law_only_kept_sessions_are_renewed(f: SendFacts)
    ensures
        f.given || !f.renewable ==> !(send_next(f) is Renew) && !(send_next(f) is AskAgain),
        send_next(f) is AskAgain ==> f.renewed == Some(true),
{
}

/// Once a request was asked a second time, nothing is asked any more.
pub proof fn law_two_answers_are_enough(f: SendFacts)
    requires
        f.first is Some,
        f.renewed is Some,
        f.second is Some,
    ensures
        send_next(f) is Read || send_next(f) is Fail,
{
}

} // verus!
