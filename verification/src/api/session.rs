//! Which credential a request carries, and what to do when it is refused.

use vstd::prelude::*;

use crate::errors::{CliError, ErrorView};
use crate::text::{
    has_prefix, opt_owned, opt_str, opt_str_view, opt_view, pieces, same, split, starts_with, trim,
    trimmed,
};

verus! {

/// A credential that is kept.
#[derive(Debug)]
pub struct StoredCredential {
    pub token: String,
    pub token_id: Option<String>,
    /// The start of the token, which may be shown.
    pub prefix: Option<String>,
    pub refresh_token: Option<String>,
    /// When it expires, in seconds of the epoch.
    pub expires_at: Option<i64>,
    pub label: Option<String>,
    pub user_id: Option<String>,
    pub email: Option<String>,
}

/// The token is a personal one, which lives until it expires or is revoked.
pub open spec fn is_personal(token: Seq<char>) -> bool {
    has_prefix(token, "knack_pat_"@)
}

/// Whether a token is a personal one.
pub fn is_pat(token: &str) -> (r: bool)
    ensures
        r == is_personal(token@),
{
    starts_with(token, "knack_pat_")
}

/// The token that a request carries: the one given on the command line, else the
/// one that is kept, else the one that an old version kept.
pub open spec fn token_in_play(
    given: Option<Seq<char>>,
    kept: Option<Seq<char>>,
    legacy: Option<Seq<char>>,
) -> Option<Seq<char>> {
    if given is Some {
        given
    } else if kept is Some {
        kept
    } else {
        legacy
    }
}

/// The token that a request carries.
pub fn current_access_token(
    given: Option<&str>,
    kept: Option<&str>,
    legacy: Option<&str>,
) -> (r: Option<String>)
    ensures
        opt_view(r) == token_in_play(opt_str_view(given), opt_str_view(kept), opt_str_view(legacy)),
{
    if given.is_some() {
        opt_owned(given)
    } else if kept.is_some() {
        opt_owned(kept)
    } else {
        opt_owned(legacy)
    }
}

/// Whether the token in play is one that can be renewed: not a personal one.
pub fn current_is_jwt(given: Option<&str>, kept: Option<&str>, legacy: Option<&str>) -> (r: bool)
    ensures
        r == (match token_in_play(opt_str_view(given), opt_str_view(kept), opt_str_view(legacy)) {
            Some(t) => !is_personal(t),
            None => false,
        }),
{
    match current_access_token(given, kept, legacy) {
        Some(t) => !is_pat(t.as_str()),
        None => false,
    }
}

/// What to do with an answer.
#[derive(Debug, Clone, Copy, PartialEq, Eq, Structural)]
pub enum AfterAnswer {
    /// It is a success: read it.
    Read,
    /// Renew the credential, and ask once more if that succeeds.
    Renew,
    /// It is an error.
    Fail,
}

/// What to do with the first answer to a request. Only a credential that is kept
/// and that can be renewed is renewed, and only where it was refused.
pub fn after_first_answer(status: u16, given: bool, renewable: bool) -> (r: AfterAnswer)
    ensures
        200 <= status <= 299 ==> r == AfterAnswer::Read,
        status == 401 && !given && renewable ==> r == AfterAnswer::Renew,
        !(200 <= status <= 299) && !(status == 401 && !given && renewable) ==> r == AfterAnswer::Fail,
{
    if 200 <= status && status <= 299 {
        AfterAnswer::Read
    } else if status == 401 && !given && renewable {
        AfterAnswer::Renew
    } else {
        AfterAnswer::Fail
    }
}

/// What to do with the answer to a request that was asked once more: it is not
/// asked a third time.
pub fn after_second_answer(status: u16) -> (r: AfterAnswer)
    ensures
        r == (if 200 <= status <= 299 {
            AfterAnswer::Read
        } else {
            AfterAnswer::Fail
        }),
{
    if 200 <= status && status <= 299 {
        AfterAnswer::Read
    } else {
        AfterAnswer::Fail
    }
}

/// The token to renew a credential with. There is none without a credential, for a
/// personal token, and for a credential that came without one.
pub fn renewal_token(stored: &Option<StoredCredential>) -> (r: Result<String, CliError>)
    ensures
        match *stored {
            Some(c) => if is_personal(c.token@) || c.refresh_token is None {
                r is Err && r->Err_0@ == ErrorView::AuthRequired
            } else {
                r is Ok && r->Ok_0@ == c.refresh_token->0@
            },
            None => r is Err && r->Err_0@ == ErrorView::AuthRequired,
        },
{
    match stored {
        Some(c) => {
            if is_pat(c.token.as_str()) {
                return Err(CliError::AuthRequired);
            }
            match &c.refresh_token {
                Some(t) => Ok(t.clone()),
                None => Err(CliError::AuthRequired),
            }
        },
        None => Err(CliError::AuthRequired),
    }
}

/// The credential after a renewal: who it belongs to stays.
pub fn renewed(
    stored: &StoredCredential,
    access_token: String,
    refresh_token: String,
    expires_in: i64,
    now: i64,
) -> (r: StoredCredential)
    requires
        i64::MIN <= now + expires_in <= i64::MAX,
    ensures
        r.token == access_token,
        r.refresh_token == Some(refresh_token),
        r.expires_at == Some((now + expires_in) as i64),
        r.token_id is None,
        r.prefix is None,
        r.label is None,
        opt_view(r.user_id) == opt_view(stored.user_id),
        opt_view(r.email) == opt_view(stored.email),
{
    StoredCredential {
        token: access_token,
        token_id: None,
        prefix: None,
        refresh_token: Some(refresh_token),
        expires_at: Some(now + expires_in),
        label: None,
        user_id: opt_owned(opt_str(&stored.user_id)),
        email: opt_owned(opt_str(&stored.email)),
    }
}

/// The seconds until a renewed credential expires.
pub fn seconds_left(stored: &Option<StoredCredential>, now: i64) -> (r: Result<i64, CliError>)
    requires
        stored matches Some(c) ==> (c.expires_at matches Some(e) ==> i64::MIN <= e - now <= i64::MAX),
    ensures
        match *stored {
            None => r is Err && r->Err_0@ == ErrorView::AuthRequired,
            Some(c) => match c.expires_at {
                None => r is Err && r->Err_0@ == ErrorView::AuthFailed(
                    "refreshed credential has no expiry"@,
                ),
                Some(e) => r is Ok && r->Ok_0 == e - now,
            },
        },
{
    match stored {
        None => Err(CliError::AuthRequired),
        Some(c) => match c.expires_at {
            None => Err(CliError::AuthFailed("refreshed credential has no expiry".to_owned())),
            Some(e) => Ok(e - now),
        },
    }
}

/// One of the notices in a header is that there are replies.
pub open spec fn notifies(header: Seq<char>) -> bool {
    exists|i: int|
        0 <= i < pieces(header, ","@).len() && trimmed(#[trigger] pieces(header, ","@)[i])
            == "feedback"@
}

/// Whether one of the notices in a header is that there are replies.
pub fn has_feedback_notice(header: &str) -> (r: bool)
    ensures
        r == notifies(header@),
{
    proof {
        reveal_strlit(",");
    }
    let parts = split(header, ",");
    let ghost p = pieces(header@, ","@);
    let mut i: usize = 0;
    assert(p.len() == parts@.len());
    while i < parts.len()
        invariant
            i <= parts.len(),
            crate::text::slice_views(parts@) == p,
            p == pieces(header@, ","@),
            p.len() == parts@.len(),
            forall|j: int| 0 <= j < i ==> trimmed(#[trigger] p[j]) != "feedback"@,
        decreases parts.len() - i,
    {
        assert(p[i as int] == parts@[i as int]@);
        if same(trim(parts[i]), "feedback") {
            return true;
        }
        i += 1;
    }
    false
}

} // verus!
