//! `knack auth`: signing in, signing out, and what is known of the credential.

use vstd::prelude::*;
use vstd::utf8::{decode_utf8, encode_utf8, valid_utf8};

use crate::api::auth::{
    poll_status_name, CreateCliTokenResponse, DeviceAuthStart, DevicePollResponse, Me, PollStatus,
};
use crate::api::session::{is_pat, is_personal, StoredCredential};
use crate::archive::utf8_text;
use crate::commands::mark::{moment, moment_json};
use crate::errors::{prefixed, CliError, ErrorView};
use crate::json::{
    field, json_parsed, member_views, no_members, parse, parsed_view, text_or_null, with_member,
    Json, JsonView,
};
use crate::numbers::{i64_text, signed_decimal};
use crate::output::Told;
use crate::text::{
    concat3, concat4, concat5, opt_owned, opt_str, opt_str_view, opt_view, pieces, slice_views,
    split, take_chars, trim, trimmed, views,
};

verus! {

/// What `knack auth` is asked to do.
#[derive(Debug, Clone)]
pub enum AuthCmd {
    Login(LoginArgs),
    Logout,
    Status,
    Refresh,
}

/// The arguments of `knack auth login`.
#[derive(Debug, Clone)]
pub struct LoginArgs {
    pub no_browser: bool,
    /// Only start, and print what is needed to go on.
    pub start: bool,
    /// Only ask once whether it is done.
    pub poll: Option<String>,
    pub label: Option<String>,
    pub expires_in_days: Option<i64>,
    pub never_expires: bool,
}

/// The days after which a token expires unless something else is said.
pub const DEFAULT_PAT_TTL_DAYS: i64 = 90;

/// What is done about a command.
#[derive(Debug, PartialEq, Eq)]
pub enum AuthRoute {
    /// Tell of the credential of `gh`; there is nothing to sign in to.
    GithubLogin,
    GithubStatus,
    GithubRefresh,
    /// Sign in, in one go.
    Login,
    /// Only start to sign in.
    Start,
    /// Ask once whether signing in is done.
    Poll(String),
    Logout,
    Status,
    Refresh,
}

/// What is done about a command. With a repository of one's own there is nothing to
/// sign in to, but what is left of a session in the cloud can be given up.
pub fn route(cmd: &AuthCmd, github: bool) -> (r: AuthRoute)
    ensures
        match *cmd {
            AuthCmd::Login(a) => if github {
                r is GithubLogin
            } else if a.start {
                r is Start
            } else {
                match a.poll {
                    Some(code) => r matches AuthRoute::Poll(c) && c@ == code@,
                    None => r is Login,
                }
            },
            AuthCmd::Logout => r is Logout,
            AuthCmd::Status => if github {
                r is GithubStatus
            } else {
                r is Status
            },
            AuthCmd::Refresh => if github {
                r is GithubRefresh
            } else {
                r is Refresh
            },
        },
{
    match cmd {
        AuthCmd::Login(a) => {
            if github {
                return AuthRoute::GithubLogin;
            }
            if a.start {
                return AuthRoute::Start;
            }
            match &a.poll {
                Some(code) => AuthRoute::Poll(code.clone()),
                None => AuthRoute::Login,
            }
        },
        AuthCmd::Logout => AuthRoute::Logout,
        AuthCmd::Status => if github {
            AuthRoute::GithubStatus
        } else {
            AuthRoute::Status
        },
        AuthCmd::Refresh => if github {
            AuthRoute::GithubRefresh
        } else {
            AuthRoute::Refresh
        },
    }
}

// ---------------------------------------------------------------------------
// Base64
// ---------------------------------------------------------------------------

/// The six bits that a character of base64url stands for.
pub open spec fn sextet(c: u8) -> Option<int> {
    if 65 <= c <= 90 {
        Some(c - 65)
    } else if 97 <= c <= 122 {
        Some(c - 97 + 26)
    } else if 48 <= c <= 57 {
        Some(c - 48 + 52)
    } else if c == 45 {
        Some(62)
    } else if c == 95 {
        Some(63)
    } else {
        None
    }
}

/// Every character is one of base64url.
pub open spec fn all_sextets(s: Seq<u8>) -> bool {
    forall|i: int| 0 <= i < s.len() ==> sextet(#[trigger] s[i]) is Some
}

/// The byte at position `k`: the eight bits from bit `8 * k` on, of all the bits
/// that the characters stand for.
pub open spec fn byte_at(s: Seq<u8>, k: int) -> int {
    let i = 8 * k / 6;
    let a = sextet(s[i])->0;
    let b = sextet(s[i + 1])->0;
    if 8 * k % 6 == 0 {
        a * 4 + b / 16
    } else if 8 * k % 6 == 2 {
        a % 16 * 16 + b / 4
    } else {
        a % 4 * 64 + b
    }
}

/// The bytes that a text of base64url without padding stands for: as many as its
/// bits make up in full.
pub open spec fn decoded(s: Seq<u8>) -> Option<Seq<u8>> {
    if all_sextets(s) {
        Some(Seq::new((6 * s.len() / 8) as nat, |k: int| byte_at(s, k) as u8))
    } else {
        None
    }
}

/// The six bits that a character stands for.
pub fn sextet_of(c: u8) -> (r: Option<u8>)
    ensures
        match r {
            Some(v) => sextet(c) == Some(v as int) && v < 64,
            None => sextet(c) is None,
        },
{
    if 65 <= c && c <= 90 {
        Some(c - 65)
    } else if 97 <= c && c <= 122 {
        Some(c - 97 + 26)
    } else if 48 <= c && c <= 57 {
        Some(c - 48 + 52)
    } else if c == 45 {
        Some(62)
    } else if c == 95 {
        Some(63)
    } else {
        None
    }
}

/// The bytes that are read.
pub open spec fn opt_bytes(o: Option<Vec<u8>>) -> Option<Seq<u8>> {
    match o {
        Some(v) => Some(v@),
        None => None,
    }
}

/// The bytes that a text of base64url without padding stands for.
pub fn base64url_decode(s: &str) -> (r: Option<Vec<u8>>)
    ensures
        opt_bytes(r) == decoded(encode_utf8(s@)),
{
    let bytes = s.as_bytes();
    let ghost b = encode_utf8(s@);
    let mut out: Vec<u8> = Vec::new();
    let mut carry: u8 = 0;
    let mut phase: u8 = 0;
    let mut i: usize = 0;
    while i < bytes.len()
        invariant
            i <= bytes.len(),
            bytes@ == b,
            b == encode_utf8(s@),
            forall|j: int| 0 <= j < i ==> sextet(#[trigger] b[j]) is Some,
            phase == i % 4,
            out@.len() == 6 * i / 8,
            phase == 1 ==> carry == sextet(b[i - 1])->0,
            phase == 2 ==> carry == sextet(b[i - 1])->0 % 16,
            phase == 3 ==> carry == sextet(b[i - 1])->0 % 4,
            carry < 64,
            phase == 2 ==> carry < 16,
            phase == 3 ==> carry < 4,
            forall|k: int| 0 <= k < out@.len() ==> (#[trigger] out@[k]) == byte_at(b, k),
        decreases bytes.len() - i,
    {
        let v = match sextet_of(bytes[i]) {
            Some(v) => v,
            None => {
                assert(sextet(b[i as int]) is None);
                return None;
            },
        };
        let ghost k = out@.len() as int;
        if phase == 0 {
            carry = v;
            phase = 1;
        } else if phase == 1 {
            assert(8 * k / 6 == i - 1 && 8 * k % 6 == 0);
            out.push(carry * 4 + v / 16);
            carry = v % 16;
            phase = 2;
        } else if phase == 2 {
            assert(8 * k / 6 == i - 1 && 8 * k % 6 == 2);
            out.push(carry * 16 + v / 4);
            carry = v % 4;
            phase = 3;
        } else {
            assert(8 * k / 6 == i - 1 && 8 * k % 6 == 4);
            out.push(carry * 64 + v);
            carry = 0;
            phase = 0;
        }
        i += 1;
    }
    assert(all_sextets(b));
    assert(out@ =~= Seq::new((6 * b.len() / 8) as nat, |k: int| byte_at(b, k) as u8));
    Some(out)
}

/// The six bits at position `j` of bytes, as base64url writes them: what lies beyond
/// the last byte is zero.
pub open spec fn sextet_at(data: Seq<u8>, j: int) -> int {
    let i = 6 * j / 8;
    let a = data[i] as int;
    let b = if i + 1 < data.len() {
        data[i + 1] as int
    } else {
        0
    };
    if 6 * j % 8 == 0 {
        a / 4
    } else if 6 * j % 8 == 6 {
        a % 4 * 16 + b / 16
    } else if 6 * j % 8 == 4 {
        a % 16 * 4 + b / 64
    } else {
        a % 64
    }
}

/// The characters are the base64url text of the bytes, without padding.
pub open spec fn encodes(s: Seq<u8>, data: Seq<u8>) -> bool {
    &&& s.len() == (8 * data.len() + 5) / 6
    &&& forall|j: int| 0 <= j < s.len() ==> sextet(#[trigger] s[j]) == Some(sextet_at(data, j))
}

/// Decoding undoes encoding.
pub proof fn law_decoding_undoes_encoding(s: Seq<u8>, data: Seq<u8>)
    requires
        encodes(s, data),
    ensures
        decoded(s) == Some(data),
{
    let n = data.len() as int;
    assert(6 * s.len() / 8 == n);
    assert forall|k: int| 0 <= k < n implies byte_at(s, k) == data[k] by {
        let i = 8 * k / 6;
        assert(0 <= i && i + 1 < s.len());
        assert(sextet(s[i]) == Some(sextet_at(data, i)));
        assert(sextet(s[i + 1]) == Some(sextet_at(data, i + 1)));
        let q = k / 3;
        if k % 3 == 0 {
            assert(k == 3 * q && i == 4 * q);
            assert(6 * i / 8 == k && 6 * i % 8 == 0);
            assert(6 * (i + 1) / 8 == k && 6 * (i + 1) % 8 == 6);
        } else if k % 3 == 1 {
            assert(k == 3 * q + 1 && i == 4 * q + 1);
            assert(6 * i / 8 == k - 1 && 6 * i % 8 == 6);
            assert(6 * (i + 1) / 8 == k && 6 * (i + 1) % 8 == 4);
        } else {
            assert(k == 3 * q + 2 && i == 4 * q + 2);
            assert(6 * i / 8 == k - 1 && 6 * i % 8 == 4);
            assert(6 * (i + 1) / 8 == k && 6 * (i + 1) % 8 == 2);
        }
    }
    assert(decoded(s)->0 =~= data);
}

// ---------------------------------------------------------------------------
// Expiry
// ---------------------------------------------------------------------------

/// The number of 64 bits under `exp`, if there is one.
pub open spec fn exp_in(v: Result<JsonView, Seq<char>>) -> Option<int> {
    match v {
        Ok(v) => match field(v, "exp"@) {
            Some(JsonView::Int(n)) => if i64::MIN <= n <= i64::MAX {
                Some(n)
            } else {
                None
            },
            _ => None,
        },
        Err(_) => None,
    }
}

/// The payload of a signed token: its second part, decoded, as text.
pub open spec fn payload_of(token: Seq<char>) -> Option<Seq<char>> {
    let parts = pieces(token, "."@);
    if parts.len() < 2 {
        None
    } else {
        match decoded(encode_utf8(parts[1])) {
            Some(b) => if valid_utf8(b) {
                Some(decode_utf8(b))
            } else {
                None
            },
            None => None,
        }
    }
}

/// When a signed token expires, in seconds of the epoch, if it says so.
pub open spec fn exp_of(token: Seq<char>) -> Option<int> {
    match payload_of(token) {
        Some(t) => exp_in(json_parsed(t)),
        None => None,
    }
}

/// The seconds from now on, where 64 bits can hold them.
pub open spec fn from_now(exp: Option<int>, now: int) -> Option<int> {
    match exp {
        Some(e) => if i64::MIN <= e - now <= i64::MAX {
            Some(e - now)
        } else {
            None
        },
        None => None,
    }
}

pub open spec fn opt_int(o: Option<i64>) -> Option<int> {
    match o {
        Some(n) => Some(n as int),
        None => None,
    }
}

/// The payload of a signed token.
pub fn jwt_payload(token: &str) -> (r: Option<String>)
    ensures
        opt_view(r) == payload_of(token@),
{
    proof {
        reveal_strlit(".");
    }
    let parts = split(token, ".");
    assert(slice_views(parts@).len() == parts@.len());
    if parts.len() < 2 {
        return None;
    }
    assert(slice_views(parts@)[1] == parts@[1]@);
    match base64url_decode(parts[1]) {
        Some(b) => match utf8_text(b.as_slice()) {
            Ok(s) => Some(s),
            Err(_) => None,
        },
        None => None,
    }
}

/// The number under `exp` in a payload, by what it holds as JSON.
pub fn exp_from(json: Result<Json, String>) -> (r: Option<i64>)
    ensures
        opt_int(r) == exp_in(parsed_view(json)),
{
    match json {
        Ok(v) => match v.get("exp") {
            Some(n) => n.as_i64(),
            None => None,
        },
        Err(_) => None,
    }
}

/// The seconds from now on, where 64 bits can hold them.
pub fn seconds_from_now(exp: Option<i64>, now: i64) -> (r: Option<i64>)
    ensures
        opt_int(r) == from_now(opt_int(exp), now as int),
{
    match exp {
        Some(e) => e.checked_sub(now),
        None => None,
    }
}

/// The seconds until a signed token expires. There are none where the token cannot
/// be read or does not say; its signature is not looked at.
pub fn jwt_exp_seconds_from_now(token: &str, now: i64) -> (r: Option<i64>)
    ensures
        opt_int(r) == from_now(exp_of(token@), now as int),
{
    match jwt_payload(token) {
        Some(t) => seconds_from_now(exp_from(parse(t.as_str())), now),
        None => None,
    }
}

/// A length of time as people read it: days and hours, hours and minutes, minutes
/// and seconds, or seconds.
pub open spec fn duration_text(seconds: int) -> Seq<char> {
    if seconds <= 0 {
        "0s"@
    } else if seconds >= 86400 {
        signed_decimal(seconds / 86400) + "d "@ + signed_decimal(seconds % 86400 / 3600) + "h"@
    } else if seconds >= 3600 {
        signed_decimal(seconds / 3600) + "h "@ + signed_decimal(seconds % 3600 / 60) + "m"@
    } else if seconds >= 60 {
        signed_decimal(seconds / 60) + "m "@ + signed_decimal(seconds % 60) + "s"@
    } else {
        signed_decimal(seconds) + "s"@
    }
}

/// A length of time as people read it.
pub fn human_duration(seconds: i64) -> (r: String)
    ensures
        r@ == duration_text(seconds as int),
{
    if seconds <= 0 {
        return "0s".to_owned();
    }
    let days: i64 = seconds / 86_400;
    let hours: i64 = (seconds % 86_400) / 3600;
    let mins: i64 = (seconds % 3600) / 60;
    if days > 0 {
        let d = i64_text(days);
        let h = i64_text(hours);
        concat4(d.as_str(), "d ", h.as_str(), "h")
    } else if hours > 0 {
        let h = i64_text(hours);
        let m = i64_text(mins);
        concat4(h.as_str(), "h ", m.as_str(), "m")
    } else if mins > 0 {
        let m = i64_text(mins);
        let s = i64_text(seconds % 60);
        concat4(m.as_str(), "m ", s.as_str(), "s")
    } else {
        let s = i64_text(seconds);
        prefixed(s.as_str(), "s")
    }
}

// ---------------------------------------------------------------------------
// Signing in
// ---------------------------------------------------------------------------

/// The seconds between two questions whether signing in is done.
pub fn poll_interval(start: &DeviceAuthStart) -> (r: u64)
    ensures
        r >= 1,
        start.interval >= 1 ==> r == start.interval,
        start.interval == 0 ==> r == 1,
{
    if start.interval < 1 {
        1
    } else {
        start.interval
    }
}

/// The seconds after which signing in is given up: what the server says, but not
/// under a minute and not over an hour.
pub open spec fn patience_of(expires_in: int) -> int {
    if expires_in < 60 {
        60
    } else if expires_in > 3600 {
        3600
    } else {
        expires_in
    }
}

/// The seconds after which signing in is given up.
pub fn patience(start: &DeviceAuthStart) -> (r: u64)
    ensures
        r == patience_of(start.expires_in as int),
{
    if start.expires_in < 60 {
        60
    } else if start.expires_in > 3600 {
        3600
    } else {
        start.expires_in as u64
    }
}

/// What comes next when signing in.
#[derive(Debug)]
pub enum LoginStep {
    /// Ask the server whether it is done.
    Poll,
    /// Wait for as long as between two questions, and ask.
    Ask,
    /// Wait twice as long, and ask.
    AskLater,
    /// It is approved: make a token with this one.
    Mint(String),
    Fail(CliError),
}

/// What comes next, as a mathematical value.
pub ghost enum StepView {
    Poll,
    Ask,
    AskLater,
    Mint(Seq<char>),
    Fail(ErrorView),
}

/// What comes next, as a mathematical value.
pub open spec fn step_of(s: LoginStep) -> StepView {
    match s {
        LoginStep::Poll => StepView::Poll,
        LoginStep::Ask => StepView::Ask,
        LoginStep::AskLater => StepView::AskLater,
        LoginStep::Mint(t) => StepView::Mint(t@),
        LoginStep::Fail(e) => StepView::Fail(e@),
    }
}

/// What comes next after an answer. What was approved comes with a token.
pub open spec fn poll_step(status: PollStatus, access: Option<Seq<char>>) -> StepView {
    match status {
        PollStatus::AuthorizationPending => StepView::Ask,
        PollStatus::SlowDown => StepView::AskLater,
        PollStatus::Denied => StepView::Fail(ErrorView::AuthFailed("approval denied"@)),
        PollStatus::Expired => StepView::Fail(ErrorView::AuthFailed("device code expired"@)),
        PollStatus::Approved => match access {
            Some(t) => if t.len() > 0 {
                StepView::Mint(t)
            } else {
                StepView::Fail(ErrorView::AuthFailed("server omitted access token"@))
            },
            None => StepView::Fail(ErrorView::AuthFailed("server omitted access token"@)),
        },
    }
}

/// The error of a sign-in that took too long.
pub fn device_expired() -> (r: CliError)
    ensures
        r@ == ErrorView::AuthFailed("device code expired"@),
{
    CliError::AuthFailed("device code expired".to_owned())
}

/// What comes next once the wait is over: a question, unless it took too long.
pub fn after_wait(elapsed: u64, patience: u64) -> (r: Option<CliError>)
    ensures
        match r {
            Some(e) => elapsed >= patience && e@ == ErrorView::AuthFailed("device code expired"@),
            None => elapsed < patience,
        },
{
    if elapsed >= patience {
        Some(device_expired())
    } else {
        None
    }
}

/// The token with which a token is made. Without one nothing was approved.
pub fn access_of(access_token: Option<&str>) -> (r: Result<String, CliError>)
    ensures
        match opt_str_view(access_token) {
            Some(t) => if t.len() > 0 {
                r is Ok && r->Ok_0@ == t
            } else {
                r is Err && r->Err_0@ == ErrorView::AuthFailed("server omitted access token"@)
            },
            None => r is Err && r->Err_0@ == ErrorView::AuthFailed("server omitted access token"@),
        },
{
    match access_token {
        Some(t) => {
            if !t.is_empty() {
                return Ok(t.to_owned());
            }
        },
        None => {},
    }
    Err(CliError::AuthFailed("server omitted access token".to_owned()))
}

/// What comes next after an answer.
pub fn after_poll(status: PollStatus, access_token: Option<&str>) -> (r: LoginStep)
    ensures
        step_of(r) == poll_step(status, opt_str_view(access_token)),
{
    match status {
        PollStatus::AuthorizationPending => LoginStep::Ask,
        PollStatus::SlowDown => LoginStep::AskLater,
        PollStatus::Denied => LoginStep::Fail(CliError::AuthFailed("approval denied".to_owned())),
        PollStatus::Expired => LoginStep::Fail(device_expired()),
        PollStatus::Approved => match access_of(access_token) {
            Ok(a) => LoginStep::Mint(a),
            Err(e) => LoginStep::Fail(e),
        },
    }
}

/// What comes next when signing in: once a wait is over the server is asked, unless
/// it took too long; its answer, if there is one already, says how it goes on.
pub fn login(
    start: &DeviceAuthStart,
    elapsed: u64,
    answer: Option<Result<&DevicePollResponse, CliError>>,
) -> (r: LoginStep)
    ensures
        match answer {
            None => if elapsed >= patience_of(start.expires_in as int) {
                r matches LoginStep::Fail(e) && e@ == ErrorView::AuthFailed("device code expired"@)
            } else {
                r is Poll
            },
            Some(Err(e)) => r matches LoginStep::Fail(x) && x == e,
            Some(Ok(a)) => step_of(r) == poll_step(a.status, opt_view(a.access_token)),
        },
{
    match answer {
        None => match after_wait(elapsed, patience(start)) {
            Some(e) => LoginStep::Fail(e),
            None => LoginStep::Poll,
        },
        Some(Err(e)) => LoginStep::Fail(e),
        Some(Ok(a)) => after_poll(a.status, opt_str(&a.access_token)),
    }
}

/// Nothing but an approval with a token in it leads to a token that is kept.
pub proof fn law_only_approval_signs_in(status: PollStatus, access: Option<Seq<char>>)
    ensures
        poll_step(status, access) is Mint ==> status == PollStatus::Approved && access is Some
            && access->0.len() > 0,
{
}

/// The name of this machine, by the values of `COMPUTERNAME`, `HOSTNAME` and `HOST`.
pub open spec fn host_name(
    computer: Option<Seq<char>>,
    hostname: Option<Seq<char>>,
    host: Option<Seq<char>>,
) -> Seq<char> {
    if computer is Some {
        computer->0
    } else if hostname is Some {
        hostname->0
    } else if host is Some {
        host->0
    } else {
        "unknown"@
    }
}

/// The name of this machine.
pub fn host_label(computer: Option<&str>, hostname: Option<&str>, host: Option<&str>) -> (r: String)
    ensures
        r@ == host_name(opt_str_view(computer), opt_str_view(hostname), opt_str_view(host)),
{
    match (computer, hostname, host) {
        (Some(s), _, _) => s.to_owned(),
        (None, Some(s), _) => s.to_owned(),
        (None, None, Some(s)) => s.to_owned(),
        (None, None, None) => "unknown".to_owned(),
    }
}

/// The label of a token: the one that is given, else one with the machine's name.
pub fn token_label(label: Option<&str>, host: &str) -> (r: String)
    ensures
        r@ == (match label {
            Some(l) => l@,
            None => "knack-cli@"@ + host@,
        }),
{
    match label {
        Some(l) => l.to_owned(),
        None => prefixed("knack-cli@", host),
    }
}

/// The days that a token lives: for ever, as many as are asked for, or ninety.
pub fn effective_expiry(expires_in_days: Option<i64>, never_expires: bool) -> (r: Option<i64>)
    ensures
        r == (if never_expires {
            None
        } else if expires_in_days is Some {
            expires_in_days
        } else {
            Some(DEFAULT_PAT_TTL_DAYS)
        }),
{
    if never_expires {
        None
    } else {
        match expires_in_days {
            Some(d) => Some(d),
            None => Some(DEFAULT_PAT_TTL_DAYS),
        }
    }
}

/// The credential is the one that is kept of a token that was made: the token itself,
/// and never the one that it was made with.
pub open spec fn keeps_token(c: StoredCredential, pat: CreateCliTokenResponse, me: Me) -> bool {
    &&& c.token@ == pat.plaintext@
    &&& opt_view(c.token_id) == Some(pat.id@)
    &&& opt_view(c.prefix) == Some(pat.prefix@)
    &&& c.refresh_token is None
    &&& c.expires_at == (match pat.expires_at {
        Some(t) => Some(t.secs),
        None => None,
    })
    &&& opt_view(c.label) == Some(pat.name@)
    &&& opt_view(c.user_id) == Some(me.id@)
    &&& opt_view(c.email) == Some(me.email@)
}

/// The credential that is kept of a token that was made.
pub fn pat_credential(pat: &CreateCliTokenResponse, me: &Me) -> (r: StoredCredential)
    ensures
        keeps_token(r, *pat, *me),
{
    StoredCredential {
        token: pat.plaintext.clone(),
        token_id: Some(pat.id.clone()),
        prefix: Some(pat.prefix.clone()),
        refresh_token: None,
        expires_at: match &pat.expires_at {
            Some(t) => Some(t.secs),
            None => None,
        },
        label: Some(pat.name.clone()),
        user_id: Some(me.id.clone()),
        email: Some(me.email.clone()),
    }
}

/// What is done with a token that was made.
#[derive(Debug)]
pub enum AfterMint {
    Keep(StoredCredential),
    /// It cannot be used: revoke it, and fail.
    Revoke(String, CliError),
}

/// What is done with a token that was made, by who is signed in: it is kept, or
/// revoked where that could not be told, so that none is left that nobody knows of.
pub fn finalize_login_to_pat(
    pat: &CreateCliTokenResponse,
    me: Result<&Me, CliError>,
) -> (r: AfterMint)
    ensures
        match me {
            Ok(m) => r matches AfterMint::Keep(c) && keeps_token(c, *pat, *m),
            Err(e) => r matches AfterMint::Revoke(id, x) && id@ == pat.id@ && x == e,
        },
{
    match me {
        Ok(m) => AfterMint::Keep(pat_credential(pat, m)),
        Err(e) => AfterMint::Revoke(pat.id.clone(), e),
    }
}

/// What is done when a credential was to be kept: a token that could not be kept is
/// revoked.
pub fn after_save(pat: &CreateCliTokenResponse, saved: Result<(), CliError>) -> (r: Option<
    (String, CliError),
>)
    ensures
        match saved {
            Ok(_) => r is None,
            Err(e) => r matches Some(x) && x.0@ == pat.id@ && x.1 == e,
        },
{
    match saved {
        Ok(_) => None,
        Err(e) => Some((pat.id.clone(), e)),
    }
}

/// What a single question reports.
pub open spec fn poll_report(
    status: PollStatus,
    email: Option<Seq<char>>,
    prefix: Option<Seq<char>>,
) -> JsonView {
    JsonView::Object(
        seq![
            ("status"@, JsonView::Text(poll_status_name(status))),
            ("approved"@, JsonView::Bool(status == PollStatus::Approved)),
            ("email"@, text_or_null(email)),
            ("token_prefix"@, text_or_null(prefix)),
        ],
    )
}

/// What a single question reports.
fn poll_json(status: PollStatus, email: Option<&str>, prefix: Option<&str>) -> (r: Json)
    ensures
        r.value() == poll_report(status, opt_str_view(email), opt_str_view(prefix)),
{
    let m = with_member(no_members(), "status", Json::text(status.as_str()));
    let m = with_member(m, "approved", Json::Bool(status == PollStatus::Approved));
    let m = with_member(m, "email", Json::opt_text(email));
    let m = with_member(m, "token_prefix", Json::opt_text(prefix));
    assert(member_views(m@) =~= poll_report(
        status,
        opt_str_view(email),
        opt_str_view(prefix),
    )->Object_0);
    Json::object(m)
}

/// What people are told after a single question.
pub open spec fn poll_text(status: PollStatus) -> Seq<char> {
    match status {
        PollStatus::Approved => "✓ approved — PAT saved to ~/.knack/auth.json. Persists across all future shells."@,
        PollStatus::AuthorizationPending => "waiting for approval — re-run --poll in a few seconds"@,
        PollStatus::SlowDown => "slow down — poll interval too tight, wait longer"@,
        PollStatus::Denied => "approval denied"@,
        PollStatus::Expired => "device code expired — run --start again"@,
    }
}

/// What people are told after a single question.
pub fn poll_line(status: PollStatus) -> (r: &'static str)
    ensures
        r@ == poll_text(status),
{
    match status {
        PollStatus::Approved =>
            "✓ approved — PAT saved to ~/.knack/auth.json. Persists across all future shells.",
        PollStatus::AuthorizationPending =>
            "waiting for approval — re-run --poll in a few seconds",
        PollStatus::SlowDown => "slow down — poll interval too tight, wait longer",
        PollStatus::Denied => "approval denied",
        PollStatus::Expired => "device code expired — run --start again",
    }
}

/// What comes next after a single question.
#[derive(Debug)]
pub enum PollStep {
    /// Make a token with the access that was granted.
    Mint(String),
    Done(Told),
    Fail(CliError),
}

/// What was made of an approval: whose it is, and the start of the token.
#[derive(Debug)]
pub struct Minted {
    pub email: String,
    pub prefix: String,
}

/// The question is over, with a report and the line for its status.
pub open spec fn poll_done(r: PollStep, status: PollStatus, minted: Option<Minted>) -> bool {
    r matches PollStep::Done(t) && t.report.value() == poll_report(
        status,
        match minted {
            Some(x) => Some(x.email@),
            None => None,
        },
        match minted {
            Some(x) => Some(x.prefix@),
            None => None,
        },
    ) && views(t.lines@) == seq![poll_text(status)]
}

/// What comes next after a single question: an approval leads to a token, and anything
/// else is told.
pub fn login_poll(
    answer: Result<DevicePollResponse, CliError>,
    minted: Option<Result<Minted, CliError>>,
) -> (r: PollStep)
    ensures
        match answer {
            Err(e) => r matches PollStep::Fail(x) && x == e,
            Ok(a) => if a.status != PollStatus::Approved {
                poll_done(r, a.status, None)
            } else if a.access_token is None || a.access_token->0@.len() == 0 {
                r matches PollStep::Fail(x) && x@ == ErrorView::AuthFailed(
                    "server omitted access token"@,
                )
            } else {
                match minted {
                    None => r matches PollStep::Mint(t) && t@ == a.access_token->0@,
                    Some(Err(e)) => r matches PollStep::Fail(x) && x == e,
                    Some(Ok(x)) => poll_done(r, a.status, Some(x)),
                }
            },
        },
{
    let a = match answer {
        Ok(a) => a,
        Err(e) => {
            return PollStep::Fail(e);
        },
    };
    let mut lines: Vec<String> = Vec::new();
    lines.push(poll_line(a.status).to_owned());
    assert(views(lines@) =~= seq![poll_text(a.status)]);
    if a.status != PollStatus::Approved {
        return PollStep::Done(Told { report: poll_json(a.status, None, None), lines });
    }
    match access_of(opt_str(&a.access_token)) {
        Err(e) => PollStep::Fail(e),
        Ok(access) => match minted {
            None => PollStep::Mint(access),
            Some(Err(e)) => PollStep::Fail(e),
            Some(Ok(x)) => PollStep::Done(
                Told {
                    report: poll_json(
                        a.status,
                        Some(x.email.as_str()),
                        Some(x.prefix.as_str()),
                    ),
                    lines,
                },
            ),
        },
    }
}

/// What signing in reports.
pub open spec fn login_report(me: Me, account: Seq<char>, pat: CreateCliTokenResponse) -> JsonView {
    JsonView::Object(
        seq![
            ("user_id"@, JsonView::Text(me.id@)),
            ("email"@, JsonView::Text(me.email@)),
            ("name"@, text_or_null(opt_view(me.name))),
            ("plan"@, JsonView::Text(me.plan@)),
            ("account"@, JsonView::Text(account)),
            ("token_id"@, JsonView::Text(pat.id@)),
            ("token_prefix"@, JsonView::Text(pat.prefix@)),
            ("expires_at"@, moment_json(pat.expires_at)),
        ],
    )
}

/// What signing in reports. The token itself is not told.
pub fn login_json(me: &Me, account: &str, pat: &CreateCliTokenResponse) -> (r: Json)
    ensures
        r.value() == login_report(*me, account@, *pat),
{
    let m = with_member(no_members(), "user_id", Json::text(me.id.as_str()));
    let m = with_member(m, "email", Json::text(me.email.as_str()));
    let m = with_member(m, "name", Json::opt_text(opt_str(&me.name)));
    let m = with_member(m, "plan", Json::text(me.plan.as_str()));
    let m = with_member(m, "account", Json::text(account));
    let m = with_member(m, "token_id", Json::text(pat.id.as_str()));
    let m = with_member(m, "token_prefix", Json::text(pat.prefix.as_str()));
    let m = with_member(m, "expires_at", moment(&pat.expires_at));
    assert(member_views(m@) =~= login_report(*me, account@, *pat)->Object_0);
    Json::object(m)
}

/// What starting to sign in reports.
pub fn login_start(start: &DeviceAuthStart) -> (r: Json)
    ensures
        r.value() == JsonView::Object(
            seq![
                ("device_code"@, JsonView::Text(start.device_code@)),
                ("user_code"@, JsonView::Text(start.user_code@)),
                ("verification_uri"@, JsonView::Text(start.verification_uri@)),
                ("expires_in"@, JsonView::Int(start.expires_in as int)),
                ("interval"@, JsonView::Int(start.interval as int)),
            ],
        ),
{
    let m = with_member(no_members(), "device_code", Json::text(start.device_code.as_str()));
    let m = with_member(m, "user_code", Json::text(start.user_code.as_str()));
    let m = with_member(m, "verification_uri", Json::text(start.verification_uri.as_str()));
    let m = with_member(m, "expires_in", Json::Neg(start.expires_in));
    let m = with_member(m, "interval", Json::Nat(start.interval));
    assert(member_views(m@) =~= seq![
        ("device_code"@, JsonView::Text(start.device_code@)),
        ("user_code"@, JsonView::Text(start.user_code@)),
        ("verification_uri"@, JsonView::Text(start.verification_uri@)),
        ("expires_in"@, JsonView::Int(start.expires_in as int)),
        ("interval"@, JsonView::Int(start.interval as int)),
    ]);
    Json::object(m)
}

// ---------------------------------------------------------------------------
// Signing out
// ---------------------------------------------------------------------------

/// What is given up on the server when signing out.
#[derive(Debug)]
pub enum Revocation {
    /// The token with the id.
    Token(String),
    /// The session with the refresh token.
    Session(String),
    Nothing,
}

/// What is given up on the server when signing out: a token by its id, else a
/// session. The local credential goes whatever the server says.
pub fn logout(stored: Option<&StoredCredential>) -> (r: Revocation)
    ensures
        match stored {
            None => r is Nothing,
            Some(c) => match (c.token_id, c.refresh_token) {
                (Some(id), _) => r matches Revocation::Token(t) && t@ == id@,
                (None, Some(s)) => r matches Revocation::Session(t) && t@ == s@,
                (None, None) => r is Nothing,
            },
        },
{
    match stored {
        None => Revocation::Nothing,
        Some(c) => match (&c.token_id, &c.refresh_token) {
            (Some(id), _) => Revocation::Token(id.clone()),
            (None, Some(s)) => Revocation::Session(s.clone()),
            (None, None) => Revocation::Nothing,
        },
    }
}

/// What signing out reports.
pub fn logout_json(account: &str) -> (r: Json)
    ensures
        r.value() == JsonView::Object(
            seq![("account"@, JsonView::Text(account@)), ("logged_out"@, JsonView::Bool(true))],
        ),
{
    let m = with_member(no_members(), "account", Json::text(account));
    let m = with_member(m, "logged_out", Json::Bool(true));
    assert(member_views(m@) =~= seq![
        ("account"@, JsonView::Text(account@)),
        ("logged_out"@, JsonView::Bool(true)),
    ]);
    Json::object(m)
}

/// What is done to renew a credential.
#[derive(Debug)]
pub enum RefreshStep {
    /// Ask the server.
    Ask,
    /// There is nothing to renew.
    Told(Json),
}

/// What is done to renew the credential that is kept: nothing for a personal token,
/// which lives until it is revoked or expires.
pub fn refresh(stored: Option<&StoredCredential>) -> (r: RefreshStep)
    ensures
        match stored {
            Some(c) => if is_personal(c.token@) {
                r matches RefreshStep::Told(j) && j.value() == JsonView::Object(
                    seq![
                        ("refreshed"@, JsonView::Bool(false)),
                        ("reason"@, JsonView::Text("pat_no_refresh_needed"@)),
                        ("token_prefix"@, text_or_null(opt_view(c.prefix))),
                    ],
                )
            } else {
                r is Ask
            },
            None => r is Ask,
        },
{
    match stored {
        Some(c) => {
            if is_pat(c.token.as_str()) {
                let m = with_member(no_members(), "refreshed", Json::Bool(false));
                let m = with_member(m, "reason", Json::text("pat_no_refresh_needed"));
                let m = with_member(m, "token_prefix", Json::opt_text(opt_str(&c.prefix)));
                assert(member_views(m@) =~= seq![
                    ("refreshed"@, JsonView::Bool(false)),
                    ("reason"@, JsonView::Text("pat_no_refresh_needed"@)),
                    ("token_prefix"@, text_or_null(opt_view(c.prefix))),
                ]);
                return RefreshStep::Told(Json::object(m));
            }
            RefreshStep::Ask
        },
        None => RefreshStep::Ask,
    }
}

/// What renewing reports where skills are in a repository of one's own.
pub fn github_refresh_noop() -> (r: Json)
    ensures
        r.value() == JsonView::Object(
            seq![
                ("backend"@, JsonView::Text("github"@)),
                ("refreshed"@, JsonView::Bool(false)),
                ("message"@, JsonView::Text("nothing to refresh in self-host mode"@)),
            ],
        ),
{
    let m = with_member(no_members(), "backend", Json::text("github"));
    let m = with_member(m, "refreshed", Json::Bool(false));
    let m = with_member(m, "message", Json::text("nothing to refresh in self-host mode"));
    assert(member_views(m@) =~= seq![
        ("backend"@, JsonView::Text("github"@)),
        ("refreshed"@, JsonView::Bool(false)),
        ("message"@, JsonView::Text("nothing to refresh in self-host mode"@)),
    ]);
    Json::object(m)
}

// ---------------------------------------------------------------------------
// Status
// ---------------------------------------------------------------------------

/// Where the token in play comes from.
#[derive(Debug, Clone, Copy, PartialEq, Eq, Structural)]
pub enum BearerSource {
    PatFile,
    JwtFile,
    PatEnv,
    JwtEnv,
    KeyringJwt,
}

/// The name of a source.
pub open spec fn source_name(s: BearerSource) -> Seq<char> {
    match s {
        BearerSource::PatFile => "pat_file"@,
        BearerSource::JwtFile => "jwt_file"@,
        BearerSource::PatEnv => "pat_env"@,
        BearerSource::JwtEnv => "jwt_env"@,
        BearerSource::KeyringJwt => "keyring_jwt"@,
    }
}

impl BearerSource {
    /// The name of the source.
    pub fn as_str(self) -> (r: &'static str)
        ensures
            r@ == source_name(self),
    {
        match self {
            BearerSource::PatFile => "pat_file",
            BearerSource::JwtFile => "jwt_file",
            BearerSource::PatEnv => "pat_env",
            BearerSource::JwtEnv => "jwt_env",
            BearerSource::KeyringJwt => "keyring_jwt",
        }
    }
}

/// The start of a personal token, which may be shown.
pub open spec fn shown_prefix(token: Seq<char>) -> Option<Seq<char>> {
    if is_personal(token) {
        Some(crate::text::head(token, 16))
    } else {
        None
    }
}

/// The start of a personal token, which may be shown.
pub fn pat_display_prefix(token: &str) -> (r: Option<String>)
    ensures
        opt_view(r) == shown_prefix(token@),
{
    if !is_pat(token) {
        return None;
    }
    Some(take_chars(token, 16).to_owned())
}

/// What is known of the token in play.
#[derive(Debug)]
pub struct BearerInfo {
    pub source: BearerSource,
    pub prefix: Option<String>,
    pub expires_in_secs: Option<i64>,
    pub token_id: Option<String>,
}

/// What is known of the token in play, as a mathematical value.
pub ghost struct BearerView {
    pub source: BearerSource,
    pub prefix: Option<Seq<char>>,
    pub expires_in_secs: Option<int>,
    pub token_id: Option<Seq<char>>,
}

impl View for BearerInfo {
    type V = BearerView;

    open spec fn view(&self) -> BearerView {
        BearerView {
            source: self.source,
            prefix: opt_view(self.prefix),
            expires_in_secs: opt_int(self.expires_in_secs),
            token_id: opt_view(self.token_id),
        }
    }
}

/// What is known of the token in play: the one that is given, else the one that is
/// kept, else the one that an old version kept.
pub open spec fn bearer_in_play(
    given: Option<Seq<char>>,
    stored: Option<StoredCredential>,
    legacy: Option<Seq<char>>,
    now: int,
) -> Option<BearerView> {
    if given is Some {
        let t = given->0;
        Some(
            BearerView {
                source: if is_personal(t) {
                    BearerSource::PatEnv
                } else {
                    BearerSource::JwtEnv
                },
                prefix: shown_prefix(t),
                expires_in_secs: if is_personal(t) {
                    None
                } else {
                    from_now(exp_of(t), now)
                },
                token_id: None,
            },
        )
    } else if stored is Some {
        let c = stored->0;
        if is_personal(c.token@) {
            Some(
                BearerView {
                    source: BearerSource::PatFile,
                    prefix: if c.prefix is Some {
                        opt_view(c.prefix)
                    } else {
                        shown_prefix(c.token@)
                    },
                    expires_in_secs: from_now(opt_int(c.expires_at), now),
                    token_id: opt_view(c.token_id),
                },
            )
        } else {
            Some(
                BearerView {
                    source: BearerSource::JwtFile,
                    prefix: None,
                    expires_in_secs: from_now(exp_of(c.token@), now),
                    token_id: None,
                },
            )
        }
    } else if legacy is Some {
        Some(
            BearerView {
                source: BearerSource::KeyringJwt,
                prefix: None,
                expires_in_secs: from_now(exp_of(legacy->0), now),
                token_id: None,
            },
        )
    } else {
        None
    }
}

/// What is known of the token in play. There is none only where there is no
/// credential anywhere.
pub fn resolve_status_source(
    given: Option<&str>,
    stored: Option<&StoredCredential>,
    legacy: Option<&str>,
    now: i64,
) -> (r: Option<BearerInfo>)
    ensures
        match r {
            Some(b) => bearer_in_play(
                opt_str_view(given),
                match stored {
                    Some(c) => Some(*c),
                    None => None,
                },
                opt_str_view(legacy),
                now as int,
            ) == Some(b@),
            None => given is None && stored is None && legacy is None,
        },
{
    match given {
        Some(t) => {
            let personal = is_pat(t);
            return Some(
                BearerInfo {
                    source: if personal {
                        BearerSource::PatEnv
                    } else {
                        BearerSource::JwtEnv
                    },
                    prefix: pat_display_prefix(t),
                    expires_in_secs: if personal {
                        None
                    } else {
                        jwt_exp_seconds_from_now(t, now)
                    },
                    token_id: None,
                },
            );
        },
        None => {},
    }
    match stored {
        Some(c) => {
            if is_pat(c.token.as_str()) {
                return Some(
                    BearerInfo {
                        source: BearerSource::PatFile,
                        prefix: match &c.prefix {
                            Some(p) => Some(p.clone()),
                            None => pat_display_prefix(c.token.as_str()),
                        },
                        expires_in_secs: seconds_from_now(c.expires_at, now),
                        token_id: opt_owned(opt_str(&c.token_id)),
                    },
                );
            }
            return Some(
                BearerInfo {
                    source: BearerSource::JwtFile,
                    prefix: None,
                    expires_in_secs: jwt_exp_seconds_from_now(c.token.as_str(), now),
                    token_id: None,
                },
            );
        },
        None => {},
    }
    match legacy {
        Some(t) => Some(
            BearerInfo {
                source: BearerSource::KeyringJwt,
                prefix: None,
                expires_in_secs: jwt_exp_seconds_from_now(t, now),
                token_id: None,
            },
        ),
        None => None,
    }
}

/// What people are told of where the token in play comes from.
pub open spec fn source_text(source: BearerSource, secs: Option<int>) -> Seq<char> {
    match source {
        BearerSource::PatFile => ", token via ~/.knack/auth.json (manage at getknack.ai/app/settings#cli-tokens)"@,
        BearerSource::PatEnv => ", via KNACK_AUTH_TOKEN env (personal access token)"@,
        BearerSource::JwtEnv => ", via KNACK_AUTH_TOKEN env (JWT)"@,
        BearerSource::JwtFile => match secs {
            Some(s) => if s > 0 {
                ", JWT valid for "@ + duration_text(s)
            } else {
                ", JWT expired (refresh on next call)"@
            },
            None => ", JWT (no expiry recorded)"@,
        },
        BearerSource::KeyringJwt => if secs is Some && secs->0 > 0 {
            ", legacy keyring JWT valid for "@ + duration_text(secs->0)
                + " (re-run `knack auth login` to upgrade)"@
        } else {
            ", legacy keyring JWT (re-run `knack auth login` to upgrade)"@
        },
    }
}

/// It is time to renew the credential: it can be renewed, and has less than a day.
pub open spec fn renew_soon(source: BearerSource, secs: Option<int>) -> bool {
    (source == BearerSource::JwtFile || source == BearerSource::KeyringJwt) && secs is Some && 0
        < secs->0 < 86400
}

/// What people are told of the credential.
pub open spec fn status_text(
    email: Seq<char>,
    plan: Seq<char>,
    source: BearerSource,
    secs: Option<int>,
) -> Seq<Seq<char>> {
    let first = email + " ("@ + plan + ")"@ + source_text(source, secs);
    if renew_soon(source, secs) {
        seq![first, "    proactively refresh with `knack auth refresh`"@]
    } else {
        seq![first]
    }
}

fn tell_source(source: BearerSource, secs: Option<i64>) -> (r: String)
    ensures
        r@ == source_text(source, opt_int(secs)),
{
    match source {
        BearerSource::PatFile =>
            ", token via ~/.knack/auth.json (manage at getknack.ai/app/settings#cli-tokens)".to_owned(),
        BearerSource::PatEnv => ", via KNACK_AUTH_TOKEN env (personal access token)".to_owned(),
        BearerSource::JwtEnv => ", via KNACK_AUTH_TOKEN env (JWT)".to_owned(),
        BearerSource::JwtFile => match secs {
            Some(s) => if s > 0 {
                let d = human_duration(s);
                prefixed(", JWT valid for ", d.as_str())
            } else {
                ", JWT expired (refresh on next call)".to_owned()
            },
            None => ", JWT (no expiry recorded)".to_owned(),
        },
        BearerSource::KeyringJwt => {
            match secs {
                Some(s) => {
                    if s > 0 {
                        let d = human_duration(s);
                        return concat3(
                            ", legacy keyring JWT valid for ",
                            d.as_str(),
                            " (re-run `knack auth login` to upgrade)",
                        );
                    }
                },
                None => {},
            }
            ", legacy keyring JWT (re-run `knack auth login` to upgrade)".to_owned()
        },
    }
}

/// What people are told of the credential.
pub fn status_lines(me: &Me, info: &BearerInfo) -> (r: Vec<String>)
    ensures
        views(r@) == status_text(me.email@, me.plan@, info@.source, info@.expires_in_secs),
{
    let suffix = tell_source(info.source, info.expires_in_secs);
    let mut out: Vec<String> = Vec::new();
    out.push(concat5(me.email.as_str(), " (", me.plan.as_str(), ")", suffix.as_str()));
    let refreshes = info.source == BearerSource::JwtFile || info.source == BearerSource::KeyringJwt;
    match info.expires_in_secs {
        Some(s) => {
            if refreshes && s > 0 && s < 86_400 {
                out.push("    proactively refresh with `knack auth refresh`".to_owned());
            }
        },
        None => {},
    }
    assert(views(out@) =~= status_text(
        me.email@,
        me.plan@,
        info@.source,
        info@.expires_in_secs,
    ));
    out
}

pub open spec fn int_or_null(o: Option<int>) -> JsonView {
    match o {
        Some(n) => JsonView::Int(n),
        None => JsonView::Null,
    }
}

/// A number or nothing as JSON.
pub fn opt_number(o: Option<i64>) -> (r: Json)
    ensures
        r.value() == int_or_null(opt_int(o)),
{
    match o {
        Some(n) => Json::Neg(n),
        None => Json::Null,
    }
}

/// What the status reports.
pub open spec fn status_report(me: Me, account: Seq<char>, b: BearerView) -> JsonView {
    JsonView::Object(
        seq![
            ("user_id"@, JsonView::Text(me.id@)),
            ("email"@, JsonView::Text(me.email@)),
            ("plan"@, JsonView::Text(me.plan@)),
            ("account"@, JsonView::Text(account)),
            ("auth_method"@, JsonView::Text(me.auth_method@)),
            ("bearer_source"@, JsonView::Text(source_name(b.source))),
            ("token_prefix"@, text_or_null(b.prefix)),
            ("token_id"@, text_or_null(b.token_id)),
            ("token_expires_in_seconds"@, int_or_null(b.expires_in_secs)),
        ],
    )
}

/// What the status reports.
pub fn status_json(me: &Me, account: &str, info: &BearerInfo) -> (r: Json)
    ensures
        r.value() == status_report(*me, account@, info@),
{
    let m = with_member(no_members(), "user_id", Json::text(me.id.as_str()));
    let m = with_member(m, "email", Json::text(me.email.as_str()));
    let m = with_member(m, "plan", Json::text(me.plan.as_str()));
    let m = with_member(m, "account", Json::text(account));
    let m = with_member(m, "auth_method", Json::text(me.auth_method.as_str()));
    let m = with_member(m, "bearer_source", Json::text(info.source.as_str()));
    let m = with_member(m, "token_prefix", Json::opt_text(opt_str(&info.prefix)));
    let m = with_member(m, "token_id", Json::opt_text(opt_str(&info.token_id)));
    let m = with_member(m, "token_expires_in_seconds", opt_number(info.expires_in_secs));
    assert(member_views(m@) =~= status_report(*me, account@, info@)->Object_0);
    Json::object(m)
}

// ---------------------------------------------------------------------------
// With a repository of one's own
// ---------------------------------------------------------------------------

/// What is known of `gh`.
#[derive(Debug)]
pub enum GhAuthProbe {
    Authenticated { user: String },
    Unauthenticated,
    NotInstalled,
}

/// What became of asking `gh` who is signed in.
#[derive(Debug)]
pub enum GhAnswer {
    Printed(String),
    Failed,
    NotRun,
}

/// What is known of `gh`, by what became of asking it.
pub fn probe_gh_auth(answer: &GhAnswer) -> (r: GhAuthProbe)
    ensures
        match *answer {
            GhAnswer::Printed(t) => if trimmed(t@).len() > 0 {
                r matches GhAuthProbe::Authenticated { user } && user@ == trimmed(t@)
            } else {
                r is Unauthenticated
            },
            GhAnswer::Failed => r is Unauthenticated,
            GhAnswer::NotRun => r is NotInstalled,
        },
{
    match answer {
        GhAnswer::Printed(t) => {
            let user = trim(t.as_str());
            if user.is_empty() {
                GhAuthProbe::Unauthenticated
            } else {
                GhAuthProbe::Authenticated { user: user.to_owned() }
            }
        },
        GhAnswer::Failed => GhAuthProbe::Unauthenticated,
        GhAnswer::NotRun => GhAuthProbe::NotInstalled,
    }
}

/// What is told of `gh`.
pub open spec fn gh_message(p: GhAuthProbe) -> Seq<char> {
    match p {
        GhAuthProbe::Authenticated { user } => "gh authenticated as `"@ + user@ + "`"@,
        GhAuthProbe::Unauthenticated => "gh is installed but not authenticated — run `gh auth login`"@,
        GhAuthProbe::NotInstalled => "gh CLI not on PATH — install from https://cli.github.com, then `gh auth login`"@,
    }
}

pub open spec fn gh_status(p: GhAuthProbe) -> Seq<char> {
    match p {
        GhAuthProbe::Authenticated { user: _ } => "authenticated"@,
        GhAuthProbe::Unauthenticated => "unauthenticated"@,
        GhAuthProbe::NotInstalled => "gh_missing"@,
    }
}

pub open spec fn gh_user(p: GhAuthProbe) -> Option<Seq<char>> {
    match p {
        GhAuthProbe::Authenticated { user } => Some(user@),
        _ => None,
    }
}

/// What is reported where there is nothing to sign in to.
pub open spec fn gh_login_report(p: GhAuthProbe) -> JsonView {
    JsonView::Object(
        seq![
            ("backend"@, JsonView::Text("github"@)),
            ("needs_signin"@, JsonView::Bool(false)),
            ("gh_status"@, JsonView::Text(gh_status(p))),
            ("gh_user"@, text_or_null(gh_user(p))),
            ("needs_action"@, JsonView::Bool(!(p is Authenticated))),
            ("message"@, JsonView::Text(gh_message(p))),
        ],
    )
}

/// What is reported where there is nothing to sign in to: whether `gh` is ready.
pub fn github_login_noop(probe: &GhAuthProbe) -> (r: Json)
    ensures
        r.value() == gh_login_report(*probe),
{
    let (status, user, message, needs_action) = match probe {
        GhAuthProbe::Authenticated { user } => (
            "authenticated",
            Some(user.as_str()),
            concat3("gh authenticated as `", user.as_str(), "`"),
            false,
        ),
        GhAuthProbe::Unauthenticated => (
            "unauthenticated",
            None,
            "gh is installed but not authenticated — run `gh auth login`".to_owned(),
            true,
        ),
        GhAuthProbe::NotInstalled => (
            "gh_missing",
            None,
            "gh CLI not on PATH — install from https://cli.github.com, then `gh auth login`".to_owned(),
            true,
        ),
    };
    let m = with_member(no_members(), "backend", Json::text("github"));
    let m = with_member(m, "needs_signin", Json::Bool(false));
    let m = with_member(m, "gh_status", Json::text(status));
    let m = with_member(m, "gh_user", Json::opt_text(user));
    let m = with_member(m, "needs_action", Json::Bool(needs_action));
    let m = with_member(m, "message", Json::text(message.as_str()));
    assert(member_views(m@) =~= gh_login_report(*probe)->Object_0);
    Json::object(m)
}

/// What is reported of a repository of one's own.
pub open spec fn github_report(
    owner: Seq<char>,
    repo: Seq<char>,
    path: Seq<char>,
    present: bool,
    user: Option<Seq<char>>,
) -> JsonView {
    JsonView::Object(
        seq![
            ("backend"@, JsonView::Text("github"@)),
            ("owner"@, JsonView::Text(owner)),
            ("repo"@, JsonView::Text(repo)),
            ("local_path"@, JsonView::Text(path)),
            ("local_clone_present"@, JsonView::Bool(present)),
            ("gh_user"@, text_or_null(user)),
            ("needs_signin"@, JsonView::Bool(false)),
        ],
    )
}

/// What is reported of a repository of one's own.
pub fn github_status(
    owner: &str,
    repo: &str,
    local_path: &str,
    present: bool,
    user: Option<&str>,
) -> (r: Json)
    ensures
        r.value() == github_report(owner@, repo@, local_path@, present, opt_str_view(user)),
{
    let m = with_member(no_members(), "backend", Json::text("github"));
    let m = with_member(m, "owner", Json::text(owner));
    let m = with_member(m, "repo", Json::text(repo));
    let m = with_member(m, "local_path", Json::text(local_path));
    let m = with_member(m, "local_clone_present", Json::Bool(present));
    let m = with_member(m, "gh_user", Json::opt_text(user));
    let m = with_member(m, "needs_signin", Json::Bool(false));
    assert(member_views(m@) =~= github_report(
        owner@,
        repo@,
        local_path@,
        present,
        opt_str_view(user),
    )->Object_0);
    Json::object(m)
}

// ---------------------------------------------------------------------------
// What people are told
// ---------------------------------------------------------------------------

/// What people are told while their browser opens.
pub fn opening_lines(start: &DeviceAuthStart) -> (r: Vec<String>)
    ensures
        views(r@) == seq![
            "Opening "@ + start.verification_uri@ + " ..."@,
            "If a browser doesn't open, visit it manually. Code: "@ + start.user_code@,
        ],
{
    let mut out: Vec<String> = Vec::new();
    out.push(concat3("Opening ", start.verification_uri.as_str(), " ..."));
    out.push(
        prefixed("If a browser doesn't open, visit it manually. Code: ", start.user_code.as_str()),
    );
    assert(views(out@) =~= seq![
        "Opening "@ + start.verification_uri@ + " ..."@,
        "If a browser doesn't open, visit it manually. Code: "@ + start.user_code@,
    ]);
    out
}

/// What people are told who sign in step by step.
pub fn login_start_lines(start: &DeviceAuthStart) -> (r: Vec<String>)
    ensures
        views(r@) == seq![
            "Open "@ + start.verification_uri@ + " and approve the code:"@,
            "  "@ + start.user_code@,
            "Then run: knack auth login --poll "@ + start.device_code@
                + " (repeat until approved)"@,
        ],
{
    let mut out: Vec<String> = Vec::new();
    out.push(concat3("Open ", start.verification_uri.as_str(), " and approve the code:"));
    out.push(prefixed("  ", start.user_code.as_str()));
    out.push(
        concat3(
            "Then run: knack auth login --poll ",
            start.device_code.as_str(),
            " (repeat until approved)",
        ),
    );
    assert(views(out@) =~= seq![
        "Open "@ + start.verification_uri@ + " and approve the code:"@,
        "  "@ + start.user_code@,
        "Then run: knack auth login --poll "@ + start.device_code@ + " (repeat until approved)"@,
    ]);
    out
}

/// What people are told once they are signed in.
pub fn login_lines(me: &Me) -> (r: Vec<String>)
    ensures
        views(r@) == seq![
            "✓ logged in as "@ + me.email@ + " ("@ + me.plan@
                + "). Token saved to ~/.knack/auth.json."@,
            "  Persists across all shells and sandboxed agents on this machine."@,
        ],
{
    let mut out: Vec<String> = Vec::new();
    out.push(
        concat5(
            "✓ logged in as ",
            me.email.as_str(),
            " (",
            me.plan.as_str(),
            "). Token saved to ~/.knack/auth.json.",
        ),
    );
    out.push("  Persists across all shells and sandboxed agents on this machine.".to_owned());
    assert(views(out@) =~= seq![
        "✓ logged in as "@ + me.email@ + " ("@ + me.plan@
            + "). Token saved to ~/.knack/auth.json."@,
        "  Persists across all shells and sandboxed agents on this machine."@,
    ]);
    out
}

/// What is told of a credential that was renewed, by the seconds until it expires.
pub fn refreshed(seconds: i64) -> (r: Told)
    ensures
        r.report.value() == JsonView::Object(
            seq![("token_expires_in_seconds"@, JsonView::Int(seconds as int))],
        ),
        views(r.lines@) == seq!["✓ refreshed, token valid for "@ + duration_text(seconds as int)],
{
    let m = with_member(no_members(), "token_expires_in_seconds", Json::Neg(seconds));
    assert(member_views(m@) =~= seq![
        ("token_expires_in_seconds"@, JsonView::Int(seconds as int)),
    ]);
    let d = human_duration(seconds);
    let mut lines: Vec<String> = Vec::new();
    lines.push(prefixed("✓ refreshed, token valid for ", d.as_str()));
    assert(views(lines@) =~= seq![
        "✓ refreshed, token valid for "@ + duration_text(seconds as int),
    ]);
    Told { report: Json::object(m), lines }
}

/// What people are told where there is nothing to sign in to.
pub open spec fn gh_login_text(p: GhAuthProbe) -> Seq<Seq<char>> {
    let first = seq![
        "self-host mode uses your gh credential — no Knack sign-in needed."@,
        ""@,
        gh_message(p),
    ];
    let second = if p is Authenticated {
        first
    } else {
        first.push("once gh is set up, knack publish/run/mark will work."@)
    };
    second.push(""@).push(
        "to switch to Knack Cloud, run `knack init --cloud` and then `knack auth login`."@,
    )
}

/// What people are told where there is nothing to sign in to.
pub fn github_login_lines(probe: &GhAuthProbe) -> (r: Vec<String>)
    ensures
        views(r@) == gh_login_text(*probe),
{
    let (message, ready) = match probe {
        GhAuthProbe::Authenticated { user } => (
            concat3("gh authenticated as `", user.as_str(), "`"),
            true,
        ),
        GhAuthProbe::Unauthenticated => (
            "gh is installed but not authenticated — run `gh auth login`".to_owned(),
            false,
        ),
        GhAuthProbe::NotInstalled => (
            "gh CLI not on PATH — install from https://cli.github.com, then `gh auth login`".to_owned(),
            false,
        ),
    };
    let mut out: Vec<String> = Vec::new();
    out.push(
        "self-host mode uses your gh credential — no Knack sign-in needed.".to_owned(),
    );
    out.push("".to_owned());
    out.push(message);
    if !ready {
        out.push("once gh is set up, knack publish/run/mark will work.".to_owned());
    }
    out.push("".to_owned());
    out.push(
        "to switch to Knack Cloud, run `knack init --cloud` and then `knack auth login`.".to_owned(),
    );
    assert(views(out@) =~= gh_login_text(*probe));
    out
}

/// What people are told of a repository of one's own.
pub fn github_status_lines(
    owner: &str,
    repo: &str,
    local_path: &str,
    present: bool,
    user: Option<&str>,
) -> (r: Vec<String>)
    ensures
        views(r@) == seq![
            "backend:     github (self-host)"@,
            "repo:        "@ + owner@ + "/"@ + repo@,
            "local clone: "@ + local_path@ + (if present {
                ""@
            } else {
                "  (missing)"@
            }),
            "gh user:     "@ + (match opt_str_view(user) {
                Some(u) => u,
                None => "(not signed in via gh; run `gh auth login`)"@,
            }),
        ],
{
    let mut out: Vec<String> = Vec::new();
    out.push("backend:     github (self-host)".to_owned());
    out.push(concat4("repo:        ", owner, "/", repo));
    let missing = if present {
        ""
    } else {
        "  (missing)"
    };
    out.push(concat3("local clone: ", local_path, missing));
    let told = match user {
        Some(u) => u,
        None => "(not signed in via gh; run `gh auth login`)",
    };
    out.push(prefixed("gh user:     ", told));
    assert(views(out@) =~= seq![
        "backend:     github (self-host)"@,
        "repo:        "@ + owner@ + "/"@ + repo@,
        "local clone: "@ + local_path@ + missing@,
        "gh user:     "@ + told@,
    ]);
    out
}

} // verus!
