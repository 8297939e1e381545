//! Typed errors with stable exit codes.
//!
//! Whatever ends the program with a non-zero exit is one of these variants.

use vstd::prelude::*;

use crate::numbers::{decimal, u64_text};
use crate::text::{opt_owned, opt_str, opt_str_view, opt_view};

verus! {

/// Stable exit codes. They are never re-numbered.
#[derive(Debug, Clone, Copy, PartialEq, Eq, Structural)]
pub struct ExitCode(pub i32);

impl ExitCode {
    pub const SUCCESS: i32 = 0;

    pub const USER: i32 = 1;

    pub const AUTH: i32 = 2;

    pub const NETWORK: i32 = 3;

    pub const CONFLICT: i32 = 4;

    pub const PLAN: i32 = 5;

    pub const USAGE: i32 = 64;

    pub const INTERNAL: i32 = 70;
}

/// All structured errors.
#[derive(Debug)]
pub enum CliError {
    User { code: String, message: String, hint: Option<String> },
    AuthRequired,
    AuthFailed(String),
    Network(String),
    Conflict { message: String, hint: Option<String> },
    PlanLimit { message: String, hint: Option<String> },
    NotFound(String),
    Server { status: u16, code: String, message: String },
    Internal(String),
}

pub type CliResult<T> = Result<T, CliError>;

/// What an error says, as mathematical values.
pub ghost enum ErrorView {
    User { code: Seq<char>, message: Seq<char>, hint: Option<Seq<char>> },
    AuthRequired,
    AuthFailed(Seq<char>),
    Network(Seq<char>),
    Conflict { message: Seq<char>, hint: Option<Seq<char>> },
    PlanLimit { message: Seq<char>, hint: Option<Seq<char>> },
    NotFound(Seq<char>),
    Server { status: int, code: Seq<char>, message: Seq<char> },
    Internal(Seq<char>),
}

impl View for CliError {
    type V = ErrorView;

    open spec fn view(&self) -> ErrorView {
        match *self {
            CliError::User { code, message, hint } => ErrorView::User {
                code: code@,
                message: message@,
                hint: opt_view(hint),
            },
            CliError::AuthRequired => ErrorView::AuthRequired,
            CliError::AuthFailed(m) => ErrorView::AuthFailed(m@),
            CliError::Network(m) => ErrorView::Network(m@),
            CliError::Conflict { message, hint } => ErrorView::Conflict {
                message: message@,
                hint: opt_view(hint),
            },
            CliError::PlanLimit { message, hint } => ErrorView::PlanLimit {
                message: message@,
                hint: opt_view(hint),
            },
            CliError::NotFound(m) => ErrorView::NotFound(m@),
            CliError::Server { status, code, message } => ErrorView::Server {
                status: status as int,
                code: code@,
                message: message@,
            },
            CliError::Internal(m) => ErrorView::Internal(m@),
        }
    }
}

/// The stable code of an error. A user error's own code wins over the generic one.
pub open spec fn code_of(e: ErrorView) -> Seq<char> {
    match e {
        ErrorView::User { code, .. } => if code.len() == 0 {
            "USER_ERROR"@
        } else {
            code
        },
        ErrorView::AuthRequired => "AUTH_REQUIRED"@,
        ErrorView::AuthFailed(_) => "AUTH_FAILED"@,
        ErrorView::Network(_) => "NETWORK"@,
        ErrorView::Conflict { .. } => "CONFLICT"@,
        ErrorView::PlanLimit { .. } => "PLAN_LIMIT_EXCEEDED"@,
        ErrorView::NotFound(_) => "NOT_FOUND"@,
        ErrorView::Server { .. } => "SERVER"@,
        ErrorView::Internal(_) => "INTERNAL"@,
    }
}

/// The exit code of an error.
pub open spec fn exit_code_of(e: ErrorView) -> int {
    match e {
        ErrorView::User { .. } => 1,
        ErrorView::NotFound(_) => 1,
        ErrorView::AuthRequired => 2,
        ErrorView::AuthFailed(_) => 2,
        ErrorView::Network(_) => 3,
        ErrorView::Conflict { .. } => 4,
        ErrorView::PlanLimit { .. } => 5,
        ErrorView::Server { .. } => 70,
        ErrorView::Internal(_) => 70,
    }
}

/// What an error advises.
pub open spec fn hint_of(e: ErrorView) -> Option<Seq<char>> {
    match e {
        ErrorView::User { hint, .. } => hint,
        ErrorView::Conflict { hint, .. } => hint,
        ErrorView::PlanLimit { hint, .. } => hint,
        ErrorView::AuthRequired => Some(
            "your knack session expired. run `knack auth login` to sign in again (about 30 seconds in the browser)"@,
        ),
        _ => None,
    }
}

/// What an error says to a person.
pub open spec fn message_of(e: ErrorView) -> Seq<char> {
    match e {
        ErrorView::User { message, .. } => message,
        ErrorView::AuthRequired => "not signed in — run `knack auth login`"@,
        ErrorView::AuthFailed(m) => "authentication failed: "@ + m,
        ErrorView::Network(m) => "network error: "@ + m,
        ErrorView::Conflict { message, .. } => "conflict: "@ + message,
        ErrorView::PlanLimit { message, .. } => "plan limit hit: "@ + message,
        ErrorView::NotFound(m) => "not found: "@ + m,
        ErrorView::Server { status, message, .. } => "server error ("@ + decimal(status as nat)
            + "): "@ + message,
        ErrorView::Internal(m) => m,
    }
}

impl CliError {
    /// Stable error code surfaced in JSON envelopes.
    pub fn code(&self) -> (r: &str)
        ensures
            r@ == code_of(self@),
    {
        match self {
            CliError::User { code, .. } => {
                if code.as_str().is_empty() {
                    "USER_ERROR"
                } else {
                    code.as_str()
                }
            },
            CliError::AuthRequired => "AUTH_REQUIRED",
            CliError::AuthFailed(_) => "AUTH_FAILED",
            CliError::Network(_) => "NETWORK",
            CliError::Conflict { .. } => "CONFLICT",
            CliError::PlanLimit { .. } => "PLAN_LIMIT_EXCEEDED",
            CliError::NotFound(_) => "NOT_FOUND",
            CliError::Server { .. } => "SERVER",
            CliError::Internal(_) => "INTERNAL",
        }
    }

    /// The exit code that the program ends with.
    pub fn exit_code(&self) -> (r: ExitCode)
        ensures
            r.0 == exit_code_of(self@),
    {
        match self {
            CliError::User { .. } | CliError::NotFound(_) => ExitCode(ExitCode::USER),
            CliError::AuthRequired | CliError::AuthFailed(_) => ExitCode(ExitCode::AUTH),
            CliError::Network(_) => ExitCode(ExitCode::NETWORK),
            CliError::Conflict { .. } => ExitCode(ExitCode::CONFLICT),
            CliError::PlanLimit { .. } => ExitCode(ExitCode::PLAN),
            CliError::Server { .. } | CliError::Internal(_) => ExitCode(ExitCode::INTERNAL),
        }
    }

    /// What to do about the error, where there is something to say.
    pub fn hint(&self) -> (r: Option<&str>)
        ensures
            opt_str_view(r) == hint_of(self@),
    {
        match self {
            CliError::User { hint, .. } => opt_str(hint),
            CliError::Conflict { hint, .. } => opt_str(hint),
            CliError::PlanLimit { hint, .. } => opt_str(hint),
            CliError::AuthRequired => Some(
                "your knack session expired. run `knack auth login` to sign in again (about 30 seconds in the browser)",
            ),
            _ => None,
        }
    }

    /// What the error says to a person.
    pub fn message(&self) -> (r: String)
        ensures
            r@ == message_of(self@),
    {
        match self {
            CliError::User { message, .. } => message.clone(),
            CliError::AuthRequired => "not signed in — run `knack auth login`".to_owned(),
            CliError::AuthFailed(m) => prefixed("authentication failed: ", m.as_str()),
            CliError::Network(m) => prefixed("network error: ", m.as_str()),
            CliError::Conflict { message, .. } => prefixed("conflict: ", message.as_str()),
            CliError::PlanLimit { message, .. } => prefixed("plan limit hit: ", message.as_str()),
            CliError::NotFound(m) => prefixed("not found: ", m.as_str()),
            CliError::Server { status, message, .. } => {
                let mut r = "server error (".to_owned();
                let n = u64_text(*status as u64);
                r.append(n.as_str());
                r.append("): ");
                r.append(message.as_str());
                r
            },
            CliError::Internal(m) => m.clone(),
        }
    }
}

/// `text` with `prefix` before it.
pub fn prefixed(prefix: &str, text: &str) -> (r: String)
    ensures
        r@ == prefix@ + text@,
{
    let mut r = prefix.to_owned();
    r.append(text);
    r
}

/// A user error without a hint.
pub fn user_error(code: &str, message: String) -> (r: CliError)
    ensures
        r@ == (ErrorView::User { code: code@, message: message@, hint: None }),
{
    CliError::User { code: code.to_owned(), message, hint: None }
}

/// A user error with a hint.
pub fn user_error_hint(code: &str, message: String, hint: &str) -> (r: CliError)
    ensures
        r@ == (ErrorView::User { code: code@, message: message@, hint: Some(hint@) }),
{
    CliError::User { code: code.to_owned(), message, hint: Some(hint.to_owned()) }
}

/// A copy of an error.
pub fn copy_error(e: &CliError) -> (r: CliError)
    ensures
        r@ == e@,
{
    match e {
        CliError::User { code, message, hint } => CliError::User {
            code: code.clone(),
            message: message.clone(),
            hint: opt_owned(opt_str(hint)),
        },
        CliError::AuthRequired => CliError::AuthRequired,
        CliError::AuthFailed(m) => CliError::AuthFailed(m.clone()),
        CliError::Network(m) => CliError::Network(m.clone()),
        CliError::Conflict { message, hint } => CliError::Conflict {
            message: message.clone(),
            hint: opt_owned(opt_str(hint)),
        },
        CliError::PlanLimit { message, hint } => CliError::PlanLimit {
            message: message.clone(),
            hint: opt_owned(opt_str(hint)),
        },
        CliError::NotFound(m) => CliError::NotFound(m.clone()),
        CliError::Server { status, code, message } => CliError::Server {
            status: *status,
            code: code.clone(),
            message: message.clone(),
        },
        CliError::Internal(m) => CliError::Internal(m.clone()),
    }
}

/// The error for text that is not the JSON that was expected.
pub fn json_error(e: &str) -> (r: CliError)
    ensures
        r@ == ErrorView::Internal("json parse: "@ + e@),
{
    CliError::Internal(prefixed("json parse: ", e))
}

/// The error for input or output that failed.
pub fn io_error(e: &str) -> (r: CliError)
    ensures
        r@ == ErrorView::Internal("io: "@ + e@),
{
    CliError::Internal(prefixed("io: ", e))
}

/// An error's exit code is never that of success, and is one of the documented
/// numbers.
pub proof fn law_errors_exit_nonzero(e: ErrorView)
    ensures
        exit_code_of(e) == 1 || exit_code_of(e) == 2 || exit_code_of(e) == 3 || exit_code_of(e) == 4
            || exit_code_of(e) == 5 || exit_code_of(e) == 70,
{
}

/// Every error has a code to branch on.
pub proof fn law_code_is_never_empty(e: ErrorView)
    ensures
        code_of(e).len() > 0,
{
    reveal_strlit("USER_ERROR");
    reveal_strlit("AUTH_REQUIRED");
    reveal_strlit("AUTH_FAILED");
    reveal_strlit("NETWORK");
    reveal_strlit("CONFLICT");
    reveal_strlit("PLAN_LIMIT_EXCEEDED");
    reveal_strlit("NOT_FOUND");
    reveal_strlit("SERVER");
    reveal_strlit("INTERNAL");
}

} // verus!
