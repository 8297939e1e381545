//! What an answer of the API that is no success means.
//!
//! The server wraps its errors in an envelope, its framework answers invalid
//! requests in a shape of its own, and whatever stands in between may answer in
//! plain text. Whatever comes is told to the user.

use vstd::prelude::*;
use vstd::utf8::{decode_utf8, encode_utf8, is_char_boundary, valid_utf8};

use crate::archive::utf8_text;
use crate::errors::{prefixed, CliError, ErrorView};
use crate::json::{
    copy, field, json_compact, json_parsed, parse, parsed_view, render, text_field, values, Json,
    JsonView,
};
use crate::text::{
    join_strings, joined, opt_str_view, opt_view, same, trim, trimmed, views,
};

verus! {

// ---------------------------------------------------------------------------
// Status codes
// ---------------------------------------------------------------------------

pub uninterp spec fn status_line(code: int) -> Seq<char>;

/// A status code with its name: `to_string` of `reqwest::StatusCode`. It is a
/// function of the code.
#[verifier::external_body]
pub(crate) fn status_text(code: u16) -> (r: String)
    requires
        100 <= code <= 999,
    ensures
        r@ == status_line(code as int),
{
    reqwest::StatusCode::from_u16(code).map_or(String::new(), |s| s.to_string())
}

// ---------------------------------------------------------------------------
// Bodies
// ---------------------------------------------------------------------------

/// An error as the server states it.
pub struct ApiError {
    pub code: String,
    pub message: String,
    pub details: Option<Json>,
}

/// An error of the server as a mathematical value.
pub ghost struct ApiErrorView {
    pub code: Seq<char>,
    pub message: Seq<char>,
    pub details: Option<JsonView>,
}

impl View for ApiError {
    type V = ApiErrorView;

    open spec fn view(&self) -> ApiErrorView {
        ApiErrorView {
            code: self.code@,
            message: self.message@,
            details: match self.details {
                Some(d) => Some(d.value()),
                None => None,
            },
        }
    }
}

/// The error in an envelope, if the value is one.
pub open spec fn envelope_of(v: JsonView) -> Option<ApiErrorView> {
    match field(v, "error"@) {
        Some(e) => match (text_field(e, "code"@), text_field(e, "message"@)) {
            (Some(code), Some(message)) => Some(
                ApiErrorView {
                    code,
                    message,
                    details: match field(e, "details"@) {
                        Some(JsonView::Null) => None,
                        d => d,
                    },
                },
            ),
            _ => None,
        },
        None => None,
    }
}

/// A text that may be left out; nothing where something else stands there.
pub open spec fn text_or_empty(v: JsonView, key: Seq<char>) -> Option<Seq<char>> {
    match field(v, key) {
        None => Some(seq![]),
        Some(JsonView::Text(s)) => Some(s),
        Some(_) => None,
    }
}

/// A part of a location: text as it is, anything else as its JSON.
pub open spec fn location_part(v: JsonView) -> Seq<char> {
    match v {
        JsonView::Text(s) => s,
        _ => json_compact(v),
    }
}

/// A location, which may be left out; nothing where no list stands there.
pub open spec fn location(v: JsonView) -> Option<Seq<char>> {
    match field(v, "loc"@) {
        None => Some(seq![]),
        Some(JsonView::Array(s)) => Some(
            joined(Seq::new(s.len(), |i: int| location_part(s[i])), "."@),
        ),
        Some(_) => None,
    }
}

/// What an item of a validation error says.
pub open spec fn validation_item(v: JsonView) -> Option<Seq<char>> {
    match (location(v), text_or_empty(v, "msg"@), text_or_empty(v, "type"@)) {
        (Some(loc), Some(msg), Some(kind)) => if !(v is Object) {
            None
        } else if kind.len() == 0 {
            Some(loc + ": "@ + msg)
        } else {
            Some(loc + ": "@ + msg + " ("@ + kind + ")"@)
        },
        _ => None,
    }
}

/// The first `n` items are all items of a validation error.
pub open spec fn all_items(s: Seq<JsonView>, n: int) -> bool {
    forall|i: int| 0 <= i < n ==> validation_item(#[trigger] s[i]) is Some
}

/// What a validation error says, if the value is one.
pub open spec fn validation_of(v: JsonView) -> Option<Seq<char>> {
    match field(v, "detail"@) {
        Some(JsonView::Array(s)) => if !all_items(s, s.len() as int) {
            None
        } else if s.len() == 0 {
            Some("request validation failed"@)
        } else {
            Some(
                "request validation failed. "@ + joined(
                    Seq::new(s.len(), |i: int| validation_item(s[i])->0),
                    "; "@,
                ),
            )
        },
        _ => None,
    }
}

fn location_part_text(v: &Json) -> (r: String)
    ensures
        r@ == location_part(v.value()),
{
    match v {
        Json::Text(s) => s.clone(),
        _ => render(v),
    }
}

fn read_location(v: &Json) -> (r: Option<String>)
    ensures
        opt_view(r) == location(v.value()),
{
    match v.get("loc") {
        None => {
            let r = String::new();
            assert(r@ =~= seq![]);
            Some(r)
        },
        Some(Json::Array(a)) => {
            proof {
                crate::json::lemma_array_value(*a);
            }
            let ghost s = values(a@);
            let mut parts: Vec<String> = Vec::new();
            let mut i: usize = 0;
            while i < a.len()
                invariant
                    i <= a.len(),
                    s == values(a@),
                    parts@.len() == i,
                    forall|j: int| 0 <= j < i ==> (#[trigger] parts@[j])@ == location_part(s[j]),
                decreases a.len() - i,
            {
                assert(s[i as int] == a@[i as int].value());
                parts.push(location_part_text(&a[i]));
                i += 1;
            }
            assert(views(parts@) =~= Seq::new(s.len(), |i: int| location_part(s[i])));
            Some(join_strings(&parts, "."))
        },
        Some(_) => None,
    }
}

fn read_text_or_empty(v: &Json, key: &str) -> (r: Option<String>)
    ensures
        opt_view(r) == text_or_empty(v.value(), key@),
{
    match v.get(key) {
        None => {
            let r = String::new();
            assert(r@ =~= seq![]);
            Some(r)
        },
        Some(Json::Text(s)) => Some(s.clone()),
        Some(_) => None,
    }
}

fn read_validation_item(v: &Json) -> (r: Option<String>)
    ensures
        opt_view(r) == validation_item(v.value()),
{
    let is_object = match v {
        Json::Object(_) => true,
        _ => false,
    };
    match (read_location(v), read_text_or_empty(v, "msg"), read_text_or_empty(v, "type")) {
        (Some(loc), Some(msg), Some(kind)) => {
            if !is_object {
                return None;
            }
            let mut r = loc;
            r.append(": ");
            r.append(msg.as_str());
            if !kind.as_str().is_empty() {
                r.append(" (");
                r.append(kind.as_str());
                r.append(")");
            }
            Some(r)
        },
        _ => None,
    }
}

/// What a validation error says, if the value is one.
pub fn read_validation(v: &Json) -> (r: Option<String>)
    ensures
        opt_view(r) == validation_of(v.value()),
{
    match v.get("detail") {
        Some(Json::Array(a)) => {
            proof {
                crate::json::lemma_array_value(*a);
            }
            let ghost s = values(a@);
            let mut parts: Vec<String> = Vec::new();
            let mut i: usize = 0;
            while i < a.len()
                invariant
                    i <= a.len(),
                    s == values(a@),
                    field(v.value(), "detail"@) == Some(JsonView::Array(s)),
                    parts@.len() == i,
                    forall|j: int|
                        0 <= j < i ==> validation_item(#[trigger] s[j]) == Some(parts@[j]@),
                decreases a.len() - i,
            {
                assert(s[i as int] == a@[i as int].value());
                match read_validation_item(&a[i]) {
                    Some(t) => parts.push(t),
                    None => {
                        assert(validation_item(s[i as int]) is None);
                        return None;
                    },
                }
                i += 1;
            }
            if parts.len() == 0 {
                return Some("request validation failed".to_owned());
            }
            assert(views(parts@) =~= Seq::new(s.len(), |i: int| validation_item(s[i])->0));
            let list = join_strings(&parts, "; ");
            Some(prefixed("request validation failed. ", list.as_str()))
        },
        _ => None,
    }
}

/// The error in an envelope, if the value is one.
pub fn read_envelope(v: Json) -> (r: Option<ApiError>)
    ensures
        match r {
            Some(e) => envelope_of(v.value()) == Some(e@),
            None => envelope_of(v.value()) is None,
        },
{
    match v.get("error") {
        Some(e) => match (e.get_str("code"), e.get_str("message")) {
            (Some(code), Some(message)) => {
                let details = match e.get("details") {
                    None => None,
                    Some(Json::Null) => None,
                    Some(d) => Some(copy(d)),
                };
                Some(ApiError { code: code.to_owned(), message: message.to_owned(), details })
            },
            _ => None,
        },
        None => None,
    }
}

// ---------------------------------------------------------------------------
// Details
// ---------------------------------------------------------------------------

pub open spec fn text_or_none(v: JsonView, key: Seq<char>) -> Seq<char> {
    match text_field(v, key) {
        Some(s) => s,
        None => seq![],
    }
}

/// What an issue says: where, and what. Nothing where it says neither.
pub open spec fn issue_text(v: JsonView) -> Option<Seq<char>> {
    let path = text_or_none(v, "path"@);
    let msg = text_or_none(v, "message"@);
    if path.len() == 0 && msg.len() == 0 {
        None
    } else if path.len() == 0 {
        Some(msg)
    } else {
        Some(path + ": "@ + msg)
    }
}

/// What the first `n` issues say.
pub open spec fn issue_texts(s: Seq<JsonView>, n: int) -> Seq<Seq<char>>
    decreases n,
{
    if n <= 0 {
        seq![]
    } else {
        match issue_text(s[n - 1]) {
            Some(t) => issue_texts(s, n - 1).push(t),
            None => issue_texts(s, n - 1),
        }
    }
}

pub open spec fn labelled(
    parts: Seq<Seq<char>>,
    label: Seq<char>,
    text: Option<Seq<char>>,
) -> Seq<Seq<char>> {
    match text {
        Some(t) => parts.push(label + t),
        None => parts,
    }
}

/// What a mismatch says: the field, what it was, what it should be, and what to do.
pub open spec fn mismatch_parts(v: JsonView) -> Seq<Seq<char>> {
    labelled(
        labelled(
            labelled(
                labelled(seq![], "field: "@, text_field(v, "field"@)),
                "got: "@,
                text_field(v, "got"@),
            ),
            "expected: "@,
            text_field(v, "expected"@),
        ),
        "hint: "@,
        text_field(v, "hint"@),
    )
}

/// The details of an error in short: its issues, or its mismatch.
pub open spec fn details_text(v: JsonView) -> Option<Seq<char>> {
    match field(v, "issues"@) {
        Some(JsonView::Array(s)) => {
            let parts = issue_texts(s, s.len() as int);
            if parts.len() == 0 {
                None
            } else {
                Some("issues: "@ + joined(parts, "; "@))
            }
        },
        _ => {
            let parts = mismatch_parts(v);
            if parts.len() == 0 {
                None
            } else {
                Some(joined(parts, " · "@))
            }
        },
    }
}

fn read_text_or_none<'a>(v: &'a Json, key: &str) -> (r: &'a str)
    ensures
        r@ == text_or_none(v.value(), key@),
{
    match v.get_str(key) {
        Some(s) => s,
        None => {
            proof {
                reveal_strlit("");
                assert(""@ =~= seq![]);
            }
            ""
        },
    }
}

fn read_issue(v: &Json) -> (r: Option<String>)
    ensures
        opt_view(r) == issue_text(v.value()),
{
    let path = read_text_or_none(v, "path");
    let msg = read_text_or_none(v, "message");
    if path.is_empty() && msg.is_empty() {
        None
    } else if path.is_empty() {
        Some(msg.to_owned())
    } else {
        let mut r = path.to_owned();
        r.append(": ");
        r.append(msg);
        Some(r)
    }
}

fn add_labelled(parts: &mut Vec<String>, label: &str, text: Option<&str>)
    ensures
        views(final(parts)@) == labelled(views(old(parts)@), label@, opt_str_view(text)),
{
    match text {
        Some(t) => {
            let ghost was = views(parts@);
            parts.push(prefixed(label, t));
            assert(views(parts@) =~= was.push(label@ + t@));
        },
        None => {},
    }
}

/// The details of an error in short.
pub fn format_details(details: &Json) -> (r: Option<String>)
    ensures
        opt_view(r) == details_text(details.value()),
{
    match details.get("issues") {
        Some(Json::Array(a)) => {
            proof {
                crate::json::lemma_array_value(*a);
            }
            let ghost s = values(a@);
            let mut parts: Vec<String> = Vec::new();
            let mut i: usize = 0;
            assert(views(parts@) =~= seq![]);
            while i < a.len()
                invariant
                    i <= a.len(),
                    s == values(a@),
                    views(parts@) == issue_texts(s, i as int),
                decreases a.len() - i,
            {
                assert(s[i as int] == a@[i as int].value());
                match read_issue(&a[i]) {
                    Some(t) => {
                        let ghost was = views(parts@);
                        let ghost x = t@;
                        parts.push(t);
                        assert(views(parts@) =~= was.push(x));
                    },
                    None => {},
                }
                i += 1;
            }
            assert(views(parts@).len() == parts@.len());
            if parts.len() == 0 {
                None
            } else {
                let list = join_strings(&parts, "; ");
                Some(prefixed("issues: ", list.as_str()))
            }
        },
        _ => {
            let mut parts: Vec<String> = Vec::new();
            assert(views(parts@) =~= seq![]);
            add_labelled(&mut parts, "field: ", details.get_str("field"));
            add_labelled(&mut parts, "got: ", details.get_str("got"));
            add_labelled(&mut parts, "expected: ", details.get_str("expected"));
            add_labelled(&mut parts, "hint: ", details.get_str("hint"));
            assert(views(parts@).len() == parts@.len());
            if parts.len() == 0 {
                None
            } else {
                Some(join_strings(&parts, " · "))
            }
        },
    }
}

// ---------------------------------------------------------------------------
// Errors
// ---------------------------------------------------------------------------

/// The error for an answer, by its status, its code and its message.
pub open spec fn error_for(status: int, code: Seq<char>, message: Seq<char>) -> ErrorView {
    if status == 401 {
        ErrorView::AuthFailed(message)
    } else if status == 403 && code == "PLAN_LIMIT_EXCEEDED"@ {
        ErrorView::PlanLimit { message, hint: None }
    } else if status == 403 {
        ErrorView::User { code: "FORBIDDEN"@, message, hint: None }
    } else if status == 404 {
        ErrorView::NotFound(message)
    } else if status == 409 {
        ErrorView::Conflict { message, hint: None }
    } else {
        ErrorView::Server { status, code, message }
    }
}

/// The error for an answer with an error of the server, its details folded into
/// the message; without one, what the status says.
pub open spec fn api_error(status: int, body: Option<ApiErrorView>) -> ErrorView {
    match body {
        None => error_for(
            status,
            "UNKNOWN"@,
            "server returned "@ + status_line(status) + " with no envelope"@,
        ),
        Some(e) => {
            let extra = match e.details {
                Some(d) => details_text(d),
                None => None,
            };
            match extra {
                Some(t) => error_for(status, e.code, e.message + ". "@ + t),
                None => error_for(status, e.code, e.message),
            }
        },
    }
}

fn make_error(status: u16, code: String, message: String) -> (r: CliError)
    ensures
        r@ == error_for(status as int, code@, message@),
{
    if status == 401 {
        CliError::AuthFailed(message)
    } else if status == 403 && same(code.as_str(), "PLAN_LIMIT_EXCEEDED") {
        CliError::PlanLimit { message, hint: None }
    } else if status == 403 {
        CliError::User { code: "FORBIDDEN".to_owned(), message, hint: None }
    } else if status == 404 {
        CliError::NotFound(message)
    } else if status == 409 {
        CliError::Conflict { message, hint: None }
    } else {
        CliError::Server { status, code, message }
    }
}

/// The error for an answer with an error of the server.
pub fn map_api_error(status: u16, body: Option<ApiError>) -> (r: CliError)
    requires
        100 <= status <= 999,
    ensures
        r@ == api_error(
            status as int,
            match body {
                Some(e) => Some(e@),
                None => None,
            },
        ),
{
    match body {
        None => {
            let mut m = "server returned ".to_owned();
            let s = status_text(status);
            m.append(s.as_str());
            m.append(" with no envelope");
            make_error(status, "UNKNOWN".to_owned(), m)
        },
        Some(e) => {
            let extra = match &e.details {
                Some(d) => format_details(d),
                None => None,
            };
            let mut m = e.message;
            match extra {
                Some(t) => {
                    m.append(". ");
                    m.append(t.as_str());
                },
                None => {},
            }
            make_error(status, e.code, m)
        },
    }
}

/// The text of a body that is neither envelope nor validation error.
pub open spec fn raw_text(bytes: Seq<u8>) -> Seq<char> {
    trimmed(
        if valid_utf8(bytes) {
            decode_utf8(bytes)
        } else {
            "<binary body>"@
        },
    )
}

/// The last boundary between characters at or before a position in encoded text.
pub open spec fn boundary_before(bytes: Seq<u8>, k: int) -> int
    decreases k,
{
    if k <= 0 || is_char_boundary(bytes, k) {
        k
    } else {
        boundary_before(bytes, k - 1)
    }
}

/// The start of a text: all of it up to five hundred bytes, else as many characters as
/// these bytes hold whole, and an ellipsis.
pub open spec fn snippet(text: Seq<char>) -> Seq<char> {
    let bytes = encode_utf8(text);
    if bytes.len() > 500 {
        decode_utf8(bytes.subrange(0, boundary_before(bytes, 500))) + "…"@
    } else {
        text
    }
}

/// What is told of a body in plain text.
pub open spec fn raw_message(status: int, text: Seq<char>) -> Seq<char> {
    if snippet(text).len() == 0 {
        "server returned "@ + status_line(status) + " with empty body"@
    } else {
        "server returned "@ + status_line(status) + ": "@ + snippet(text)
    }
}

/// The error for an answer with a body, by what the body holds as JSON and as text.
pub open spec fn error_of_body(
    status: int,
    json: Result<JsonView, Seq<char>>,
    text: Seq<char>,
) -> ErrorView {
    let envelope = match json {
        Ok(v) => envelope_of(v),
        Err(_) => None,
    };
    let validation = match json {
        Ok(v) => validation_of(v),
        Err(_) => None,
    };
    if envelope is Some {
        api_error(status, envelope)
    } else if validation is Some {
        error_for(status, "VALIDATION_ERROR"@, validation->0)
    } else {
        error_for(status, "UNKNOWN"@, raw_message(status, text))
    }
}

/// What a body holds as JSON.
pub open spec fn body_json(bytes: Seq<u8>) -> Result<JsonView, Seq<char>> {
    if valid_utf8(bytes) {
        json_parsed(decode_utf8(bytes))
    } else {
        Err(seq![])
    }
}

fn cut_text(text: &str) -> (r: String)
    ensures
        r@ == snippet(text@),
{
    let n: usize = text.as_bytes().len();
    if n > 500 {
        let ghost bytes = encode_utf8(text@);
        let mut k: usize = 500;
        while k > 0 && !text.is_char_boundary(k)
            invariant
                k <= 500,
                bytes == encode_utf8(text@),
                boundary_before(bytes, 500) == boundary_before(bytes, k as int),
            decreases k,
        {
            k -= 1;
        }
        proof {
            vstd::utf8::encode_utf8_valid_utf8(text@);
        }
        let (head, _) = text.split_at(k);
        proof {
            vstd::utf8::encode_utf8_decode_utf8(head@);
        }
        let mut r = head.to_owned();
        r.append("…");
        r
    } else {
        text.to_owned()
    }
}

/// The error for an answer with a body, by what was read of the body.
pub fn error_from(status: u16, json: Result<Json, String>, text: &str) -> (r: CliError)
    requires
        100 <= status <= 999,
    ensures
        r@ == error_of_body(status as int, parsed_view(json), text@),
{
    let ghost read = parsed_view(json);
    if let Ok(v) = json {
        let validation = read_validation(&v);
        match read_envelope(v) {
            Some(e) => {
                return map_api_error(status, Some(e));
            },
            None => {},
        }
        match validation {
            Some(m) => {
                return make_error(status, "VALIDATION_ERROR".to_owned(), m);
            },
            None => {},
        }
    }
    let cut = cut_text(text);
    let mut m = "server returned ".to_owned();
    let s = status_text(status);
    m.append(s.as_str());
    if cut.as_str().is_empty() {
        m.append(" with empty body");
    } else {
        m.append(": ");
        m.append(cut.as_str());
    }
    make_error(status, "UNKNOWN".to_owned(), m)
}

/// The error for an answer that is no success.
pub fn map_api_error_bytes(status: u16, bytes: Option<&Vec<u8>>) -> (r: CliError)
    requires
        100 <= status <= 999,
    ensures
        r@ == (match bytes {
            None => api_error(status as int, None),
            Some(b) => error_of_body(status as int, body_json(b@), raw_text(b@)),
        }),
{
    match bytes {
        None => map_api_error(status, None),
        Some(b) => match utf8_text(b.as_slice()) {
            Ok(s) => error_from(status, parse(s.as_str()), trim(s.as_str())),
            Err(_) => error_from(status, Err(String::new()), trim("<binary body>")),
        },
    }
}

} // verus!
