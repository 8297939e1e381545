//! What is printed: one line of JSON for programs, text for people.

use vstd::prelude::*;

use crate::errors::{code_of, hint_of, message_of, CliError, ErrorView};
use crate::json::{field, member, member_views, text_or_null, Json, JsonView};
use crate::text::{replace_char, replaced, strip_prefix, without_prefix};

verus! {

/// A path as people read it: with forward slashes, and without the prefix that
/// Windows puts before canonical paths.
pub open spec fn shown_path(p: Seq<char>) -> Seq<char> {
    match without_prefix(p, r"\\?\"@) {
        Some(rest) => replaced(rest, '\\', '/'),
        None => replaced(p, '\\', '/'),
    }
}

/// A path as people read it.
pub fn display_path(p: &str) -> (r: String)
    ensures
        r@ == shown_path(p@),
{
    match strip_prefix(p, r"\\?\") {
        Some(rest) => replace_char(rest, '\\', '/'),
        None => replace_char(p, '\\', '/'),
    }
}

/// What a command tells: to programs, and to people.
#[derive(Debug)]
pub struct Told {
    pub report: Json,
    pub lines: Vec<String>,
}

/// How a command prints.
#[derive(Debug, Clone, Copy, PartialEq, Eq, Structural)]
pub struct OutputMode {
    pub json: bool,
    pub quiet: bool,
    pub no_color: bool,
}

impl OutputMode {
    /// Text for people, with everything on.
    pub fn human() -> (r: Self)
        ensures
            r == (OutputMode { json: false, quiet: false, no_color: false }),
    {
        OutputMode { json: false, quiet: false, no_color: false }
    }
}

/// The version of the envelopes; it changes when a field's meaning does.
pub const SCHEMA: &'static str = "knack://cli/v1";

/// The envelope round a result.
pub open spec fn ok_json(data: JsonView) -> JsonView {
    JsonView::Object(
        seq![("$schema"@, JsonView::Text(SCHEMA@)), ("ok"@, JsonView::Bool(true)), ("data"@, data)],
    )
}

/// The envelope round an error.
pub open spec fn err_json(e: ErrorView) -> JsonView {
    JsonView::Object(
        seq![
            ("$schema"@, JsonView::Text(SCHEMA@)),
            ("ok"@, JsonView::Bool(false)),
            (
                "error"@,
                JsonView::Object(
                    seq![
                        ("code"@, JsonView::Text(code_of(e))),
                        ("message"@, JsonView::Text(message_of(e))),
                        ("hint"@, text_or_null(hint_of(e))),
                    ],
                ),
            ),
        ],
    )
}

/// The envelope round a result.
pub fn ok_envelope(data: Json) -> (r: Json)
    ensures
        r.value() == ok_json(data.value()),
{
    let ghost d = data.value();
    let mut m: Vec<(String, Json)> = Vec::new();
    m.push(("$schema".to_owned(), Json::text(SCHEMA)));
    m.push(("ok".to_owned(), Json::Bool(true)));
    m.push(("data".to_owned(), data));
    assert(member_views(m@) =~= seq![
        ("$schema"@, JsonView::Text(SCHEMA@)),
        ("ok"@, JsonView::Bool(true)),
        ("data"@, d),
    ]);
    Json::object(m)
}

/// The envelope round an error.
pub fn err_envelope(err: &CliError) -> (r: Json)
    ensures
        r.value() == err_json(err@),
{
    let message = err.message();
    let mut e: Vec<(String, Json)> = Vec::new();
    e.push(("code".to_owned(), Json::text(err.code())));
    e.push(("message".to_owned(), Json::text(message.as_str())));
    e.push(("hint".to_owned(), Json::opt_text(err.hint())));
    let ghost inner = seq![
        ("code"@, JsonView::Text(code_of(err@))),
        ("message"@, JsonView::Text(message_of(err@))),
        ("hint"@, text_or_null(hint_of(err@))),
    ];
    assert(member_views(e@) =~= inner);
    let mut m: Vec<(String, Json)> = Vec::new();
    m.push(("$schema".to_owned(), Json::text(SCHEMA)));
    m.push(("ok".to_owned(), Json::Bool(false)));
    m.push(("error".to_owned(), Json::object(e)));
    assert(member_views(m@) =~= seq![
        ("$schema"@, JsonView::Text(SCHEMA@)),
        ("ok"@, JsonView::Bool(false)),
        ("error"@, JsonView::Object(inner)),
    ]);
    Json::object(m)
}

/// What a command prints of its result: the envelope on one line, the text for
/// people, or nothing.
#[derive(Debug, PartialEq, Eq)]
pub enum Emission {
    Line(String),
    Human,
    Silent,
}

/// What a command prints of its result. People's text never mixes with JSON, and
/// no text comes out of a quiet command.
pub fn emit_ok(mode: OutputMode, data: Json) -> (r: Emission)
    ensures
        match r {
            Emission::Line(s) => mode.json && s@ == crate::json::json_compact(ok_json(data.value())),
            Emission::Human => !mode.json && !mode.quiet,
            Emission::Silent => !mode.json && mode.quiet,
        },
{
    if mode.json {
        let env = ok_envelope(data);
        Emission::Line(crate::json::render(&env))
    } else if mode.quiet {
        Emission::Silent
    } else {
        Emission::Human
    }
}

/// What is printed of an error: to people on two lines at most, a quiet command
/// included; to programs in an envelope.
pub struct ErrorText {
    /// One line of JSON for programs.
    pub json: Option<String>,
    /// The message for people.
    pub message: String,
    /// What to do about it.
    pub hint: Option<String>,
}

/// What is printed of an error.
pub fn emit_err(mode: OutputMode, err: &CliError) -> (r: ErrorText)
    ensures
        crate::text::opt_view(r.json) == (if mode.json {
            Some(crate::json::json_compact(err_json(err@)))
        } else {
            None
        }),
        r.message@ == message_of(err@),
        crate::text::opt_view(r.hint) == hint_of(err@),
{
    let json = if mode.json {
        let env = err_envelope(err);
        Some(crate::json::render(&env))
    } else {
        None
    };
    ErrorText { json, message: err.message(), hint: crate::text::opt_owned(err.hint()) }
}

/// Whether a command tells of its progress: not to programs, and not when quiet.
pub fn chatters(mode: OutputMode) -> (r: bool)
    ensures
        r == (!mode.json && !mode.quiet),
{
    !(mode.json || mode.quiet)
}

/// An envelope round a result names the version, says that all is well and holds
/// the result.
pub proof fn law_ok_envelope_holds_the_result(data: JsonView)
    ensures
        field(ok_json(data), "$schema"@) == Some(JsonView::Text(SCHEMA@)),
        field(ok_json(data), "ok"@) == Some(JsonView::Bool(true)),
        field(ok_json(data), "data"@) == Some(data),
{
    reveal_strlit("$schema");
    reveal_strlit("ok");
    reveal_strlit("data");
    assert("ok"@.len() != "data"@.len());
    assert("ok"@.len() != "$schema"@.len());
    assert("data"@.len() != "$schema"@.len());
    reveal_with_fuel(member, 4);
}

/// An envelope round an error names the version, says that something went wrong,
/// and holds the error's code, its message and its hint.
pub proof fn law_err_envelope_holds_the_error(e: ErrorView)
    ensures
        field(err_json(e), "$schema"@) == Some(JsonView::Text(SCHEMA@)),
        field(err_json(e), "ok"@) == Some(JsonView::Bool(false)),
        ({
            let inner = field(err_json(e), "error"@);
            &&& inner is Some
            &&& field(inner->0, "code"@) == Some(JsonView::Text(code_of(e)))
            &&& field(inner->0, "message"@) == Some(JsonView::Text(message_of(e)))
            &&& field(inner->0, "hint"@) == Some(text_or_null(hint_of(e)))
        }),
{
    reveal_strlit("$schema");
    reveal_strlit("ok");
    reveal_strlit("error");
    reveal_strlit("code");
    reveal_strlit("message");
    reveal_strlit("hint");
    assert("ok"@.len() != "error"@.len());
    assert("ok"@.len() != "$schema"@.len());
    assert("error"@.len() != "$schema"@.len());
    assert("code"@.len() != "message"@.len());
    assert("hint"@.len() != "message"@.len());
    assert("code"@[0] != "hint"@[0]);
    reveal_with_fuel(member, 4);
}

} // verus!
