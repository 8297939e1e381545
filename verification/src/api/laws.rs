//! What answers mean, and what is asked after them.

use vstd::prelude::*;
use vstd::utf8::{encode_utf8, is_char_boundary};

use crate::api::client::{can_renew, send_next, SendFacts, SendView};
use crate::api::error::{
    boundary_before, details_text, envelope_of, error_for, error_of_body, issue_texts,
    mismatch_parts, snippet, text_or_none, validation_item, ApiErrorView,
};
use crate::api::marketplace::{rating_fields, search_query};
use crate::api::overview::overview_query;
use crate::api::session::{is_personal, notifies, token_in_play, StoredCredential};
use crate::api::teams::{dashes, team_index, Team};
use crate::errors::ErrorView;
use crate::json::{field, member, text_field, JsonView};
use crate::numbers::decimal;
use crate::picks::{lemma_picked, positions};
use crate::text::{joined, pieces, trimmed};

verus! {

// ---------------------------------------------------------------------------
// Errors
// ---------------------------------------------------------------------------

/// The status tells the kind of an error: who asks is not known, may not, or is over the
/// plan; what is asked for is not there, or is in conflict. Any other one is the server's.
pub proof fn law_the_status_tells_the_error(status: int, code: Seq<char>, message: Seq<char>)
    ensures
        error_for(401, code, message) == ErrorView::AuthFailed(message),
        error_for(403, "PLAN_LIMIT_EXCEEDED"@, message) == (ErrorView::PlanLimit {
            message,
            hint: None,
        }),
        code != "PLAN_LIMIT_EXCEEDED"@ ==> error_for(403, code, message) == (ErrorView::User {
            code: "FORBIDDEN"@,
            message,
            hint: None,
        }),
        error_for(404, code, message) == ErrorView::NotFound(message),
        error_for(409, code, message) == (ErrorView::Conflict { message, hint: None }),
        status != 401 && status != 403 && status != 404 && status != 409 ==> error_for(
            status,
            code,
            message,
        ) == (ErrorView::Server { status, code, message }),
{
}

proof fn lemma_member(s: Seq<(Seq<char>, JsonView)>, k: int)
    requires
        0 <= k < s.len(),
        forall|i: int| 0 <= i < k ==> (#[trigger] s[i]).0 != s[k].0,
    ensures
        member(s, s[k].0) == Some(s[k].1),
    decreases k,
{
    if k > 0 {
        assert(s[0].0 != s[k].0);
        let t = s.drop_first();
        assert(t[k - 1] == s[k]);
        assert forall|i: int| 0 <= i < k - 1 implies (#[trigger] t[i]).0 != t[k - 1].0 by {
            assert(t[i] == s[i + 1]);
        }
        lemma_member(t, k - 1);
    }
}

/// An answer that holds an error with a code and a message tells both; the message goes on
/// with the details, where there are any to tell.
pub proof fn law_errors_are_told_by_their_envelope(
    status: int,
    code: Seq<char>,
    message: Seq<char>,
    details: JsonView,
    text: Seq<char>,
)
    requires
        !(details is Null),
    ensures
        ({
            let e = JsonView::Object(
                seq![
                    ("code"@, JsonView::Text(code)),
                    ("message"@, JsonView::Text(message)),
                    ("details"@, details),
                ],
            );
            let v = JsonView::Object(seq![("error"@, e)]);
            &&& envelope_of(v) == Some(ApiErrorView { code, message, details: Some(details) })
            &&& error_of_body(status, Ok(v), text) == error_for(
                status,
                code,
                match details_text(details) {
                    Some(t) => message + ". "@ + t,
                    None => message,
                },
            )
        }),
{
    reveal_strlit("code");
    reveal_strlit("message");
    reveal_strlit("details");
    let m = seq![
        ("code"@, JsonView::Text(code)),
        ("message"@, JsonView::Text(message)),
        ("details"@, details),
    ];
    assert("code"@.len() == 4 && "message"@.len() == 7 && "details"@.len() == 7);
    assert("message"@[0] == 'm' && "details"@[0] == 'd');
    lemma_member(m, 0);
    lemma_member(m, 1);
    lemma_member(m, 2);
    lemma_member(seq![("error"@, JsonView::Object(m))], 0);
}

proof fn lemma_issues(s: Seq<JsonView>, n: int, f: spec_fn(int) -> Option<Seq<char>>)
    requires
        0 <= n <= s.len(),
        forall|i: int| #[trigger]
            f(i) == ({
                let path = text_or_none(s[i], "path"@);
                let message = text_or_none(s[i], "message"@);
                if path.len() > 0 {
                    Some(path + ": "@ + message)
                } else if message.len() > 0 {
                    Some(message)
                } else {
                    None
                }
            }),
    ensures
        issue_texts(s, n) == positions(n).filter_map(f),
    decreases n,
{
    lemma_picked(n, f);
    if n > 0 {
        lemma_issues(s, n - 1, f);
    }
}

/// Every issue with something to tell is told: its path and its message, or its message
/// alone, in order.
pub proof fn law_every_issue_is_told(s: Seq<JsonView>)
    ensures
        issue_texts(s, s.len() as int) == positions(s.len() as int).filter_map(
            |i: int|
                {
                    let path = text_or_none(s[i], "path"@);
                    let message = text_or_none(s[i], "message"@);
                    if path.len() > 0 {
                        Some(path + ": "@ + message)
                    } else if message.len() > 0 {
                        Some(message)
                    } else {
                        None
                    }
                },
        ),
        forall|i: int|
            0 <= i < s.len() ==> text_or_none(#[trigger] s[i], "path"@) == (match text_field(
                s[i],
                "path"@,
            ) {
                Some(t) => t,
                None => Seq::empty(),
            }),
{
    let f = |i: int|
        {
            let path = text_or_none(s[i], "path"@);
            let message = text_or_none(s[i], "message"@);
            if path.len() > 0 {
                Some(path + ": "@ + message)
            } else if message.len() > 0 {
                Some(message)
            } else {
                None
            }
        };
    lemma_issues(s, s.len() as int, f);
}

/// What does not fit is told by the field, what it was, what was expected and what to do,
/// each where the server tells it, in this order.
pub proof fn law_mismatches_are_told_in_order(v: JsonView)
    ensures
        mismatch_parts(v) == (match text_field(v, "field"@) {
            Some(t) => seq!["field: "@ + t],
            None => seq![],
        }) + (match text_field(v, "got"@) {
            Some(t) => seq!["got: "@ + t],
            None => seq![],
        }) + (match text_field(v, "expected"@) {
            Some(t) => seq!["expected: "@ + t],
            None => seq![],
        }) + (match text_field(v, "hint"@) {
            Some(t) => seq!["hint: "@ + t],
            None => seq![],
        }),
{
    assert(mismatch_parts(v) =~= (match text_field(v, "field"@) {
        Some(t) => seq!["field: "@ + t],
        None => seq![],
    }) + (match text_field(v, "got"@) {
        Some(t) => seq!["got: "@ + t],
        None => seq![],
    }) + (match text_field(v, "expected"@) {
        Some(t) => seq!["expected: "@ + t],
        None => seq![],
    }) + (match text_field(v, "hint"@) {
        Some(t) => seq!["hint: "@ + t],
        None => seq![],
    }));
}

/// An answer without an envelope tells what did not pass validation: each item, with a
/// semicolon between them.
pub proof fn law_failed_validations_are_told(
    status: int,
    items: Seq<JsonView>,
    texts: Seq<Seq<char>>,
    text: Seq<char>,
)
    requires
        items.len() == texts.len(),
        items.len() > 0,
        forall|i: int|
            0 <= i < items.len() ==> validation_item(#[trigger] items[i]) == Some(texts[i]),
    ensures
        ({
            let v = JsonView::Object(seq![("detail"@, JsonView::Array(items))]);
            error_of_body(status, Ok(v), text) == error_for(
                status,
                "VALIDATION_ERROR"@,
                "request validation failed. "@ + joined(texts, "; "@),
            )
        }),
{
    reveal_strlit("detail");
    reveal_strlit("error");
    let m = seq![("detail"@, JsonView::Array(items))];
    lemma_member(m, 0);
    assert(m.drop_first() =~= seq![]);
    assert("detail"@.len() != "error"@.len());
    reveal_with_fuel(member, 2);
    assert(member(m, "error"@) is None);
    assert(texts =~= Seq::new(items.len(), |i: int| validation_item(items[i])->0));
}

proof fn lemma_boundary(bytes: Seq<u8>, k: int)
    requires
        0 <= k,
    ensures
        0 <= boundary_before(bytes, k) <= k,
        boundary_before(bytes, k) == 0 || is_char_boundary(bytes, boundary_before(bytes, k)),
        forall|j: int|
            boundary_before(bytes, k) < j <= k ==> !#[trigger] is_char_boundary(bytes, j),
    decreases k,
{
    if k > 0 && !is_char_boundary(bytes, k) {
        lemma_boundary(bytes, k - 1);
    }
}

/// A text is cut between two characters: at the last such place that is not too far.
pub proof fn law_texts_are_cut_between_characters(bytes: Seq<u8>, k: int, j: int)
    requires
        0 <= k,
    ensures
        0 <= boundary_before(bytes, k) <= k,
        boundary_before(bytes, k) == 0 || is_char_boundary(bytes, boundary_before(bytes, k)),
        0 < j <= k && is_char_boundary(bytes, j) ==> j <= boundary_before(bytes, k),
{
    lemma_boundary(bytes, k);
}

/// A text of no more than five hundred bytes is told whole.
pub proof fn law_short_texts_are_told_whole(text: Seq<char>)
    requires
        encode_utf8(text).len() <= 500,
    ensures
        snippet(text) == text,
{
}

// ---------------------------------------------------------------------------
// Asking
// ---------------------------------------------------------------------------

/// An answer that went well is read: its bytes, or `null` where there are none.
pub proof fn law_answers_are_read(f: SendFacts)
    requires
        f.first matches Some(Ok(a)) && 200 <= a.status <= 299,
    ensures
        ({
            let a = (f.first->0)->Ok_0;
            &&& a.body matches Ok(b) ==> send_next(f) == SendView::Read(
                if b@.len() > 0 {
                    b@
                } else {
                    seq![0x6eu8, 0x75u8, 0x6cu8, 0x6cu8]
                },
            )
            &&& a.body matches Err(e) ==> send_next(f) == SendView::Fail(e@)
        }),
{
}

/// A session that has run out is renewed once, unless the token was given, and then the same
/// is asked again; the second answer is the one that counts.
pub proof fn law_sessions_are_renewed_once(f: SendFacts)
    requires
        f.first matches Some(Ok(a)) && a.status == 401,
        !f.given,
        f.renewable,
    ensures
        f.renewed is None ==> send_next(f) is Renew,
        f.renewed == Some(false) ==> send_next(f) is Fail,
        f.renewed == Some(true) && f.second is None ==> send_next(f) is AskAgain,
        f.renewed == Some(true) && (f.second matches Some(Ok(b)) && 200 <= b.status <= 299 && (
        b.body matches Ok(x) && x@.len() > 0)) ==> send_next(f) == SendView::Read(
            (f.second->0)->Ok_0.body->Ok_0@,
        ),
        f.renewed == Some(true) && (f.second matches Some(Ok(b)) && !(200 <= b.status <= 299))
            ==> send_next(f) is Fail,
{
}

/// What is asked first is asked at once, and no answer is a failure.
pub proof fn law_first_ask(f: SendFacts)
    ensures
        f.first is None ==> send_next(f) is Ask,
        f.first matches Some(Err(e)) ==> send_next(f) == SendView::Fail(e@),
        (f.first matches Some(Ok(a)) && a.status != 401 && !(200 <= a.status <= 299)) ==> send_next(
            f,
        ) is Fail,
{
}

/// A token is a personal one where it starts so; only another one, with what renews it, can
/// be renewed.
pub proof fn law_personal_tokens_are_not_renewed(rest: Seq<char>, c: StoredCredential)
    ensures
        is_personal("knack_pat_"@ + rest),
        is_personal(c.token@) ==> c.token@.len() >= 10 && c.token@.take(10) == "knack_pat_"@,
        can_renew(Some(c)) <==> !is_personal(c.token@) && c.refresh_token is Some,
        !can_renew(None),
{
    reveal_strlit("knack_pat_");
    crate::text::laws::law_a_start_comes_off("knack_pat_"@ + rest, "knack_pat_"@, rest);
}

/// A token that is given counts before one that is kept, and that before one of old.
pub proof fn law_the_given_token_counts(
    t: Seq<char>,
    kept: Option<Seq<char>>,
    legacy: Option<Seq<char>>,
)
    ensures
        token_in_play(Some(t), kept, legacy) == Some(t),
        token_in_play(None, Some(t), legacy) == Some(t),
        token_in_play(None, None, legacy) == legacy,
{
}

/// The server tells of feedback where one of the words between commas says so.
pub proof fn law_feedback_is_told_between_commas(header: Seq<char>, i: int)
    requires
        0 <= i < pieces(header, ","@).len(),
        trimmed(pieces(header, ","@)[i]) == "feedback"@,
    ensures
        notifies(header),
{
}

// ---------------------------------------------------------------------------
// Teams and queries
// ---------------------------------------------------------------------------

proof fn lemma_dashes(s: Seq<char>, n: int, p: spec_fn(char) -> bool)
    requires
        0 <= n <= s.len(),
        forall|c: char| #[trigger] p(c) == (c == '-'),
    ensures
        dashes(s, n) == s.take(n).filter(p).len(),
    decreases n,
{
    reveal(Seq::filter);
    if n > 0 {
        lemma_dashes(s, n - 1, p);
        assert(s.take(n).drop_last() =~= s.take(n - 1));
        assert(s.take(n).last() == s[n - 1]);
    } else {
        assert(s.take(0).filter(p) =~= seq![]);
    }
}

/// The dashes of a text are counted.
pub proof fn law_dashes_are_counted(s: Seq<char>)
    ensures
        dashes(s, s.len() as int) == s.filter(|c: char| c == '-').len(),
{
    let p = |c: char| c == '-';
    lemma_dashes(s, s.len() as int, p);
    assert(s.take(s.len() as int) =~= s);
}

proof fn lemma_team(teams: Seq<Team>, name: Seq<char>, from: int, k: int)
    requires
        0 <= from <= k < teams.len(),
        teams[k].slug@ == name || teams[k].name@ == name,
        forall|i: int|
            from <= i < k ==> (#[trigger] teams[i]).slug@ != name && teams[i].name@ != name,
    ensures
        team_index(teams, name, from) == Some(k),
    decreases k - from,
{
    if from < k {
        lemma_team(teams, name, from + 1, k);
    }
}

/// A team is found by its slug or by its name: the first that has it.
pub proof fn law_teams_are_found_by_slug_or_name(teams: Seq<Team>, name: Seq<char>, k: int)
    requires
        0 <= k < teams.len(),
        teams[k].slug@ == name || teams[k].name@ == name,
        forall|i: int| 0 <= i < k ==> (#[trigger] teams[i]).slug@ != name && teams[i].name@ != name,
    ensures
        team_index(teams, name, 0) == Some(k),
{
    lemma_team(teams, name, 0, k);
}

/// A team that none is called is not found.
pub proof fn law_unknown_teams_are_not_found(teams: Seq<Team>, name: Seq<char>, from: int)
    requires
        0 <= from,
        forall|i: int|
            0 <= i < teams.len() ==> (#[trigger] teams[i]).slug@ != name && teams[i].name@ != name,
    ensures
        team_index(teams, name, from) is None,
    decreases teams.len() - from,
{
    if from < teams.len() {
        law_unknown_teams_are_not_found(teams, name, from + 1);
    }
}

/// What a search asks for: how to sort, how many, and what to look for where that is given.
pub proof fn law_searches_ask_for_what_is_given(q: Seq<char>, sort: Seq<char>, limit: nat)
    ensures
        search_query(None, sort, limit) == seq![("sort"@, sort), ("limit"@, decimal(limit))],
        search_query(Some(q), sort, limit) == seq![
            ("sort"@, sort),
            ("limit"@, decimal(limit)),
            ("q"@, q),
        ],
{
    assert(search_query(Some(q), sort, limit) =~= seq![
        ("sort"@, sort),
        ("limit"@, decimal(limit)),
        ("q"@, q),
    ]);
}

/// What an overview asks for: how many runs at least, and the window and the team where they
/// are given.
pub proof fn law_overviews_ask_for_what_is_given(n: nat, a: Seq<char>, b: Seq<char>, team: Seq<char>)
    ensures
        overview_query(n, Some(a), Some(b), Some(team)) == seq![
            ("min_runs"@, decimal(n)),
            ("since"@, a),
            ("until"@, b),
            ("team_id"@, team),
        ],
        overview_query(n, None, None, None) == seq![("min_runs"@, decimal(n))],
{
    assert(overview_query(n, Some(a), Some(b), Some(team)) =~= seq![
        ("min_runs"@, decimal(n)),
        ("since"@, a),
        ("until"@, b),
        ("team_id"@, team),
    ]);
}

/// A rating says how many stars, and what is said with them where anything is.
pub proof fn law_ratings_say_their_stars(stars: nat, review: Seq<char>)
    ensures
        rating_fields(stars, Some(review)) == seq![
            ("stars"@, Some(JsonView::Int(stars as int))),
            ("review"@, Some(JsonView::Text(review))),
        ],
        rating_fields(stars, None) == seq![
            ("stars"@, Some(JsonView::Int(stars as int))),
            ("review"@, None),
        ],
{
}

} // verus!
