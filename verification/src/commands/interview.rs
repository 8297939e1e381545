//! `knack interview`: the state of an interview between its turns.
//!
//! An interview goes through six phases, one after the other. What is learnt in a
//! phase is kept under its name.

use vstd::prelude::*;

use crate::archive::utf8_text;
use crate::config::{below, join_path, json_file, json_name};
use crate::errors::{user_error, user_error_hint, CliError, ErrorView};
use crate::ids::{fresh_id, is_id};
use crate::json::{
    copy, distinct_keys, field, get_text, json_parsed, json_pretty, lemma_record_field,
    lemma_record_plain, member, member_views, no_members, parse, plain, present, push_member,
    record, render_pretty, text_part, with_member, Json, JsonView,
};
use crate::output::Told;
use crate::text::{concat3, concat4, concat5, opt_str_view, same, views};
use vstd::utf8::{decode_utf8, valid_utf8};

verus! {

/// The arguments of `knack interview`.
#[derive(Debug, Clone)]
pub struct InterviewArgs {
    pub cmd: InterviewCmd,
}

/// What `knack interview` is asked to do.
#[derive(Debug, Clone)]
pub enum InterviewCmd {
    Start(StartArgs),
    Resume(ResumeArgs),
    Save(SaveArgs),
    Advance(AdvanceArgs),
    Status(StatusArgs),
}

#[derive(Debug, Clone)]
pub struct StartArgs {
    pub target_dir: Option<String>,
}

#[derive(Debug, Clone)]
pub struct ResumeArgs {
    pub session: String,
    pub target_dir: Option<String>,
}

#[derive(Debug, Clone)]
pub struct SaveArgs {
    pub session: String,
    pub phase: Phase,
    /// What was learnt, as JSON.
    pub data: String,
}

#[derive(Debug, Clone)]
pub struct AdvanceArgs {
    pub session: String,
}

#[derive(Debug, Clone)]
pub struct StatusArgs {
    pub session: String,
}

/// A phase of an interview.
#[derive(Debug, Clone, Copy, PartialEq, Eq, Structural)]
pub enum Phase {
    Genesis,
    Artifacts,
    Intuition,
    Compile,
    Refine,
    Publish,
}

/// The position of a phase.
pub open spec fn phase_number(p: Phase) -> int {
    match p {
        Phase::Genesis => 0,
        Phase::Artifacts => 1,
        Phase::Intuition => 2,
        Phase::Compile => 3,
        Phase::Refine => 4,
        Phase::Publish => 5,
    }
}

/// The phase that follows, if one does.
pub open spec fn next_phase(p: Phase) -> Option<Phase> {
    match p {
        Phase::Genesis => Some(Phase::Artifacts),
        Phase::Artifacts => Some(Phase::Intuition),
        Phase::Intuition => Some(Phase::Compile),
        Phase::Compile => Some(Phase::Refine),
        Phase::Refine => Some(Phase::Publish),
        Phase::Publish => None,
    }
}

/// The name of a phase.
pub open spec fn phase_name(p: Phase) -> Seq<char> {
    match p {
        Phase::Genesis => "genesis"@,
        Phase::Artifacts => "artifacts"@,
        Phase::Intuition => "intuition"@,
        Phase::Compile => "compile"@,
        Phase::Refine => "refine"@,
        Phase::Publish => "publish"@,
    }
}

/// The phase with a name.
pub open spec fn phase_named(s: Seq<char>) -> Option<Phase> {
    if s == "genesis"@ {
        Some(Phase::Genesis)
    } else if s == "artifacts"@ {
        Some(Phase::Artifacts)
    } else if s == "intuition"@ {
        Some(Phase::Intuition)
    } else if s == "compile"@ {
        Some(Phase::Compile)
    } else if s == "refine"@ {
        Some(Phase::Refine)
    } else if s == "publish"@ {
        Some(Phase::Publish)
    } else {
        None
    }
}

impl Phase {
    /// The phase that follows, if one does.
    pub fn next(self) -> (r: Option<Phase>)
        ensures
            r == next_phase(self),
    {
        match self {
            Phase::Genesis => Some(Phase::Artifacts),
            Phase::Artifacts => Some(Phase::Intuition),
            Phase::Intuition => Some(Phase::Compile),
            Phase::Compile => Some(Phase::Refine),
            Phase::Refine => Some(Phase::Publish),
            Phase::Publish => None,
        }
    }

    /// The phase with a name.
    pub fn named(s: &str) -> (r: Option<Phase>)
        ensures
            r == phase_named(s@),
    {
        if same(s, "genesis") {
            Some(Phase::Genesis)
        } else if same(s, "artifacts") {
            Some(Phase::Artifacts)
        } else if same(s, "intuition") {
            Some(Phase::Intuition)
        } else if same(s, "compile") {
            Some(Phase::Compile)
        } else if same(s, "refine") {
            Some(Phase::Refine)
        } else if same(s, "publish") {
            Some(Phase::Publish)
        } else {
            None
        }
    }
}

/// The name of a phase.
pub fn phase_str(p: Phase) -> (r: &'static str)
    ensures
        r@ == phase_name(p),
{
    match p {
        Phase::Genesis => "genesis",
        Phase::Artifacts => "artifacts",
        Phase::Intuition => "intuition",
        Phase::Compile => "compile",
        Phase::Refine => "refine",
        Phase::Publish => "publish",
    }
}

/// The phases follow one another: each step goes to the next number, and only the
/// last phase has none that follows.
pub proof fn law_phases_go_forward(p: Phase)
    ensures
        match next_phase(p) {
            Some(q) => phase_number(q) == phase_number(p) + 1,
            None => p == Phase::Publish && phase_number(p) == 5,
        },
{
}

proof fn lemma_phase_names()
    ensures
        forall|p: Phase| #![trigger phase_name(p)] phase_named(phase_name(p)) == Some(p),
{
    reveal_strlit("genesis");
    reveal_strlit("artifacts");
    reveal_strlit("intuition");
    reveal_strlit("compile");
    reveal_strlit("refine");
    reveal_strlit("publish");
    assert("genesis"@.len() == 7 && "genesis"@[0] == 'g');
    assert("artifacts"@.len() == 9 && "artifacts"@[0] == 'a');
    assert("intuition"@.len() == 9 && "intuition"@[0] == 'i');
    assert("compile"@.len() == 7 && "compile"@[0] == 'c');
    assert("refine"@.len() == 6);
    assert("publish"@.len() == 7 && "publish"@[0] == 'p');
    assert forall|p: Phase| #![trigger phase_name(p)] phase_named(phase_name(p)) == Some(p) by {}
}

/// A phase is found under its own name.
pub proof fn law_phase_name_reads_back(p: Phase)
    ensures
        phase_named(phase_name(p)) == Some(p),
{
    lemma_phase_names();
}

// ---------------------------------------------------------------------------
// Sessions
// ---------------------------------------------------------------------------

/// An interview.
#[derive(Debug)]
pub struct Session {
    pub id: String,
    pub phase: Phase,
    /// What was learnt in each phase.
    pub data: Json,
}

/// An interview as a mathematical value.
pub ghost struct SessionView {
    pub id: Seq<char>,
    pub phase: Phase,
    pub data: JsonView,
}

impl View for Session {
    type V = SessionView;

    open spec fn view(&self) -> SessionView {
        SessionView { id: self.id@, phase: self.phase, data: self.data.value() }
    }
}

/// An interview that starts.
pub open spec fn fresh_session(id: Seq<char>) -> SessionView {
    SessionView { id, phase: Phase::Genesis, data: JsonView::Object(seq![]) }
}

/// An interview that starts, under an id.
pub fn session_with(id: String) -> (r: Session)
    ensures
        r@ == fresh_session(id@),
{
    let m = no_members();
    assert(member_views(m@) =~= seq![]);
    Session { id, phase: Phase::Genesis, data: Json::object(m) }
}

/// An interview that starts, under a fresh id.
pub fn start() -> (r: Session)
    ensures
        is_id(r@.id) && r@ == fresh_session(r@.id),
{
    session_with(fresh_id())
}

/// Moves an interview on to the phase that follows. After the last there is none.
pub fn advance(session: &mut Session) -> (r: Result<Phase, CliError>)
    ensures
        match next_phase(old(session)@.phase) {
            Some(p) => r == Ok::<Phase, CliError>(p) && final(session)@ == (SessionView {
                phase: p,
                ..old(session)@
            }),
            None => r is Err && final(session)@ == old(session)@ && r->Err_0@ == (ErrorView::User {
                code: "ALREADY_AT_LAST_PHASE"@,
                message: "interview is already at the publish phase"@,
                hint: Some("run `knack publish <slug>` to finish"@),
            }),
        },
{
    match session.phase.next() {
        Some(p) => {
            session.phase = p;
            Ok(p)
        },
        None => Err(
            user_error_hint(
                "ALREADY_AT_LAST_PHASE",
                "interview is already at the publish phase".to_owned(),
                "run `knack publish <slug>` to finish",
            ),
        ),
    }
}

/// The members with the value under the key: in place of the one that is there, or
/// behind all others.
pub open spec fn with_value(s: Seq<(Seq<char>, JsonView)>, key: Seq<char>, v: JsonView) -> Seq<
    (Seq<char>, JsonView),
>
    decreases s.len(),
{
    if s.len() == 0 {
        seq![(key, v)]
    } else if s[0].0 == key {
        seq![(key, v)] + s.drop_first()
    } else {
        seq![s[0]] + with_value(s.drop_first(), key, v)
    }
}

fn set_member(m: Vec<(String, Json)>, key: &str, value: Json) -> (r: Vec<(String, Json)>)
    ensures
        member_views(r@) == with_value(member_views(m@), key@, value.value()),
{
    let ghost s = member_views(m@);
    let ghost v = value.value();
    let mut r = m;
    let mut i: usize = 0;
    proof {
        assert(s.take(0) + with_value(s.skip(0), key@, v) =~= with_value(s, key@, v)) by {
            assert(s.skip(0) =~= s);
        }
    }
    while i < r.len()
        invariant
            i <= r.len(),
            member_views(r@) == s,
            s == member_views(m@),
            value.value() == v,
            s.take(i as int) + with_value(s.skip(i as int), key@, v) == with_value(s, key@, v),
        decreases r.len() - i,
    {
        assert(s[i as int] == (r@[i as int].0@, r@[i as int].1.value()));
        assert(s.skip(i as int).drop_first() =~= s.skip(i + 1));
        assert(s.skip(i as int)[0] == s[i as int]);
        if same(r[i].0.as_str(), key) {
            r.set(i, (key.to_owned(), value));
            assert(member_views(r@) =~= s.take(i as int) + (seq![(key@, v)] + s.skip(i + 1)));
            return r;
        }
        assert(s.take(i as int) + (seq![s[i as int]] + with_value(s.skip(i + 1), key@, v)) =~= s.take(
            i + 1,
        ) + with_value(s.skip(i + 1), key@, v));
        i += 1;
    }
    assert(s.skip(i as int) =~= seq![]);
    assert(s.take(i as int) =~= s);
    r.push((key.to_owned(), value));
    assert(member_views(r@) =~= s + seq![(key@, v)]);
    r
}

/// Keeps what was learnt in a phase, as it was read: in place of what was kept
/// before. Data that is no object is not touched.
pub fn keep(
    session: Session,
    phase: Phase,
    value: Result<Json, String>,
) -> (r: Result<Session, CliError>)
    ensures
        match value {
            Err(e) => r is Err && r->Err_0@ == (ErrorView::User {
                code: "INVALID_JSON"@,
                message: "--data is not valid JSON: "@ + e@,
                hint: None,
            }),
            Ok(v) => match session@.data {
                JsonView::Object(s) => r is Ok && r->Ok_0@ == (SessionView {
                    data: JsonView::Object(with_value(s, phase_name(phase), v.value())),
                    ..session@
                }),
                _ => r is Err && r->Err_0@ == (ErrorView::User {
                    code: "STATE_CORRUPT"@,
                    message: "session data is not a JSON object"@,
                    hint: Some("delete the session file and start a new interview"@),
                }),
            },
        },
{
    let value = match value {
        Ok(v) => v,
        Err(e) => {
            return Err(
                user_error(
                    "INVALID_JSON",
                    crate::errors::prefixed("--data is not valid JSON: ", e.as_str()),
                ),
            );
        },
    };
    match session.data {
        Json::Object(m) => {
            proof {
                crate::json::lemma_object_value(m);
            }
            let r = set_member(m, phase_str(phase), value);
            Ok(Session { id: session.id, phase: session.phase, data: Json::object(r) })
        },
        _ => Err(
            user_error_hint(
                "STATE_CORRUPT",
                "session data is not a JSON object".to_owned(),
                "delete the session file and start a new interview",
            ),
        ),
    }
}

/// What is kept, by the text that was given.
pub open spec fn kept(s: SessionView, phase: Phase, value: Result<JsonView, Seq<char>>) -> Option<
    SessionView,
> {
    match (value, s.data) {
        (Ok(v), JsonView::Object(m)) => Some(
            SessionView { data: JsonView::Object(with_value(m, phase_name(phase), v)), ..s },
        ),
        _ => None,
    }
}

/// Keeps what was learnt in a phase, by the text that was given.
pub fn save(session: Session, args: &SaveArgs) -> (r: Result<Session, CliError>)
    ensures
        match r {
            Ok(s) => kept(session@, args.phase, json_parsed(args.data@)) == Some(s@),
            Err(_) => kept(session@, args.phase, json_parsed(args.data@)) is None,
        },
{
    keep(session, args.phase, parse(args.data.as_str()))
}

/// What is kept under a phase is found there, and what is kept under other keys
/// stays.
pub proof fn law_what_is_kept_is_found(s: Seq<(Seq<char>, JsonView)>, key: Seq<char>, v: JsonView, other: Seq<
    char,
>)
    ensures
        member(with_value(s, key, v), key) == Some(v),
        other != key ==> member(with_value(s, key, v), other) == member(s, other),
    decreases s.len(),
{
    let t = with_value(s, key, v);
    if s.len() == 0 {
        assert(t.drop_first() =~= s);
        reveal_with_fuel(member, 2);
    } else if s[0].0 == key {
        assert(t.drop_first() =~= s.drop_first());
    } else {
        law_what_is_kept_is_found(s.drop_first(), key, v, other);
        assert(t.drop_first() =~= with_value(s.drop_first(), key, v));
        assert(t[0] == s[0]);
    }
}

// ---------------------------------------------------------------------------
// The file
// ---------------------------------------------------------------------------

/// Where interviews are kept.
pub fn sessions_dir(home: Option<&str>) -> (r: Result<String, CliError>)
    ensures
        match opt_str_view(home) {
            Some(h) => r is Ok && r->Ok_0@ == below(below(h, ".knack"@), "sessions"@),
            None => r is Err && r->Err_0@ == (ErrorView::User {
                code: "NO_HOME_DIR"@,
                message: "could not resolve $HOME"@,
                hint: None,
            }),
        },
{
    match home {
        Some(h) => {
            let dir = join_path(h, ".knack");
            Ok(join_path(dir.as_str(), "sessions"))
        },
        None => Err(user_error("NO_HOME_DIR", "could not resolve $HOME".to_owned())),
    }
}

/// The file of an interview.
pub fn session_file(dir: &str, id: &str) -> (r: String)
    ensures
        r@ == below(dir@, json_name(id@)),
{
    let name = json_file(id);
    join_path(dir, name.as_str())
}

/// The directory that the interview's own skill is written to: below the one that is
/// given, else below the one in which the agent at work looks for skills.
pub fn resolve_target(target_dir: Option<&str>, agent_skills: &str) -> (r: String)
    ensures
        r@ == below(
            match opt_str_view(target_dir) {
                Some(d) => d,
                None => agent_skills@,
            },
            "knack-interview"@,
        ),
{
    match target_dir {
        Some(d) => join_path(d, "knack-interview"),
        None => join_path(agent_skills, "knack-interview"),
    }
}

/// An interview as JSON.
pub open spec fn session_fields(s: SessionView) -> Seq<(Seq<char>, Option<JsonView>)> {
    seq![
        ("id"@, Some(JsonView::Text(s.id))),
        ("phase"@, Some(JsonView::Text(phase_name(s.phase)))),
        ("data"@, Some(s.data)),
    ]
}

/// The phase that stands in a place.
pub open spec fn phase_part(o: Option<JsonView>) -> Option<Phase> {
    match text_part(o) {
        Some(s) => phase_named(s),
        None => None,
    }
}

/// The interview that a value describes, if it does.
pub open spec fn session_of(v: JsonView) -> Option<SessionView> {
    match (text_part(field(v, "id"@)), phase_part(field(v, "phase"@)), field(v, "data"@)) {
        (Some(id), Some(phase), Some(data)) => Some(SessionView { id, phase, data }),
        _ => None,
    }
}

/// The interview that a document holds, by what it holds as JSON.
pub open spec fn session_in(j: Result<JsonView, Seq<char>>) -> Option<SessionView> {
    match j {
        Ok(v) => session_of(v),
        Err(_) => None,
    }
}

proof fn lemma_session_keys(s: SessionView)
    ensures
        distinct_keys(session_fields(s)),
{
    reveal_strlit("id");
    reveal_strlit("phase");
    reveal_strlit("data");
    assert("id"@.len() == 2 && "phase"@.len() == 5 && "data"@.len() == 4);
}

/// What is written of an interview is read as the interview.
pub proof fn law_session_reads_back(s: SessionView)
    ensures
        session_of(record(session_fields(s))) == Some(s),
        plain(s.data, 99) ==> plain(record(session_fields(s)), 100),
{
    let f = session_fields(s);
    lemma_session_keys(s);
    lemma_record_field(f, 0);
    lemma_record_field(f, 1);
    lemma_record_field(f, 2);
    assert(f[0].0 == "id"@ && f[1].0 == "phase"@ && f[2].0 == "data"@);
    lemma_phase_names();
    if plain(s.data, 99) {
        lemma_record_plain(f, 100);
    }
}

/// The text of an interview. Reading it gives the interview back, as far as what was
/// learnt is plain.
pub fn save_session(session: &Session) -> (r: String)
    ensures
        r@ == json_pretty(record(session_fields(session@))),
        plain(session@.data, 99) ==> session_in(json_parsed(r@)) == Some(session@),
{
    let mut m: Vec<(String, Json)> = Vec::new();
    proof {
        reveal_with_fuel(present, 4);
        assert(member_views(m@) =~= seq![]);
        law_session_reads_back(session@);
    }
    push_member(&mut m, "id", Some(Json::text(session.id.as_str())));
    push_member(&mut m, "phase", Some(Json::text(phase_str(session.phase))));
    push_member(&mut m, "data", Some(copy(&session.data)));
    let v = Json::object(m);
    assert(v.value() == record(session_fields(session@)));
    render_pretty(&v)
}

/// The error of a file that holds no interview.
pub open spec fn corrupt(id: Seq<char>, e: Seq<char>) -> ErrorView {
    ErrorView::User {
        code: "STATE_CORRUPT"@,
        message: "session "@ + id + " is corrupt: "@ + e,
        hint: Some("delete the session file and start a new interview"@),
    }
}

fn corrupt_error(id: &str, e: &str) -> (r: CliError)
    ensures
        r@ == corrupt(id@, e@),
{
    user_error_hint(
        "STATE_CORRUPT",
        concat4("session ", id, " is corrupt: ", e),
        "delete the session file and start a new interview",
    )
}

/// The interview that was read.
pub fn session_from(id: &str, json: Result<Json, String>) -> (r: Result<Session, CliError>)
    ensures
        match json {
            Err(e) => r is Err && r->Err_0@ == corrupt(id@, e@),
            Ok(v) => match session_of(v.value()) {
                Some(s) => r is Ok && r->Ok_0@ == s,
                None => r is Err && r->Err_0@ == corrupt(id@, "not a session"@),
            },
        },
{
    match json {
        Err(e) => Err(corrupt_error(id, e.as_str())),
        Ok(v) => {
            let phase = match get_text(v.get("phase")) {
                Some(s) => Phase::named(s.as_str()),
                None => None,
            };
            match (get_text(v.get("id")), phase, v.get("data")) {
                (Some(sid), Some(phase), Some(data)) => Ok(
                    Session { id: sid, phase, data: copy(data) },
                ),
                _ => Err(corrupt_error(id, "not a session")),
            }
        },
    }
}

/// The interview, by what was read of its file. Without a file there is none, and a
/// file that holds none is an error.
pub fn load_session(id: &str, bytes: Option<&Vec<u8>>) -> (r: Result<Session, CliError>)
    ensures
        match bytes {
            None => r is Err && r->Err_0@ == ErrorView::NotFound("session "@ + id@ + " not found"@),
            Some(b) => if valid_utf8(b@) {
                match session_in(json_parsed(decode_utf8(b@))) {
                    Some(s) => r is Ok && r->Ok_0@ == s,
                    None => r is Err && (r->Err_0@ matches ErrorView::User { code, message: _, hint: _ }
                        && code == "STATE_CORRUPT"@),
                }
            } else {
                r is Err && r->Err_0@ == corrupt(id@, "not a session"@)
            },
        },
{
    match bytes {
        None => Err(CliError::NotFound(concat3("session ", id, " not found"))),
        Some(b) => match utf8_text(b.as_slice()) {
            Ok(s) => session_from(id, parse(s.as_str())),
            Err(_) => Err(corrupt_error(id, "not a session")),
        },
    }
}

/// What is reported of an interview.
pub open spec fn session_report(s: SessionView) -> JsonView {
    JsonView::Object(
        seq![
            ("ok"@, JsonView::Bool(true)),
            ("session"@, JsonView::Text(s.id)),
            ("phase"@, JsonView::Text(phase_name(s.phase))),
            ("data"@, s.data),
        ],
    )
}

/// What is reported of an interview.
pub fn status(session: &Session) -> (r: Json)
    ensures
        r.value() == session_report(session@),
{
    let m = with_member(no_members(), "ok", Json::Bool(true));
    let m = with_member(m, "session", Json::text(session.id.as_str()));
    let m = with_member(m, "phase", Json::text(phase_str(session.phase)));
    let m = with_member(m, "data", copy(&session.data));
    assert(member_views(m@) =~= session_report(session@)->Object_0);
    Json::object(m)
}

/// One line that is told.
fn one_line(report: Json, line: String) -> (r: Told)
    ensures
        r.report == report,
        views(r.lines@) == seq![line@],
{
    let mut lines: Vec<String> = Vec::new();
    lines.push(line);
    assert(views(lines@) =~= seq![line@]);
    Told { report, lines }
}

/// What is reported of an interview that was started.
pub open spec fn started_report(s: SessionView, dir: Seq<char>) -> JsonView {
    JsonView::Object(
        seq![
            ("ok"@, JsonView::Bool(true)),
            ("session"@, JsonView::Text(s.id)),
            ("phase"@, JsonView::Text(phase_name(s.phase))),
            ("skill_dir"@, JsonView::Text(dir)),
        ],
    )
}

/// What is told of an interview that was started, with its skill written to `dir`. The
/// agent looks for skills in `agent_skills`.
pub fn started(session: &Session, dir: &str, agent_skills: &str) -> (r: Told)
    ensures
        r.report.value() == started_report(session@, dir@),
        views(r.lines@) == seq![
            "knack interview: session "@ + session@.id + " started (phase: "@ + phase_name(
                session@.phase,
            ) + ")"@,
            "skill written to "@ + dir@,
            "the agent should load "@ + agent_skills@ + "/knack-interview/SKILL.md to begin"@,
        ],
{
    let phase = phase_str(session.phase);
    let m = with_member(no_members(), "ok", Json::Bool(true));
    let m = with_member(m, "session", Json::text(session.id.as_str()));
    let m = with_member(m, "phase", Json::text(phase));
    let m = with_member(m, "skill_dir", Json::text(dir));
    assert(member_views(m@) =~= started_report(session@, dir@)->Object_0);
    let mut lines: Vec<String> = Vec::new();
    lines.push(
        concat5(
            "knack interview: session ",
            session.id.as_str(),
            " started (phase: ",
            phase,
            ")",
        ),
    );
    lines.push(crate::errors::prefixed("skill written to ", dir));
    lines.push(
        concat3("the agent should load ", agent_skills, "/knack-interview/SKILL.md to begin"),
    );
    assert(views(lines@) =~= seq![
        "knack interview: session "@ + session@.id + " started (phase: "@ + phase_name(
            session@.phase,
        ) + ")"@,
        "skill written to "@ + dir@,
        "the agent should load "@ + agent_skills@ + "/knack-interview/SKILL.md to begin"@,
    ]);
    Told { report: Json::object(m), lines }
}

/// What is reported of an interview that is gone on with.
pub open spec fn resumed_report(s: SessionView, dir: Seq<char>) -> JsonView {
    JsonView::Object(session_report(s)->Object_0.push(("skill_dir"@, JsonView::Text(dir))))
}

/// What is told of an interview that is gone on with.
pub fn resume(session: &Session, dir: &str) -> (r: Told)
    ensures
        r.report.value() == resumed_report(session@, dir@),
        views(r.lines@) == seq![
            "knack interview: resumed session "@ + session@.id + " (phase: "@ + phase_name(
                session@.phase,
            ) + ")"@,
        ],
{
    let phase = phase_str(session.phase);
    let m = with_member(no_members(), "ok", Json::Bool(true));
    let m = with_member(m, "session", Json::text(session.id.as_str()));
    let m = with_member(m, "phase", Json::text(phase));
    let m = with_member(m, "data", copy(&session.data));
    let m = with_member(m, "skill_dir", Json::text(dir));
    assert(member_views(m@) =~= resumed_report(session@, dir@)->Object_0);
    one_line(
        Json::object(m),
        concat5(
            "knack interview: resumed session ",
            session.id.as_str(),
            " (phase: ",
            phase,
            ")",
        ),
    )
}

/// What is told of what was found out in a phase, once it is kept.
pub fn saved(session: &Session, phase: Phase) -> (r: Told)
    ensures
        r.report.value() == JsonView::Object(seq![("ok"@, JsonView::Bool(true))]),
        views(r.lines@) == seq![
            "knack interview: saved phase "@ + phase_name(phase) + " for "@ + session@.id,
        ],
{
    let m = with_member(no_members(), "ok", Json::Bool(true));
    assert(member_views(m@) =~= seq![("ok"@, JsonView::Bool(true))]);
    one_line(
        Json::object(m),
        concat4(
            "knack interview: saved phase ",
            phase_str(phase),
            " for ",
            session.id.as_str(),
        ),
    )
}

/// What is told of an interview that went on to its phase.
pub fn advanced(session: &Session) -> (r: Told)
    ensures
        r.report.value() == JsonView::Object(
            seq![
                ("ok"@, JsonView::Bool(true)),
                ("phase"@, JsonView::Text(phase_name(session@.phase))),
            ],
        ),
        views(r.lines@) == seq![
            "knack interview: advanced to "@ + phase_name(session@.phase) + " for "@ + session@.id,
        ],
{
    let phase = phase_str(session.phase);
    let m = with_member(no_members(), "ok", Json::Bool(true));
    let m = with_member(m, "phase", Json::text(phase));
    assert(member_views(m@) =~= seq![
        ("ok"@, JsonView::Bool(true)),
        ("phase"@, JsonView::Text(phase_name(session@.phase))),
    ]);
    one_line(
        Json::object(m),
        concat4("knack interview: advanced to ", phase, " for ", session.id.as_str()),
    )
}

/// What people are told of an interview.
pub fn status_lines(session: &Session) -> (r: Vec<String>)
    ensures
        views(r@) == seq![
            "session: "@ + session@.id,
            "phase:   "@ + phase_name(session@.phase),
            "data:    "@ + json_pretty(session@.data),
        ],
{
    let data = render_pretty(&session.data);
    let mut out: Vec<String> = Vec::new();
    out.push(crate::errors::prefixed("session: ", session.id.as_str()));
    out.push(crate::errors::prefixed("phase:   ", phase_str(session.phase)));
    out.push(crate::errors::prefixed("data:    ", data.as_str()));
    assert(views(out@) =~= seq![
        "session: "@ + session@.id,
        "phase:   "@ + phase_name(session@.phase),
        "data:    "@ + json_pretty(session@.data),
    ]);
    out
}

} // verus!
