//! Run telemetry in day files.
//!
//! One line per event, one file per day, append-only. A run has a `started`
//! event, which carries what it is, and a `marked` event, which carries how it
//! ended. A reader passes over lines that it cannot make sense of.

use vstd::prelude::*;

use crate::errors::prefixed;
use crate::github::git::RemoteTarget;
use crate::ids::{fresh_id, is_id};
use crate::json::{
    all_texts, distinct_keys, field, get_list, get_opt_text, get_text, json_compact, json_parsed,
    lemma_record_field, lemma_record_plain, lemma_texts_plain, list_part, member_views,
    opt_text_part, opt_value, parse, plain, present, push_member, record, render, text_part,
    text_values, unbroken, Json, JsonView,
};
use crate::numbers::{zero_pad, zero_padded};
use crate::text::{
    clone_strings, contains, drop_trailing, find_first, lemma_line_added, lines_of, one_line,
    opt_owned, opt_str_view, opt_view, same, trim, trimmed, views, without_cr, CharClass,
};
use crate::time::{
    calendar_date, date_parts, elapsed_millis, is_not_later, millis_between, not_later, ordinary,
    parse_timestamp, render_timestamp, timestamp_parsed, timestamp_rendered, Timestamp,
};
use crate::types::{status_name, RunLog};

pub mod laws;

verus! {

/// The days that are looked back over where no window is given.
pub const DEFAULT_LOOKBACK_DAYS: i64 = 30;

/// One line of a day file.
#[derive(Debug)]
pub struct RunEvent {
    /// `started` or `marked`.
    pub event: String,
    pub run_id: String,
    pub skill: Option<String>,
    pub version: Option<String>,
    pub agent: Option<String>,
    pub inputs: Vec<String>,
    pub outputs: Vec<String>,
    pub status: Option<String>,
    pub note: Option<String>,
    pub at: Timestamp,
}

/// An event as a mathematical value.
#[verifier::ext_equal]
pub ghost struct EventView {
    pub event: Seq<char>,
    pub run_id: Seq<char>,
    pub skill: Option<Seq<char>>,
    pub version: Option<Seq<char>>,
    pub agent: Option<Seq<char>>,
    pub inputs: Seq<Seq<char>>,
    pub outputs: Seq<Seq<char>>,
    pub status: Option<Seq<char>>,
    pub note: Option<Seq<char>>,
    pub at: Timestamp,
}

impl View for RunEvent {
    type V = EventView;

    open spec fn view(&self) -> EventView {
        EventView {
            event: self.event@,
            run_id: self.run_id@,
            skill: opt_view(self.skill),
            version: opt_view(self.version),
            agent: opt_view(self.agent),
            inputs: views(self.inputs@),
            outputs: views(self.outputs@),
            status: opt_view(self.status),
            note: opt_view(self.note),
            at: self.at,
        }
    }
}

pub open spec fn opt_event_view(e: Option<RunEvent>) -> Option<EventView> {
    match e {
        Some(e) => Some(e@),
        None => None,
    }
}

/// The latest state of a run, put together from its events.
#[derive(Debug)]
pub struct RunSnapshot {
    pub run_id: String,
    pub skill: Option<String>,
    pub version: Option<String>,
    pub agent: Option<String>,
    pub inputs: Vec<String>,
    pub outputs: Vec<String>,
    /// `started`, `succeeded`, `failed` or `aborted`.
    pub status: String,
    pub note: Option<String>,
    pub started_at: Option<Timestamp>,
    pub completed_at: Option<Timestamp>,
    /// From the start to the end, where both are known.
    pub duration_ms: Option<u64>,
}

/// A snapshot as a mathematical value.
#[verifier::ext_equal]
pub ghost struct SnapshotView {
    pub run_id: Seq<char>,
    pub skill: Option<Seq<char>>,
    pub version: Option<Seq<char>>,
    pub agent: Option<Seq<char>>,
    pub inputs: Seq<Seq<char>>,
    pub outputs: Seq<Seq<char>>,
    pub status: Seq<char>,
    pub note: Option<Seq<char>>,
    pub started_at: Option<Timestamp>,
    pub completed_at: Option<Timestamp>,
    pub duration_ms: Option<u64>,
}

impl View for RunSnapshot {
    type V = SnapshotView;

    open spec fn view(&self) -> SnapshotView {
        SnapshotView {
            run_id: self.run_id@,
            skill: opt_view(self.skill),
            version: opt_view(self.version),
            agent: opt_view(self.agent),
            inputs: views(self.inputs@),
            outputs: views(self.outputs@),
            status: self.status@,
            note: opt_view(self.note),
            started_at: self.started_at,
            completed_at: self.completed_at,
            duration_ms: self.duration_ms,
        }
    }
}

pub open spec fn opt_snapshot_view(s: Option<RunSnapshot>) -> Option<SnapshotView> {
    match s {
        Some(s) => Some(s@),
        None => None,
    }
}

// ---------------------------------------------------------------------------
// Reading a line
// ---------------------------------------------------------------------------

/// The number of fields of an event.
pub open spec fn event_width() -> nat {
    10
}

/// The value of a field of an event: a member of an object, or an item of an
/// array that holds all fields in order.
pub open spec fn part(v: JsonView, key: Seq<char>, i: int) -> Option<JsonView> {
    match v {
        JsonView::Array(s) => if s.len() == event_width() {
            Some(s[i])
        } else {
            None
        },
        _ => field(v, key),
    }
}

/// The inputs of an event. Old lines have a single text under `input` instead of
/// the list.
pub open spec fn inputs_part(v: JsonView) -> Option<JsonView> {
    match part(v, "inputs"@, 5) {
        Some(x) => Some(x),
        None => match field(v, "input"@) {
            Some(JsonView::Text(s)) => Some(JsonView::Array(seq![JsonView::Text(s)])),
            _ => None,
        },
    }
}

/// The moment that a text states.
pub open spec fn moment_part(o: Option<JsonView>) -> Option<Timestamp> {
    match o {
        Some(JsonView::Text(s)) => timestamp_parsed(s),
        _ => None,
    }
}

/// The event that a value is, if it is one.
pub open spec fn event_of(v: JsonView) -> Option<EventView> {
    let event = text_part(part(v, "event"@, 0));
    let run_id = text_part(part(v, "run_id"@, 1));
    let skill = opt_text_part(part(v, "skill"@, 2));
    let version = opt_text_part(part(v, "version"@, 3));
    let agent = opt_text_part(part(v, "agent"@, 4));
    let inputs = list_part(inputs_part(v));
    let outputs = list_part(part(v, "outputs"@, 6));
    let status = opt_text_part(part(v, "status"@, 7));
    let note = opt_text_part(part(v, "note"@, 8));
    let at = moment_part(part(v, "at"@, 9));
    if event is Some && run_id is Some && skill is Some && version is Some && agent is Some
        && inputs is Some && outputs is Some && status is Some && note is Some && at is Some {
        Some(
            EventView {
                event: event->0,
                run_id: run_id->0,
                skill: skill->0,
                version: version->0,
                agent: agent->0,
                inputs: inputs->0,
                outputs: outputs->0,
                status: status->0,
                note: note->0,
                at: at->0,
            },
        )
    } else {
        None
    }
}

/// The event that a document holds, by what it holds as JSON.
pub open spec fn event_in(j: Result<JsonView, Seq<char>>) -> Option<EventView> {
    match j {
        Ok(v) => event_of(v),
        Err(_) => None,
    }
}

fn get_part<'a>(v: &'a Json, key: &str, i: usize) -> (r: Option<&'a Json>)
    requires
        i < event_width(),
    ensures
        opt_value(r) == part(v.value(), key@, i as int),
{
    match v {
        Json::Array(a) => {
            proof {
                crate::json::lemma_array_value(*a);
            }
            if a.len() == 10 {
                Some(&a[i])
            } else {
                None
            }
        },
        _ => v.get(key),
    }
}

fn get_inputs(v: &Json) -> (r: Option<Vec<String>>)
    ensures
        match r {
            Some(t) => list_part(inputs_part(v.value())) == Some(views(t@)),
            None => list_part(inputs_part(v.value())) is None,
        },
{
    let listed = get_part(v, "inputs", 5);
    if listed.is_some() {
        return get_list(listed);
    }
    match v.get("input") {
        Some(Json::Text(s)) => {
            let mut r: Vec<String> = Vec::new();
            r.push(s.clone());
            proof {
                let one = seq![JsonView::Text(s@)];
                assert(all_texts(one));
                assert(views(r@) =~= Seq::new(one.len(), |i: int| one[i]->Text_0));
            }
            Some(r)
        },
        _ => get_list(None),
    }
}

fn get_moment(o: Option<&Json>) -> (r: Option<Timestamp>)
    ensures
        r == moment_part(opt_value(o)),
{
    match o {
        Some(Json::Text(s)) => parse_timestamp(s.as_str()),
        _ => None,
    }
}

/// The event that a value is, if it is one.
pub fn read_event(v: &Json) -> (r: Option<RunEvent>)
    ensures
        opt_event_view(r) == event_of(v.value()),
{
    let event = get_text(get_part(v, "event", 0));
    let run_id = get_text(get_part(v, "run_id", 1));
    let skill = get_opt_text(get_part(v, "skill", 2));
    let version = get_opt_text(get_part(v, "version", 3));
    let agent = get_opt_text(get_part(v, "agent", 4));
    let inputs = get_inputs(v);
    let outputs = get_list(get_part(v, "outputs", 6));
    let status = get_opt_text(get_part(v, "status", 7));
    let note = get_opt_text(get_part(v, "note", 8));
    let at = get_moment(get_part(v, "at", 9));
    match (event, run_id, skill, version, agent) {
        (Some(event), Some(run_id), Some(skill), Some(version), Some(agent)) => match (
            inputs,
            outputs,
            status,
            note,
            at,
        ) {
            (Some(inputs), Some(outputs), Some(status), Some(note), Some(at)) => Some(
                RunEvent {
                    event,
                    run_id,
                    skill,
                    version,
                    agent,
                    inputs,
                    outputs,
                    status,
                    note,
                    at,
                },
            ),
            _ => None,
        },
        _ => None,
    }
}

/// The event that a line holds, if it holds one.
pub fn parse_event_line(line: &str) -> (r: Option<RunEvent>)
    ensures
        opt_event_view(r) == event_in(json_parsed(line@)),
{
    match parse(line) {
        Ok(v) => read_event(&v),
        Err(_) => None,
    }
}

// ---------------------------------------------------------------------------
// Writing a line
// ---------------------------------------------------------------------------

pub open spec fn opt_json(o: Option<Seq<char>>) -> Option<JsonView> {
    match o {
        Some(s) => Some(JsonView::Text(s)),
        None => None,
    }
}

/// A list as a value, left out where it is empty.
pub open spec fn list_json(s: Seq<Seq<char>>) -> Option<JsonView> {
    if s.len() == 0 {
        None
    } else {
        Some(JsonView::Array(text_values(s)))
    }
}

/// The fields of an event, with its moment as text.
pub open spec fn event_fields(e: EventView, at: Seq<char>) -> Seq<(Seq<char>, Option<JsonView>)> {
    seq![
        ("event"@, Some(JsonView::Text(e.event))),
        ("run_id"@, Some(JsonView::Text(e.run_id))),
        ("skill"@, opt_json(e.skill)),
        ("version"@, opt_json(e.version)),
        ("agent"@, opt_json(e.agent)),
        ("inputs"@, list_json(e.inputs)),
        ("outputs"@, list_json(e.outputs)),
        ("status"@, opt_json(e.status)),
        ("note"@, opt_json(e.note)),
        ("at"@, Some(JsonView::Text(at))),
    ]
}

proof fn lemma_event_keys(e: EventView, at: Seq<char>)
    ensures
        distinct_keys(event_fields(e, at)),
        forall|i: int| 0 <= i < 10 ==> (#[trigger] event_fields(e, at)[i]).0 != "input"@,
{
    reveal_strlit("event");
    reveal_strlit("run_id");
    reveal_strlit("skill");
    reveal_strlit("version");
    reveal_strlit("agent");
    reveal_strlit("input");
    reveal_strlit("inputs");
    reveal_strlit("outputs");
    reveal_strlit("status");
    reveal_strlit("note");
    reveal_strlit("at");
    let f = event_fields(e, at);
    // Keys of one length differ in their first characters.
    assert(f[0].0.len() == 5 && f[0].0[0] == 'e');
    assert(f[1].0.len() == 6 && f[1].0[0] == 'r');
    assert(f[2].0.len() == 5 && f[2].0[0] == 's');
    assert(f[3].0.len() == 7 && f[3].0[0] == 'v');
    assert(f[4].0.len() == 5 && f[4].0[0] == 'a');
    assert(f[5].0.len() == 6 && f[5].0[0] == 'i');
    assert(f[6].0.len() == 7 && f[6].0[0] == 'o');
    assert(f[7].0.len() == 6 && f[7].0[0] == 's');
    assert(f[8].0.len() == 4);
    assert(f[9].0.len() == 2);
    assert forall|i: int, j: int| 0 <= i < j < f.len() implies (#[trigger] f[i]).0 != (
    #[trigger] f[j]).0 by {
        assert(i == 0 || i == 1 || i == 2 || i == 3 || i == 4 || i == 5 || i == 6 || i == 7 || i == 8);
        assert(j == 1 || j == 2 || j == 3 || j == 4 || j == 5 || j == 6 || j == 7 || j == 8 || j == 9);
    }
    assert("input"@.len() == 5 && "input"@[0] == 'i');
    assert forall|i: int| 0 <= i < 10 implies (#[trigger] f[i]).0 != "input"@ by {
        assert(i == 0 || i == 1 || i == 2 || i == 3 || i == 4 || i == 5 || i == 6 || i == 7 || i == 8 || i
            == 9);
    }
}

/// What is written of an event is read as the event.
pub proof fn law_event_reads_back(e: EventView, at: Seq<char>)
    requires
        timestamp_parsed(at) == Some(e.at),
    ensures
        event_of(record(event_fields(e, at))) == Some(e),
        plain(record(event_fields(e, at)), crate::json::depth_limit()),
{
    let f = event_fields(e, at);
    let v = record(f);
    lemma_event_keys(e, at);
    lemma_record_field(f, 0);
    lemma_record_field(f, 1);
    lemma_record_field(f, 2);
    lemma_record_field(f, 3);
    lemma_record_field(f, 4);
    lemma_record_field(f, 5);
    lemma_record_field(f, 6);
    lemma_record_field(f, 7);
    lemma_record_field(f, 8);
    lemma_record_field(f, 9);
    assert(f[0].0 == "event"@ && f[1].0 == "run_id"@ && f[2].0 == "skill"@ && f[3].0 == "version"@);
    assert(f[4].0 == "agent"@ && f[5].0 == "inputs"@ && f[6].0 == "outputs"@ && f[7].0 == "status"@);
    assert(f[8].0 == "note"@ && f[9].0 == "at"@);
    crate::json::lemma_record_other(f, "input"@);
    lemma_list_reads_back(e.inputs);
    lemma_list_reads_back(e.outputs);
    assert forall|i: int| 0 <= i < f.len() implies ((#[trigger] f[i]).1 matches Some(x) ==> plain(
        x,
        99,
    )) by {
        lemma_texts_plain(e.inputs, 99);
        lemma_texts_plain(e.outputs, 99);
    }
    lemma_record_plain(f, 100);
    assert(event_of(v)->0 =~= e);
}

proof fn lemma_list_reads_back(s: Seq<Seq<char>>)
    ensures
        list_part(list_json(s)) == Some(s),
{
    if s.len() == 0 {
        assert(s =~= seq![]);
    } else {
        let a = text_values(s);
        assert forall|i: int| 0 <= i < a.len() implies (#[trigger] a[i]) is Text by {}
        assert(Seq::new(a.len(), |i: int| a[i]->Text_0) =~= s);
    }
}

fn opt_text_json(o: &Option<String>) -> (r: Option<Json>)
    ensures
        match r {
            Some(v) => opt_json(opt_view(*o)) == Some(v.value()),
            None => opt_json(opt_view(*o)) is None,
        },
{
    match o {
        Some(s) => Some(Json::text(s.as_str())),
        None => None,
    }
}

fn list_to_json(v: &Vec<String>) -> (r: Option<Json>)
    ensures
        match r {
            Some(x) => list_json(views(v@)) == Some(x.value()),
            None => list_json(views(v@)) is None,
        },
{
    if v.len() == 0 {
        None
    } else {
        Some(Json::texts(v))
    }
}

/// The line of an event, without its line feed. There is one for every moment
/// that can be written, and reading the line of an ordinary moment's event
/// gives the event back.
pub fn event_line(e: &RunEvent) -> (r: Option<String>)
    ensures
        opt_view(r) == (match timestamp_rendered(e.at) {
            Some(at) => Some(json_compact(record(event_fields(e@, at)))),
            None => None,
        }),
        r matches Some(line) ==> unbroken(line@),
        ordinary(e.at) ==> r is Some && event_in(json_parsed(r->0@)) == Some(e@),
{
    let at = match render_timestamp(&e.at) {
        Some(s) => s,
        None => {
            return None;
        },
    };
    let ghost f = event_fields(e@, at@);
    let mut m: Vec<(String, Json)> = Vec::new();
    proof {
        reveal_with_fuel(present, 11);
        assert(member_views(m@) =~= seq![]);
    }
    push_member(&mut m, "event", Some(Json::text(e.event.as_str())));
    push_member(&mut m, "run_id", Some(Json::text(e.run_id.as_str())));
    push_member(&mut m, "skill", opt_text_json(&e.skill));
    push_member(&mut m, "version", opt_text_json(&e.version));
    push_member(&mut m, "agent", opt_text_json(&e.agent));
    push_member(&mut m, "inputs", list_to_json(&e.inputs));
    push_member(&mut m, "outputs", list_to_json(&e.outputs));
    push_member(&mut m, "status", opt_text_json(&e.status));
    push_member(&mut m, "note", opt_text_json(&e.note));
    push_member(&mut m, "at", Some(Json::text(at.as_str())));
    let v = Json::object(m);
    proof {
        assert(v.value() == record(f));
        if ordinary(e.at) {
            law_event_reads_back(e@, at@);
        }
    }
    Some(render(&v))
}

/// What is added to a day file for an event: its line, with the line feed.
pub open spec fn entry_of(e: EventView) -> Option<Seq<char>> {
    match timestamp_rendered(e.at) {
        Some(at) => Some(json_compact(record(event_fields(e, at))).push('\n')),
        None => None,
    }
}

/// The file holds whole lines only.
pub open spec fn whole_lines(day: Seq<char>) -> bool {
    day.len() == 0 || day.last() == '\n'
}

/// A file of whole lines that the entry is added to has one line more, and what was there
/// stays.
pub open spec fn adds_one_line(entry: Seq<char>) -> bool {
    forall|day: Seq<char>|
        whole_lines(day) ==> lines_of(#[trigger] (day + entry)) == lines_of(day).push(
            entry.drop_last(),
        )
}

/// A file of whole lines that the entry is added to has one event more, the given one.
pub open spec fn adds_event(entry: Seq<char>, e: EventView) -> bool {
    forall|day: Seq<char>|
        whole_lines(day) ==> {
            let now = lines_of(#[trigger] (day + entry));
            events_of(now, now.len() as int) == events_of(
                lines_of(day),
                lines_of(day).len() as int,
            ).push(e)
        }
}

/// What is added to a day file for an event: one line. It can be read again where the
/// moment is an ordinary one.
pub fn day_entry(e: &RunEvent) -> (r: Option<String>)
    ensures
        opt_view(r) == entry_of(e@),
        r matches Some(entry) ==> adds_one_line(entry@),
        ordinary(e.at) ==> r is Some && adds_event(r->0@, e@),
{
    match event_line(e) {
        Some(line) => {
            let ghost l = line@;
            let mut r = line;
            r.push('\n');
            proof {
                assert(r@.drop_last() =~= l);
                assert(one_line(l) && without_cr(l) == l);
                assert forall|day: Seq<char>| whole_lines(day) implies lines_of(
                    #[trigger] (day + r@),
                ) == lines_of(day).push(r@.drop_last()) by {
                    lemma_line_added(day, l);
                }
                if ordinary(e.at) {
                    lemma_first_stays(l);
                    assert(line_event(l) == Some(e@));
                    assert forall|day: Seq<char>| whole_lines(day) implies ({
                        let now = lines_of(#[trigger] (day + r@));
                        events_of(now, now.len() as int) == events_of(
                            lines_of(day),
                            lines_of(day).len() as int,
                        ).push(e@)
                    }) by {
                        lemma_line_added(day, l);
                        let was = lines_of(day);
                        lemma_events_prefix(was, was.push(l), was.len() as int);
                    }
                }
            }
            Some(r)
        },
        None => None,
    }
}

proof fn lemma_first_stays(s: Seq<char>)
    requires
        s.len() > 0,
        !CharClass::White.holds(s[0]),
    ensures
        drop_trailing(s, CharClass::White).len() > 0,
    decreases s.len(),
{
    if CharClass::White.holds(s.last()) {
        lemma_first_stays(s.drop_last());
    }
}

proof fn lemma_events_prefix(a: Seq<Seq<char>>, b: Seq<Seq<char>>, n: int)
    requires
        0 <= n <= a.len(),
        n <= b.len(),
        forall|i: int| 0 <= i < n ==> a[i] == b[i],
    ensures
        events_of(a, n) == events_of(b, n),
    decreases n,
{
    if n > 0 {
        lemma_events_prefix(a, b, n - 1);
    }
}

// ---------------------------------------------------------------------------
// From events to snapshots
// ---------------------------------------------------------------------------

/// A run of which nothing is known but its id.
pub open spec fn unknown_run(run_id: Seq<char>) -> SnapshotView {
    SnapshotView {
        run_id,
        skill: None,
        version: None,
        agent: None,
        inputs: seq![],
        outputs: seq![],
        status: "unknown"@,
        note: None,
        started_at: None,
        completed_at: None,
        duration_ms: None,
    }
}

pub open spec fn first_of<T>(a: Option<T>, b: Option<T>) -> Option<T> {
    if a is Some {
        a
    } else {
        b
    }
}

pub open spec fn first_nonempty(a: Seq<Seq<char>>, b: Seq<Seq<char>>) -> Seq<Seq<char>> {
    if a.len() > 0 {
        a
    } else {
        b
    }
}

/// A snapshot with one more event. What a run is, is said by the first event that
/// says it; how it ended, by the last `marked` one.
pub open spec fn merged(prior: Option<SnapshotView>, ev: EventView) -> SnapshotView {
    let s = match prior {
        Some(s) => s,
        None => unknown_run(ev.run_id),
    };
    let known = SnapshotView {
        skill: first_of(s.skill, ev.skill),
        version: first_of(s.version, ev.version),
        agent: first_of(s.agent, ev.agent),
        inputs: first_nonempty(s.inputs, ev.inputs),
        outputs: first_nonempty(s.outputs, ev.outputs),
        ..s
    };
    if ev.event == "started"@ {
        SnapshotView {
            started_at: first_of(s.started_at, Some(ev.at)),
            status: if s.status == "unknown"@ {
                "started"@
            } else {
                s.status
            },
            ..known
        }
    } else if ev.event == "marked"@ {
        SnapshotView {
            status: match ev.status {
                Some(st) => st,
                None => s.status,
            },
            completed_at: Some(ev.at),
            note: first_of(ev.note, s.note),
            ..known
        }
    } else {
        known
    }
}

/// A snapshot with one more event.
pub fn merge_event(prior: Option<RunSnapshot>, ev: RunEvent) -> (r: RunSnapshot)
    ensures
        r@ == merged(opt_snapshot_view(prior), ev@),
{
    let ghost before = opt_snapshot_view(prior);
    let ghost e = ev@;
    let mut s = match prior {
        Some(s) => s,
        None => {
            let s = RunSnapshot {
                run_id: ev.run_id.clone(),
                skill: None,
                version: None,
                agent: None,
                inputs: Vec::new(),
                outputs: Vec::new(),
                status: "unknown".to_owned(),
                note: None,
                started_at: None,
                completed_at: None,
                duration_ms: None,
            };
            assert(s@ =~= unknown_run(e.run_id));
            s
        },
    };
    if s.skill.is_none() {
        s.skill = ev.skill;
    }
    if s.version.is_none() {
        s.version = ev.version;
    }
    if s.agent.is_none() {
        s.agent = ev.agent;
    }
    if s.inputs.len() == 0 {
        s.inputs = ev.inputs;
    }
    if s.outputs.len() == 0 {
        s.outputs = ev.outputs;
    }
    if same(ev.event.as_str(), "started") {
        if s.started_at.is_none() {
            s.started_at = Some(ev.at);
        }
        if same(s.status.as_str(), "unknown") {
            s.status = "started".to_owned();
        }
    } else if same(ev.event.as_str(), "marked") {
        if let Some(st) = ev.status {
            s.status = st;
        }
        s.completed_at = Some(ev.at);
        if ev.note.is_some() {
            s.note = ev.note;
        }
    }
    assert(s@ =~= merged(before, e));
    s
}

/// A snapshot with its duration, where its start and its end are known.
pub open spec fn finalized(s: SnapshotView) -> SnapshotView {
    if s.duration_ms is Some || s.started_at is None || s.completed_at is None {
        s
    } else {
        SnapshotView { duration_ms: millis_between(s.started_at->0, s.completed_at->0), ..s }
    }
}

/// A snapshot with its duration, where its start and its end are known.
pub fn finalize_duration(s: RunSnapshot) -> (r: RunSnapshot)
    ensures
        r@ == finalized(s@),
{
    let ghost before = s@;
    let mut s = s;
    if s.duration_ms.is_none() {
        if let Some(start) = s.started_at {
            if let Some(end) = s.completed_at {
                s.duration_ms = elapsed_millis(&start, &end);
            }
        }
    }
    assert(s@ =~= finalized(before));
    s
}

/// What a run is, once said, stays said.
pub proof fn law_merge_keeps_identity(s: SnapshotView, ev: EventView)
    ensures
        merged(Some(s), ev).run_id == s.run_id,
        s.skill is Some ==> merged(Some(s), ev).skill == s.skill,
        s.version is Some ==> merged(Some(s), ev).version == s.version,
        s.agent is Some ==> merged(Some(s), ev).agent == s.agent,
        s.inputs.len() > 0 ==> merged(Some(s), ev).inputs == s.inputs,
        s.outputs.len() > 0 ==> merged(Some(s), ev).outputs == s.outputs,
        s.started_at is Some ==> merged(Some(s), ev).started_at == s.started_at,
{
}

/// A `marked` event that has a status decides it, whatever came before.
pub proof fn law_mark_is_authoritative(prior: Option<SnapshotView>, ev: EventView)
    requires
        ev.event == "marked"@,
        ev.status is Some,
    ensures
        merged(prior, ev).status == ev.status->0,
        merged(prior, ev).completed_at == Some(ev.at),
{
    reveal_strlit("started");
    reveal_strlit("marked");
    assert("started"@.len() != "marked"@.len());
}

/// A `marked` event that is read before its `started` event gives the same
/// snapshot as one that is read behind it.
pub proof fn law_mark_may_come_first(start: EventView, mark: EventView)
    requires
        start.event == "started"@,
        mark.event == "marked"@,
        mark.run_id == start.run_id,
        mark.skill == start.skill,
        mark.version == start.version,
        mark.agent == start.agent,
        mark.inputs == start.inputs,
        start.outputs.len() == 0,
        mark.status is Some,
        mark.status->0 != "unknown"@,
    ensures
        merged(Some(merged(None, start)), mark) == merged(Some(merged(None, mark)), start),
{
    reveal_strlit("started");
    reveal_strlit("marked");
    assert("started"@.len() != "marked"@.len());
    let a = merged(Some(merged(None, start)), mark);
    let b = merged(Some(merged(None, mark)), start);
    assert(start.outputs =~= seq![]);
    assert(a.inputs =~= b.inputs);
    assert(a.outputs =~= b.outputs);
    assert(a =~= b);
}

/// The event of a line that is not blank and that holds one.
pub open spec fn line_event(line: Seq<char>) -> Option<EventView> {
    if trimmed(line).len() == 0 {
        None
    } else {
        event_in(json_parsed(line))
    }
}

/// The events of the first `n` lines.
pub open spec fn events_of(lines: Seq<Seq<char>>, n: int) -> Seq<EventView>
    decreases n,
{
    if n <= 0 {
        seq![]
    } else {
        match line_event(lines[n - 1]) {
            Some(e) => events_of(lines, n - 1).push(e),
            None => events_of(lines, n - 1),
        }
    }
}

/// A snapshot with those of the first `n` events that are of the run.
pub open spec fn gathered(
    events: Seq<EventView>,
    n: int,
    run_id: Seq<char>,
    prior: Option<SnapshotView>,
) -> Option<SnapshotView>
    decreases n,
{
    if n <= 0 {
        prior
    } else {
        let s = gathered(events, n - 1, run_id, prior);
        if events[n - 1].run_id == run_id {
            Some(merged(s, events[n - 1]))
        } else {
            s
        }
    }
}

/// A snapshot with the events of a day file that are of the run.
pub open spec fn day_gathered(
    lines: Seq<Seq<char>>,
    run_id: Seq<char>,
    prior: Option<SnapshotView>,
) -> Option<SnapshotView> {
    let events = events_of(lines, lines.len() as int);
    gathered(events, events.len() as int, run_id, prior)
}

proof fn lemma_gathered_prefix(
    a: Seq<EventView>,
    b: Seq<EventView>,
    n: int,
    run_id: Seq<char>,
    prior: Option<SnapshotView>,
)
    requires
        0 <= n <= a.len(),
        n <= b.len(),
        forall|i: int| 0 <= i < n ==> a[i] == b[i],
    ensures
        gathered(a, n, run_id, prior) == gathered(b, n, run_id, prior),
    decreases n,
{
    if n > 0 {
        lemma_gathered_prefix(a, b, n - 1, run_id, prior);
    }
}

/// The event of a line that is not blank and that holds one.
pub fn read_line(line: &str) -> (r: Option<RunEvent>)
    ensures
        opt_event_view(r) == line_event(line@),
{
    if trim(line).is_empty() {
        None
    } else {
        parse_event_line(line)
    }
}

/// Adds the events of a day file that are of the run to what is known of it.
pub fn scan_day_file_for_run(
    lines: &Vec<String>,
    run_id: &str,
    prior: Option<RunSnapshot>,
) -> (r: Option<RunSnapshot>)
    ensures
        opt_snapshot_view(r) == day_gathered(views(lines@), run_id@, opt_snapshot_view(prior)),
{
    let ghost all = views(lines@);
    let ghost before = opt_snapshot_view(prior);
    let mut snapshot = prior;
    let mut i: usize = 0;
    while i < lines.len()
        invariant
            i <= lines.len(),
            all == views(lines@),
            opt_snapshot_view(snapshot) == gathered(
                events_of(all, i as int),
                events_of(all, i as int).len() as int,
                run_id@,
                before,
            ),
        decreases lines.len() - i,
    {
        let ghost was = events_of(all, i as int);
        assert(all[i as int] == lines@[i as int]@);
        match read_line(lines[i].as_str()) {
            Some(ev) => {
                let ghost now = events_of(all, i + 1);
                proof {
                    assert(now == was.push(ev@));
                    lemma_gathered_prefix(was, now, was.len() as int, run_id@, before);
                }
                if same(ev.run_id.as_str(), run_id) {
                    snapshot = Some(merge_event(snapshot, ev));
                }
            },
            None => {},
        }
        i += 1;
    }
    snapshot
}

/// The events of the first `n` day files.
pub open spec fn window_events(days: Seq<Vec<String>>, n: int) -> Seq<EventView>
    decreases n,
{
    if n <= 0 {
        seq![]
    } else {
        let lines = views(days[n - 1]@);
        window_events(days, n - 1) + events_of(lines, lines.len() as int)
    }
}

/// What two stretches of events say of a run is what the second adds to the first.
proof fn lemma_gathered_on(
    a: Seq<EventView>,
    b: Seq<EventView>,
    n: int,
    run_id: Seq<char>,
    prior: Option<SnapshotView>,
)
    requires
        0 <= n <= b.len(),
    ensures
        gathered(a + b, a.len() + n, run_id, prior) == gathered(
            b,
            n,
            run_id,
            gathered(a, a.len() as int, run_id, prior),
        ),
    decreases n,
{
    if n > 0 {
        lemma_gathered_on(a, b, n - 1, run_id, prior);
        assert((a + b)[a.len() + n - 1] == b[n - 1]);
    } else {
        lemma_gathered_prefix(a, a + b, a.len() as int, run_id, prior);
    }
}

/// The event marks the run.
pub open spec fn marks(e: EventView, run_id: Seq<char>) -> bool {
    e.run_id == run_id && e.event == "marked"@
}

/// What a mark says of the end of a run.
#[derive(Debug)]
pub struct Ending {
    pub at: Timestamp,
    pub status: Option<String>,
}

/// What a mark says of the end of a run, as a mathematical value.
#[verifier::ext_equal]
pub ghost struct EndingView {
    pub at: Timestamp,
    pub status: Option<Seq<char>>,
}

impl View for Ending {
    type V = EndingView;

    open spec fn view(&self) -> EndingView {
        EndingView { at: self.at, status: opt_view(self.status) }
    }
}

pub open spec fn opt_ending_view(o: Option<Ending>) -> Option<EndingView> {
    match o {
        Some(e) => Some(e@),
        None => None,
    }
}

/// What is known of the end of the run once an event was read too: of two marks the one
/// with the later moment counts, and of two with the same moment the one that is read
/// last.
pub open spec fn ending_after(
    prior: Option<EndingView>,
    e: EventView,
    run_id: Seq<char>,
) -> Option<EndingView> {
    if marks(e, run_id) && (prior is None || not_later(prior->0.at, e.at)) {
        Some(EndingView { at: e.at, status: e.status })
    } else {
        prior
    }
}

/// What is known of the end of the run once an event was read too.
pub fn note_ending(prior: Option<Ending>, e: &RunEvent, run_id: &str) -> (r: Option<Ending>)
    ensures
        opt_ending_view(r) == ending_after(opt_ending_view(prior), e@, run_id@),
{
    let later = match &prior {
        Some(m) => is_not_later(&m.at, &e.at),
        None => true,
    };
    if later && same(e.run_id.as_str(), run_id) && same(e.event.as_str(), "marked") {
        Some(Ending { at: e.at, status: clone_opt(&e.status) })
    } else {
        prior
    }
}

/// What the latest mark of the run says of its end: the given one, or one among the first
/// `n` events.
pub open spec fn latest_mark(
    events: Seq<EventView>,
    n: int,
    run_id: Seq<char>,
    prior: Option<EndingView>,
) -> Option<EndingView>
    decreases n,
{
    if n <= 0 {
        prior
    } else {
        ending_after(latest_mark(events, n - 1, run_id, prior), events[n - 1], run_id)
    }
}

pub proof fn lemma_latest_prefix(
    a: Seq<EventView>,
    b: Seq<EventView>,
    n: int,
    run_id: Seq<char>,
    prior: Option<EndingView>,
)
    requires
        0 <= n <= a.len(),
        n <= b.len(),
        forall|i: int| 0 <= i < n ==> a[i] == b[i],
    ensures
        latest_mark(a, n, run_id, prior) == latest_mark(b, n, run_id, prior),
    decreases n,
{
    if n > 0 {
        lemma_latest_prefix(a, b, n - 1, run_id, prior);
    }
}

proof fn lemma_latest_on(
    a: Seq<EventView>,
    b: Seq<EventView>,
    n: int,
    run_id: Seq<char>,
    prior: Option<EndingView>,
)
    requires
        0 <= n <= b.len(),
    ensures
        latest_mark(a + b, a.len() + n, run_id, prior) == latest_mark(
            b,
            n,
            run_id,
            latest_mark(a, a.len() as int, run_id, prior),
        ),
    decreases n,
{
    if n > 0 {
        lemma_latest_on(a, b, n - 1, run_id, prior);
        assert((a + b)[a.len() + n - 1] == b[n - 1]);
    } else {
        lemma_latest_prefix(a, a + b, a.len() as int, run_id, prior);
    }
}

/// The latest mark of the run, once a day file was read too.
fn scan_day_file_for_mark(
    lines: &Vec<String>,
    run_id: &str,
    prior: Option<Ending>,
) -> (r: Option<Ending>)
    ensures
        ({
            let events = events_of(views(lines@), lines@.len() as int);
            opt_ending_view(r) == latest_mark(
                events,
                events.len() as int,
                run_id@,
                opt_ending_view(prior),
            )
        }),
{
    let ghost all = views(lines@);
    let ghost before = opt_ending_view(prior);
    let mut found = prior;
    let mut i: usize = 0;
    while i < lines.len()
        invariant
            i <= lines.len(),
            all == views(lines@),
            opt_ending_view(found) == latest_mark(
                events_of(all, i as int),
                events_of(all, i as int).len() as int,
                run_id@,
                before,
            ),
        decreases lines.len() - i,
    {
        let ghost was = events_of(all, i as int);
        assert(all[i as int] == lines@[i as int]@);
        match read_line(lines[i].as_str()) {
            Some(ev) => {
                let ghost now = events_of(all, i + 1);
                proof {
                    assert(now == was.push(ev@));
                    lemma_latest_prefix(was, now, was.len() as int, run_id@, before);
                }
                found = note_ending(found, &ev, run_id);
            },
            None => {},
        }
        i += 1;
    }
    found
}

/// A run as its latest mark leaves it. What a run is does not change with that, nor what
/// was noted of it.
pub open spec fn settled(s: SnapshotView, ending: Option<EndingView>) -> SnapshotView {
    match ending {
        Some(m) => SnapshotView {
            status: match m.status {
                Some(st) => st,
                None => s.status,
            },
            completed_at: Some(m.at),
            ..s
        },
        None => s,
    }
}

/// A run as its latest mark leaves it.
pub fn settle(s: RunSnapshot, ending: &Option<Ending>) -> (r: RunSnapshot)
    ensures
        r@ == settled(s@, opt_ending_view(*ending)),
{
    let ghost before = s@;
    let mut s = s;
    if let Some(e) = ending {
        if let Some(st) = &e.status {
            s.status = st.clone();
        }
        s.completed_at = Some(e.at);
    }
    assert(s@ =~= settled(before, opt_ending_view(*ending)));
    s
}

/// The latest state of a run, by its events.
pub open spec fn run_in(events: Seq<EventView>, run_id: Seq<char>) -> Option<SnapshotView> {
    let n = events.len() as int;
    match gathered(events, n, run_id, None) {
        Some(s) => Some(finalized(settled(s, latest_mark(events, n, run_id, None)))),
        None => None,
    }
}

/// The run in day files: in the recent ones, which stand with the newest first, if it is
/// there at all; else in the older ones.
pub open spec fn run_found(
    recent: Seq<Vec<String>>,
    older: Seq<Vec<String>>,
    run_id: Seq<char>,
) -> Option<SnapshotView> {
    let near = run_in(window_events(recent.reverse(), recent.len() as int), run_id);
    if near is Some {
        near
    } else {
        run_in(window_events(older, older.len() as int), run_id)
    }
}

/// The latest state of a run in day files, from the last file to the first or the other
/// way round.
fn scan_days(days: &Vec<Vec<String>>, newest_first: bool, run_id: &str) -> (r: Option<RunSnapshot>)
    ensures
        ({
            let order = if newest_first {
                days@.reverse()
            } else {
                days@
            };
            opt_snapshot_view(r) == run_in(window_events(order, days@.len() as int), run_id@)
        }),
{
    let ghost order = if newest_first {
        days@.reverse()
    } else {
        days@
    };
    let n: usize = days.len();
    let mut snapshot: Option<RunSnapshot> = None;
    let mut mark: Option<Ending> = None;
    let mut i: usize = 0;
    while i < n
        invariant
            i <= n,
            n == days@.len(),
            order == (if newest_first {
                days@.reverse()
            } else {
                days@
            }),
            ({
                let events = window_events(order, i as int);
                opt_snapshot_view(snapshot) == gathered(events, events.len() as int, run_id@, None)
            }),
            ({
                let events = window_events(order, i as int);
                opt_ending_view(mark) == latest_mark(events, events.len() as int, run_id@, None)
            }),
        decreases n - i,
    {
        let k: usize = if newest_first {
            n - 1 - i
        } else {
            i
        };
        assert(order[i as int] == days@[k as int]);
        proof {
            let a = window_events(order, i as int);
            let b = events_of(views(days@[k as int]@), days@[k as int]@.len() as int);
            lemma_gathered_on(a, b, b.len() as int, run_id@, None);
            lemma_latest_on(a, b, b.len() as int, run_id@, None);
        }
        snapshot = scan_day_file_for_run(&days[k], run_id, snapshot);
        mark = scan_day_file_for_mark(&days[k], run_id, mark);
        i += 1;
    }
    match snapshot {
        Some(s) => Some(finalize_duration(settle(s, &mark))),
        None => None,
    }
}

/// The latest state of the run with the id: from the lines of the recent day files, the
/// newest first, and only where they say nothing of it from those of the older ones. How
/// it ended is what its latest mark says.
pub fn find_run(recent: &Vec<Vec<String>>, older: &Vec<Vec<String>>, run_id: &str) -> (r: Option<
    RunSnapshot,
>)
    ensures
        opt_snapshot_view(r) == run_found(recent@, older@, run_id@),
{
    let near = scan_days(recent, true, run_id);
    if near.is_some() {
        near
    } else {
        scan_days(older, false, run_id)
    }
}

/// How a run ended is what its latest mark says, in whatever order the events stand: a
/// mark of the run that no other mark of it is as late as decides.
pub proof fn law_latest_mark_decides(events: Seq<EventView>, run_id: Seq<char>, k: int)
    requires
        0 <= k < events.len(),
        marks(events[k], run_id),
        forall|i: int|
            0 <= i < events.len() && i != k && marks(#[trigger] events[i], run_id) ==> !not_later(
                events[k].at,
                events[i].at,
            ),
    ensures
        run_in(events, run_id) matches Some(s) && {
            &&& s.completed_at == Some(events[k].at)
            &&& events[k].status matches Some(st) ==> s.status == st
        },
{
    lemma_gathered_some(events, events.len() as int, run_id, k);
    lemma_latest_is(events, events.len() as int, run_id, k);
}

proof fn lemma_gathered_some(events: Seq<EventView>, n: int, run_id: Seq<char>, k: int)
    requires
        0 <= k < n <= events.len(),
        events[k].run_id == run_id,
    ensures
        gathered(events, n, run_id, None) is Some,
    decreases n,
{
    if k < n - 1 {
        lemma_gathered_some(events, n - 1, run_id, k);
    }
}

proof fn lemma_latest_is(events: Seq<EventView>, n: int, run_id: Seq<char>, k: int)
    requires
        0 <= n <= events.len(),
        0 <= k < events.len(),
        marks(events[k], run_id),
        forall|i: int|
            0 <= i < events.len() && i != k && marks(#[trigger] events[i], run_id) ==> !not_later(
                events[k].at,
                events[i].at,
            ),
    ensures
        k < n ==> latest_mark(events, n, run_id, None) == Some(
            EndingView { at: events[k].at, status: events[k].status },
        ),
        k >= n ==> (latest_mark(events, n, run_id, None) matches Some(m) ==> !not_later(
            events[k].at,
            m.at,
        )),
    decreases n,
{
    if n > 0 {
        lemma_latest_is(events, n - 1, run_id, k);
    }
}

/// A run of which the recent day files know is found without the older ones.
pub proof fn law_recent_days_suffice(
    recent: Seq<Vec<String>>,
    older: Seq<Vec<String>>,
    run_id: Seq<char>,
)
    requires
        run_found(recent, seq![], run_id) is Some,
    ensures
        run_found(recent, older, run_id) == run_found(recent, seq![], run_id),
{
}

/// The days of the recent files, the newest first.
pub fn recent_days(today: i64) -> (r: Vec<i64>)
    requires
        crate::time::in_calendar(today as int),
    ensures
        r@ == Seq::new(31, |i: int| (today - i) as i64),
{
    let mut r: Vec<i64> = Vec::new();
    let mut i: i64 = 0;
    while i <= DEFAULT_LOOKBACK_DAYS
        invariant
            0 <= i <= 31,
            crate::time::in_calendar(today as int),
            r@ == Seq::new(i as nat, |j: int| (today - j) as i64),
        decreases 31 - i,
    {
        r.push(today - i);
        i += 1;
        assert(r@ =~= Seq::new(i as nat, |j: int| (today - j) as i64));
    }
    r
}

/// The days of a window, in order.
pub fn window_days(since: i64, until: i64) -> (r: Vec<i64>)
    requires
        crate::time::in_calendar(since as int),
        crate::time::in_calendar(until as int),
    ensures
        r@ == Seq::new(
            if since <= until { (until - since + 1) as nat } else { 0 },
            |i: int| (since + i) as i64,
        ),
{
    let mut r: Vec<i64> = Vec::new();
    let mut day: i64 = since;
    while day <= until
        invariant
            since <= day,
            day <= until + 1 || day == since,
            crate::time::in_calendar(since as int),
            crate::time::in_calendar(until as int),
            r@ == Seq::new((day - since) as nat, |i: int| (since + i) as i64),
        decreases until - day + 1,
    {
        r.push(day);
        day += 1;
        assert(r@ =~= Seq::new((day - since) as nat, |i: int| (since + i) as i64));
    }
    r
}

// ---------------------------------------------------------------------------
// New events
// ---------------------------------------------------------------------------

/// The event of a run that starts.
pub open spec fn started_view(
    run_id: Seq<char>,
    slug: Seq<char>,
    version: Seq<char>,
    agent: Option<Seq<char>>,
    inputs: Seq<Seq<char>>,
    now: Timestamp,
) -> EventView {
    EventView {
        event: "started"@,
        run_id,
        skill: Some(slug),
        version: Some(version),
        agent,
        inputs,
        outputs: seq![],
        status: Some("started"@),
        note: None,
        at: now,
    }
}

/// The event of a run that starts under an id.
pub fn started_event(
    run_id: &str,
    slug: &str,
    version: &str,
    agent: Option<&str>,
    inputs: &Vec<String>,
    now: Timestamp,
) -> (r: RunEvent)
    ensures
        r@ == started_view(run_id@, slug@, version@, opt_str_view(agent), views(inputs@), now),
{
    let r = RunEvent {
        event: "started".to_owned(),
        run_id: run_id.to_owned(),
        skill: Some(slug.to_owned()),
        version: Some(version.to_owned()),
        agent: opt_owned(agent),
        inputs: clone_strings(inputs),
        outputs: Vec::new(),
        status: Some("started".to_owned()),
        note: None,
        at: now,
    };
    assert(r@.outputs =~= seq![]);
    r
}

/// The event of a run that starts, under a fresh id.
pub fn start_run(
    slug: &str,
    version: &str,
    agent: Option<&str>,
    inputs: &Vec<String>,
    now: Timestamp,
) -> (r: RunEvent)
    ensures
        is_id(r@.run_id),
        r@ == started_view(r@.run_id, slug@, version@, opt_str_view(agent), views(inputs@), now),
{
    let id = fresh_id();
    started_event(id.as_str(), slug, version, agent, inputs, now)
}

/// The event of a finished run that a backend is told of.
pub fn append_run(log: &RunLog) -> (r: RunEvent)
    ensures
        r@ == (EventView {
            event: "marked"@,
            run_id: log.run_id@,
            skill: Some(log.skill@),
            version: None,
            agent: Some(log.agent@),
            inputs: seq![],
            outputs: seq![],
            status: Some(status_name(log.status)),
            note: None,
            at: log.started_at,
        }),
{
    let r = RunEvent {
        event: "marked".to_owned(),
        run_id: log.run_id.clone(),
        skill: Some(log.skill.clone()),
        version: None,
        agent: Some(log.agent.clone()),
        inputs: Vec::new(),
        outputs: Vec::new(),
        status: Some(log.status.as_str().to_owned()),
        note: None,
        at: log.started_at,
    };
    assert(r@.outputs =~= seq![]);
    assert(r@.inputs =~= seq![]);
    r
}

/// The event that marks a run.
pub open spec fn mark_event(
    existing: SnapshotView,
    run_id: Seq<char>,
    status: Seq<char>,
    note: Option<Seq<char>>,
    outputs: Seq<Seq<char>>,
    now: Timestamp,
) -> EventView {
    EventView {
        event: "marked"@,
        run_id,
        skill: existing.skill,
        version: existing.version,
        agent: existing.agent,
        inputs: existing.inputs,
        outputs,
        status: Some(status),
        note,
        at: now,
    }
}

/// A run once it is marked.
pub open spec fn marked_snapshot(
    existing: SnapshotView,
    run_id: Seq<char>,
    status: Seq<char>,
    note: Option<Seq<char>>,
    outputs: Seq<Seq<char>>,
    now: Timestamp,
) -> SnapshotView {
    SnapshotView {
        run_id,
        outputs,
        status,
        note,
        completed_at: Some(now),
        duration_ms: match existing.started_at {
            Some(start) => millis_between(start, now),
            None => None,
        },
        ..existing
    }
}

/// A run that has been marked: the event to write, what is added to the day's file for
/// it, and the run as it now is.
pub struct Marked {
    pub event: RunEvent,
    /// Absent where the moment cannot be written.
    pub entry: Option<String>,
    pub snapshot: RunSnapshot,
}

fn clone_opt(o: &Option<String>) -> (r: Option<String>)
    ensures
        opt_view(r) == opt_view(*o),
{
    match o {
        Some(s) => Some(s.clone()),
        None => None,
    }
}

/// Marks the run that was found under the id; without one there is nothing to
/// mark. What a run is carries over into the event, so that its line says all.
pub fn mark_run(
    existing: Option<RunSnapshot>,
    repo: &str,
    run_id: &str,
    status: &str,
    note: Option<&str>,
    outputs: &Vec<String>,
    now: Timestamp,
) -> (r: Result<Marked, String>)
    ensures
        match existing {
            Some(s) => r is Ok && r->Ok_0.event@ == mark_event(
                s@,
                run_id@,
                status@,
                opt_str_view(note),
                views(outputs@),
                now,
            ) && opt_view(r->Ok_0.entry) == entry_of(r->Ok_0.event@) && (r->Ok_0.entry matches Some(
                entry,
            ) ==> adds_one_line(entry@)) && (ordinary(now) ==> r->Ok_0.entry is Some && adds_event(
                r->Ok_0.entry->0@,
                r->Ok_0.event@,
            )) && r->Ok_0.snapshot@ == marked_snapshot(
                s@,
                run_id@,
                status@,
                opt_str_view(note),
                views(outputs@),
                now,
            ),
            None => r is Err && r->Err_0@ == "run "@ + run_id@
                + " not found in any runs/YYYY-MM/ daily file under "@ + repo@,
        },
{
    match existing {
        Some(s) => {
            let event = RunEvent {
                event: "marked".to_owned(),
                run_id: run_id.to_owned(),
                skill: clone_opt(&s.skill),
                version: clone_opt(&s.version),
                agent: clone_opt(&s.agent),
                inputs: clone_strings(&s.inputs),
                outputs: clone_strings(outputs),
                status: Some(status.to_owned()),
                note: opt_owned(note),
                at: now,
            };
            let duration_ms = match s.started_at {
                Some(start) => elapsed_millis(&start, &now),
                None => None,
            };
            let snapshot = RunSnapshot {
                run_id: run_id.to_owned(),
                skill: s.skill,
                version: s.version,
                agent: s.agent,
                inputs: s.inputs,
                outputs: clone_strings(outputs),
                status: status.to_owned(),
                note: opt_owned(note),
                started_at: s.started_at,
                completed_at: Some(now),
                duration_ms,
            };
            let entry = day_entry(&event);
            Ok(Marked { event, entry, snapshot })
        },
        None => {
            let mut message = "run ".to_owned();
            message.append(run_id);
            message.append(" not found in any runs/YYYY-MM/ daily file under ");
            message.append(repo);
            Err(message)
        },
    }
}

/// A run that was marked, as it is read: a note that was made stays where the mark makes
/// none, and outputs that were named stay.
pub open spec fn marked_as_read(existing: SnapshotView, told: SnapshotView) -> SnapshotView {
    SnapshotView {
        note: first_of(told.note, existing.note),
        outputs: first_nonempty(existing.outputs, told.outputs),
        ..told
    }
}

/// What is told of a run when it is marked is what is read of it afterwards, as often as
/// it is marked and as long as no mark of it comes from the future. Only a note and
/// outputs of an earlier mark may still be there.
pub proof fn law_mark_is_what_is_read(
    events: Seq<EventView>,
    run_id: Seq<char>,
    status: Seq<char>,
    note: Option<Seq<char>>,
    outputs: Seq<Seq<char>>,
    now: Timestamp,
)
    requires
        run_in(events, run_id) is Some,
        forall|i: int|
            0 <= i < events.len() && marks(#[trigger] events[i], run_id) ==> not_later(
                events[i].at,
                now,
            ),
    ensures
        ({
            let existing = run_in(events, run_id)->0;
            let told = marked_snapshot(existing, run_id, status, note, outputs, now);
            let read = run_in(
                events.push(mark_event(existing, run_id, status, note, outputs, now)),
                run_id,
            );
            &&& read == Some(marked_as_read(existing, told))
            &&& (existing.note is None || note is Some) && existing.outputs.len() == 0
                ==> read == Some(told)
        }),
{
    reveal_strlit("started");
    reveal_strlit("marked");
    assert("started"@.len() != "marked"@.len());
    let n = events.len() as int;
    let existing = run_in(events, run_id)->0;
    let ev = mark_event(existing, run_id, status, note, outputs, now);
    let all = events.push(ev);
    let ending = EndingView { at: now, status: Some(status) };
    lemma_gathered_prefix(events, all, n, run_id, None);
    lemma_latest_prefix(events, all, n, run_id, None);
    lemma_latest_is_one(events, n, run_id);
    lemma_gathered_of_run(events, n, run_id);
    assert(all[n] == ev);
    assert(latest_mark(all, n + 1, run_id, None) == Some(ending));
    let g = gathered(events, n, run_id, None)->0;
    let s = merged(Some(g), ev);
    let told = marked_snapshot(existing, run_id, status, note, outputs, now);
    assert(s.inputs =~= g.inputs);
    assert(run_in(all, run_id) == Some(finalized(settled(s, Some(ending)))));
    assert(finalized(settled(s, Some(ending))) =~= marked_as_read(existing, told));
    if (existing.note is None || note is Some) && existing.outputs.len() == 0 {
        assert(marked_as_read(existing, told).outputs =~= outputs);
        assert(marked_as_read(existing, told) =~= told);
    }
}

/// A run that the recent day files know is found as it was marked, once the line of the
/// mark is added to today's file, which is the newest.
pub proof fn law_marked_run_is_found(
    recent: Seq<Vec<String>>,
    older: Seq<Vec<String>>,
    today: Vec<String>,
    line: Seq<char>,
    run_id: Seq<char>,
    status: Seq<char>,
    note: Option<Seq<char>>,
    outputs: Seq<Seq<char>>,
    now: Timestamp,
)
    requires
        recent.len() > 0,
        run_in(window_events(recent.reverse(), recent.len() as int), run_id) is Some,
        forall|i: int|
            0 <= i < window_events(recent.reverse(), recent.len() as int).len() && marks(
                #[trigger] window_events(recent.reverse(), recent.len() as int)[i],
                run_id,
            ) ==> not_later(
                window_events(recent.reverse(), recent.len() as int)[i].at,
                now,
            ),
        views(today@) == views(recent[0]@).push(line),
        line_event(line) == Some(
            mark_event(
                run_found(recent, older, run_id)->0,
                run_id,
                status,
                note,
                outputs,
                now,
            ),
        ),
    ensures
        ({
            let existing = run_found(recent, older, run_id)->0;
            let told = marked_snapshot(existing, run_id, status, note, outputs, now);
            let read = run_found(recent.update(0, today), older, run_id);
            &&& read == Some(marked_as_read(existing, told))
            &&& (existing.note is None || note is Some) && existing.outputs.len() == 0
                ==> read == Some(told)
        }),
{
    let n = recent.len() as int;
    let was = recent.reverse();
    let next = recent.update(0, today).reverse();
    let events = window_events(was, n);
    let existing = run_found(recent, older, run_id)->0;
    let ev = mark_event(existing, run_id, status, note, outputs, now);
    assert forall|i: int| 0 <= i < n - 1 implies was[i] == next[i] by {
        assert(was[i] == recent[n - 1 - i]);
        assert(next[i] == recent.update(0, today)[n - 1 - i]);
    }
    lemma_window_prefix(was, next, n - 1);
    assert(was[n - 1] == recent[0]);
    assert(next[n - 1] == today);
    let old_lines = views(recent[0]@);
    let new_lines = views(today@);
    let k = old_lines.len() as int;
    lemma_events_prefix(old_lines, new_lines, k);
    assert(new_lines[k] == line);
    assert(events_of(new_lines, k + 1) == events_of(old_lines, k).push(ev));
    assert(window_events(next, n) =~= events.push(ev));
    law_mark_is_what_is_read(events, run_id, status, note, outputs, now);
}

proof fn lemma_window_prefix(a: Seq<Vec<String>>, b: Seq<Vec<String>>, n: int)
    requires
        0 <= n <= a.len(),
        n <= b.len(),
        forall|i: int| 0 <= i < n ==> a[i] == b[i],
    ensures
        window_events(a, n) == window_events(b, n),
    decreases n,
{
    if n > 0 {
        lemma_window_prefix(a, b, n - 1);
    }
}

proof fn lemma_latest_is_one(events: Seq<EventView>, n: int, run_id: Seq<char>)
    requires
        0 <= n <= events.len(),
    ensures
        latest_mark(events, n, run_id, None) matches Some(m) ==> exists|i: int|
            0 <= i < n && marks(#[trigger] events[i], run_id) && events[i].at == m.at,
    decreases n,
{
    if n > 0 {
        lemma_latest_is_one(events, n - 1, run_id);
        let was = latest_mark(events, n - 1, run_id, None);
        if latest_mark(events, n, run_id, None) == was && was is Some {
            let i = choose|i: int|
                0 <= i < n - 1 && marks(#[trigger] events[i], run_id) && events[i].at == was->0.at;
            assert(marks(events[i], run_id));
        } else if latest_mark(events, n, run_id, None) is Some {
            assert(marks(events[n - 1], run_id));
        }
    }
}

proof fn lemma_gathered_of_run(events: Seq<EventView>, n: int, run_id: Seq<char>)
    requires
        0 <= n <= events.len(),
    ensures
        gathered(events, n, run_id, None) matches Some(s) ==> s.run_id == run_id && s.duration_ms
            is None,
    decreases n,
{
    if n > 0 {
        lemma_gathered_of_run(events, n - 1, run_id);
    }
}

// ---------------------------------------------------------------------------
// Day files
// ---------------------------------------------------------------------------

/// The path of a day's file within the repository.
pub open spec fn day_path(year: int, month: int, day: int) -> Seq<char> {
    "runs/"@ + zero_padded(year, 4) + "-"@ + zero_padded(month, 2) + "/"@ + zero_padded(year, 4)
        + "-"@ + zero_padded(month, 2) + "-"@ + zero_padded(day, 2) + ".jsonl"@
}

/// The path of a day's file within the repository.
pub fn day_file(year: i32, month: u32, day: u32) -> (r: String)
    ensures
        r@ == day_path(year as int, month as int, day as int),
{
    let y = zero_pad(year as i64, 4);
    let m = zero_pad(month as i64, 2);
    let d = zero_pad(day as i64, 2);
    let mut r = "runs/".to_owned();
    r.append(y.as_str());
    r.append("-");
    r.append(m.as_str());
    r.append("/");
    r.append(y.as_str());
    r.append("-");
    r.append(m.as_str());
    r.append("-");
    r.append(d.as_str());
    r.append(".jsonl");
    r
}

/// The path of the file of a day of the calendar, within the repository.
pub fn file_of_day(day: i64) -> (r: Option<String>)
    ensures
        opt_view(r) == (match calendar_date(day as int) {
            Some(d) => Some(day_path(d.0 as int, d.1 as int, d.2 as int)),
            None => None,
        }),
        crate::time::in_calendar(day as int) ==> r is Some,
{
    match date_parts(day) {
        Some((y, m, d)) => Some(day_file(y, m, d)),
        None => None,
    }
}

// ---------------------------------------------------------------------------
// Committing and pushing an event
// ---------------------------------------------------------------------------

/// How a call of git went.
#[derive(Debug)]
pub enum GitOutcome {
    Succeeded,
    Failed { stdout: String, stderr: String },
    /// It could not be started.
    NotRun(String),
}

/// What to do after a call of git: go on, or stop, with a warning if there is
/// something to warn of. A failure never undoes the line that is already written.
#[derive(Debug)]
pub enum AfterGit {
    Continue,
    Stop(Option<String>),
}

pub open spec fn stops_with(a: AfterGit, warning: Option<Seq<char>>) -> bool {
    a matches AfterGit::Stop(w) && opt_view(w) == warning
}

/// The message of the commit of an event.
pub fn commit_message(event: &str, skill: &str, run_id: &str) -> (r: String)
    ensures
        r@ == "telemetry: "@ + event@ + " "@ + skill@ + " "@ + run_id@,
{
    let mut r = "telemetry: ".to_owned();
    r.append(event);
    r.append(" ");
    r.append(skill);
    r.append(" ");
    r.append(run_id);
    r
}

/// What to do once the day's file, and nothing else, has been staged.
pub fn after_add(rel: &str, outcome: &GitOutcome) -> (r: AfterGit)
    ensures
        match *outcome {
            GitOutcome::Succeeded => r is Continue,
            GitOutcome::Failed { stdout, stderr } => stops_with(
                r,
                Some(
                    "knack: telemetry recorded locally but `git add "@ + rel@ + "` failed: "@ + trimmed(
                        stderr@,
                    ),
                ),
            ),
            GitOutcome::NotRun(e) => stops_with(
                r,
                Some("knack: telemetry recorded locally but couldn't invoke `git add`: "@ + e@),
            ),
        },
{
    match outcome {
        GitOutcome::Succeeded => AfterGit::Continue,
        GitOutcome::Failed { stdout: _, stderr } => {
            let mut w = "knack: telemetry recorded locally but `git add ".to_owned();
            w.append(rel);
            w.append("` failed: ");
            w.append(trim(stderr.as_str()));
            AfterGit::Stop(Some(w))
        },
        GitOutcome::NotRun(e) => AfterGit::Stop(
            Some(
                prefixed(
                    "knack: telemetry recorded locally but couldn't invoke `git add`: ",
                    e.as_str(),
                ),
            ),
        ),
    }
}

/// git says that there was nothing new to commit.
pub open spec fn nothing_new(stdout: Seq<char>, stderr: Seq<char>) -> bool {
    find_first(stdout + stderr, "nothing to commit"@) is Some || find_first(
        stdout + stderr,
        "nothing added"@,
    ) is Some
}

/// The environment switches pushing off.
pub open spec fn push_disabled(env: Option<Seq<char>>) -> bool {
    env == Some("0"@) || env == Some("false"@) || env == Some("no"@)
}

/// Whether the environment switches pushing off.
pub fn is_push_disabled(env: Option<&str>) -> (r: bool)
    ensures
        r == push_disabled(opt_str_view(env)),
{
    match env {
        Some(v) => same(v, "0") || same(v, "false") || same(v, "no"),
        None => false,
    }
}

/// What to do once the event has been committed: push, unless the caller or the
/// environment says not to.
pub fn after_commit(outcome: &GitOutcome, push: bool, env: Option<&str>) -> (r: AfterGit)
    ensures
        match *outcome {
            GitOutcome::Succeeded => if push && !push_disabled(opt_str_view(env)) {
                r is Continue
            } else {
                stops_with(r, None)
            },
            GitOutcome::Failed { stdout, stderr } => if nothing_new(stdout@, stderr@) {
                stops_with(r, None)
            } else {
                stops_with(
                    r,
                    Some(
                        "knack: telemetry recorded locally but `git commit` failed: "@ + trimmed(
                            stderr@,
                        ),
                    ),
                )
            },
            GitOutcome::NotRun(e) => stops_with(
                r,
                Some("knack: telemetry recorded locally but couldn't invoke `git commit`: "@ + e@),
            ),
        },
{
    match outcome {
        GitOutcome::Succeeded => if push && !is_push_disabled(env) {
            AfterGit::Continue
        } else {
            AfterGit::Stop(None)
        },
        GitOutcome::Failed { stdout, stderr } => {
            let mut combined = stdout.clone();
            combined.append(stderr.as_str());
            if contains(combined.as_str(), "nothing to commit") || contains(
                combined.as_str(),
                "nothing added",
            ) {
                AfterGit::Stop(None)
            } else {
                AfterGit::Stop(
                    Some(
                        prefixed(
                            "knack: telemetry recorded locally but `git commit` failed: ",
                            trim(stderr.as_str()),
                        ),
                    ),
                )
            }
        },
        GitOutcome::NotRun(e) => AfterGit::Stop(
            Some(
                prefixed(
                    "knack: telemetry recorded locally but couldn't invoke `git commit`: ",
                    e.as_str(),
                ),
            ),
        ),
    }
}

/// The warning for a push that failed.
pub open spec fn push_warning(
    remote: Seq<char>,
    branch: Seq<char>,
    repo: Seq<char>,
    stderr: Seq<char>,
) -> Seq<char> {
    "knack: telemetry committed locally but `git push "@ + remote + " "@ + branch + "` failed: "@
        + trimmed(stderr) + "\n      run `git -C "@ + repo + " push "@ + remote + " "@ + branch
        + "` once you're back online (or rebase if there's a divergence)."@
}

/// What to do once the commit has been pushed: nothing but to warn where it failed.
pub fn after_push(remote: &str, branch: &str, repo: &str, outcome: &GitOutcome) -> (r: AfterGit)
    ensures
        match *outcome {
            GitOutcome::Succeeded => stops_with(r, None),
            GitOutcome::Failed { stdout, stderr } => stops_with(
                r,
                Some(push_warning(remote@, branch@, repo@, stderr@)),
            ),
            GitOutcome::NotRun(e) => stops_with(
                r,
                Some("knack: telemetry committed locally but couldn't invoke `git push`: "@ + e@),
            ),
        },
{
    match outcome {
        GitOutcome::Succeeded => AfterGit::Stop(None),
        GitOutcome::Failed { stdout: _, stderr } => {
            let mut w = "knack: telemetry committed locally but `git push ".to_owned();
            w.append(remote);
            w.append(" ");
            w.append(branch);
            w.append("` failed: ");
            w.append(trim(stderr.as_str()));
            w.append("\n      run `git -C ");
            w.append(repo);
            w.append(" push ");
            w.append(remote);
            w.append(" ");
            w.append(branch);
            w.append("` once you're back online (or rebase if there's a divergence).");
            AfterGit::Stop(Some(w))
        },
        GitOutcome::NotRun(e) => AfterGit::Stop(
            Some(
                prefixed(
                    "knack: telemetry committed locally but couldn't invoke `git push`: ",
                    e.as_str(),
                ),
            ),
        ),
    }
}

/// What is known while an event is committed and pushed. What was not tried yet is not
/// there.
#[derive(Debug)]
pub struct CommitFacts {
    pub added: Option<GitOutcome>,
    pub committed: Option<GitOutcome>,
    pub pushed: Option<GitOutcome>,
}

/// What is done next for an event that is written already.
#[derive(Debug)]
pub enum CommitStep {
    /// Stage the file at the path, and nothing else.
    Add(String),
    /// Commit with the message.
    Commit(String),
    Push,
    /// It is over, with a warning if there is something to warn of.
    Finish(Option<String>),
}

/// What is done next, as a mathematical value.
pub ghost enum CommitView {
    Add(Seq<char>),
    Commit(Seq<char>),
    Push,
    Finish(Option<Seq<char>>),
}

impl View for CommitStep {
    type V = CommitView;

    open spec fn view(&self) -> CommitView {
        match *self {
            CommitStep::Add(rel) => CommitView::Add(rel@),
            CommitStep::Commit(m) => CommitView::Commit(m@),
            CommitStep::Push => CommitView::Push,
            CommitStep::Finish(w) => CommitView::Finish(opt_view(w)),
        }
    }
}

/// The event of a run that is committed and pushed.
#[derive(Debug)]
pub struct CommittedEvent {
    pub repo: String,
    pub jsonl_path: String,
    /// The path of the file below the repository, if it is there.
    pub rel: Option<String>,
    pub skill: String,
    pub event: String,
    pub run_id: String,
    pub remote: String,
    pub branch: String,
}

/// What the commit of an event calls it: a mark by its status, too.
pub open spec fn commit_label(e: EventView) -> Seq<char> {
    match e.status {
        Some(st) if e.event == "marked"@ => "marked-"@ + st,
        _ => e.event,
    }
}

/// What the commit of an event calls its skill.
pub open spec fn commit_skill(e: EventView) -> Seq<char> {
    match e.skill {
        Some(s) => s,
        None => "unknown"@,
    }
}

/// The commit of an event that was written to the day file at `rel` below the repository.
pub fn commit_of(
    e: &RunEvent,
    repo: &str,
    jsonl_path: &str,
    rel: Option<&str>,
    target: &RemoteTarget,
) -> (r: CommittedEvent)
    ensures
        r.event@ == commit_label(e@),
        r.skill@ == commit_skill(e@),
        r.run_id@ == e@.run_id,
        r.repo@ == repo@,
        r.jsonl_path@ == jsonl_path@,
        opt_view(r.rel) == opt_str_view(rel),
        r.remote@ == target.remote@,
        r.branch@ == target.branch@,
{
    let event = match &e.status {
        Some(st) => if same(e.event.as_str(), "marked") {
            prefixed("marked-", st.as_str())
        } else {
            e.event.clone()
        },
        None => e.event.clone(),
    };
    let skill = match &e.skill {
        Some(s) => s.clone(),
        None => "unknown".to_owned(),
    };
    CommittedEvent {
        repo: repo.to_owned(),
        jsonl_path: jsonl_path.to_owned(),
        rel: opt_owned(rel),
        skill,
        event,
        run_id: e.run_id.clone(),
        remote: target.remote.clone(),
        branch: target.branch.clone(),
    }
}

/// A run that starts is committed as `started`, and one that is marked by its new
/// status, under its skill where that is known.
pub proof fn law_commits_name_what_happened(
    existing: SnapshotView,
    run_id: Seq<char>,
    slug: Seq<char>,
    version: Seq<char>,
    agent: Option<Seq<char>>,
    inputs: Seq<Seq<char>>,
    status: Seq<char>,
    note: Option<Seq<char>>,
    outputs: Seq<Seq<char>>,
    now: Timestamp,
)
    ensures
        ({
            let start = started_view(run_id, slug, version, agent, inputs, now);
            let mark = mark_event(existing, run_id, status, note, outputs, now);
            &&& commit_label(start) == "started"@
            &&& commit_skill(start) == slug
            &&& commit_label(mark) == "marked-"@ + status
            &&& commit_skill(mark) == (match existing.skill {
                Some(s) => s,
                None => "unknown"@,
            })
        }),
{
    reveal_strlit("started");
    reveal_strlit("marked");
    assert("started"@.len() != "marked"@.len());
}

/// What is done next, by what is known: the file is staged, committed, and pushed
/// unless the caller or the environment says not to.
pub open spec fn commit_next(
    e: CommittedEvent,
    push: bool,
    env: Option<Seq<char>>,
    f: CommitFacts,
) -> CommitView {
    match opt_view(e.rel) {
        None => CommitView::Finish(
            Some(
                "knack: telemetry recorded locally but couldn't compute repo-relative path for "@
                    + e.jsonl_path@,
            ),
        ),
        Some(rel) => match f.added {
            None => CommitView::Add(rel),
            Some(GitOutcome::Failed { stdout, stderr }) => CommitView::Finish(
                Some(
                    "knack: telemetry recorded locally but `git add "@ + rel + "` failed: "@
                        + trimmed(stderr@),
                ),
            ),
            Some(GitOutcome::NotRun(e)) => CommitView::Finish(
                Some("knack: telemetry recorded locally but couldn't invoke `git add`: "@ + e@),
            ),
            Some(GitOutcome::Succeeded) => match f.committed {
                None => CommitView::Commit(
                    "telemetry: "@ + e.event@ + " "@ + e.skill@ + " "@ + e.run_id@,
                ),
                Some(GitOutcome::Failed { stdout, stderr }) => CommitView::Finish(
                    if nothing_new(stdout@, stderr@) {
                        None
                    } else {
                        Some(
                            "knack: telemetry recorded locally but `git commit` failed: "@
                                + trimmed(stderr@),
                        )
                    },
                ),
                Some(GitOutcome::NotRun(e)) => CommitView::Finish(
                    Some(
                        "knack: telemetry recorded locally but couldn't invoke `git commit`: "@
                            + e@,
                    ),
                ),
                Some(GitOutcome::Succeeded) => if push && !push_disabled(env) {
                    match f.pushed {
                        None => CommitView::Push,
                        Some(GitOutcome::Succeeded) => CommitView::Finish(None),
                        Some(GitOutcome::Failed { stdout, stderr }) => CommitView::Finish(
                            Some(push_warning(e.remote@, e.branch@, e.repo@, stderr@)),
                        ),
                        Some(GitOutcome::NotRun(e)) => CommitView::Finish(
                            Some(
                                "knack: telemetry committed locally but couldn't invoke `git push`: "@
                                    + e@,
                            ),
                        ),
                    }
                } else {
                    CommitView::Finish(None)
                },
            },
        },
    }
}

/// What is done next for an event that is written already.
pub fn commit_and_push_event(
    e: &CommittedEvent,
    push: bool,
    env: Option<&str>,
    f: &CommitFacts,
) -> (r: CommitStep)
    ensures
        r@ == commit_next(*e, push, opt_str_view(env), *f),
{
    let rel = match &e.rel {
        Some(rel) => rel.as_str(),
        None => {
            return CommitStep::Finish(
                Some(
                    prefixed(
                        "knack: telemetry recorded locally but couldn't compute repo-relative path for ",
                        e.jsonl_path.as_str(),
                    ),
                ),
            );
        },
    };
    match &f.added {
        None => {
            return CommitStep::Add(rel.to_owned());
        },
        Some(outcome) => match after_add(rel, outcome) {
            AfterGit::Continue => {},
            AfterGit::Stop(w) => {
                return CommitStep::Finish(w);
            },
        },
    }
    match &f.committed {
        None => {
            return CommitStep::Commit(
                commit_message(e.event.as_str(), e.skill.as_str(), e.run_id.as_str()),
            );
        },
        Some(outcome) => match after_commit(outcome, push, env) {
            AfterGit::Continue => {},
            AfterGit::Stop(w) => {
                return CommitStep::Finish(w);
            },
        },
    }
    match &f.pushed {
        None => CommitStep::Push,
        Some(outcome) => match after_push(
            e.remote.as_str(),
            e.branch.as_str(),
            e.repo.as_str(),
            outcome,
        ) {
            AfterGit::Continue => CommitStep::Finish(None),
            AfterGit::Stop(w) => CommitStep::Finish(w),
        },
    }
}

/// Nothing is pushed that was not committed, or against what the caller or the
/// environment says.
pub proof fn law_pushes_are_wanted(
    e: CommittedEvent,
    push: bool,
    env: Option<Seq<char>>,
    f: CommitFacts,
)
    ensures
        commit_next(e, push, env, f) is Push ==> push && !push_disabled(env) && f.committed
            == Some(GitOutcome::Succeeded),
{
}

} // verus!
