//! `knack feedback`: conversations with the people behind knack.

use vstd::prelude::*;

use crate::errors::{prefixed, user_error, user_error_hint, CliError, ErrorView};
use crate::json::{
    forms, json_list, member_views, no_members, text_or_null, with_member, Json, JsonForm, JsonView,
};
use crate::numbers::{decimal, usize_text, zero_pad, zero_padded};
use crate::output::Told;
use crate::text::{
    concat3, concat4, concat5, concat7, each_prefixed, head, lines, lines_of, opt_str, opt_str_view,
    opt_view, pad_right, padded_right, push_line, push_prefixed, same, take_chars, trim, trimmed,
    views,
};
use crate::time::{
    date_of, date_rendered, day_of, render_date, render_timestamp, second_of_day, time_of_day,
    timestamp_rendered, Timestamp,
};

verus! {

/// What `knack feedback` is asked to do.
#[derive(Debug, Clone)]
pub enum FeedbackCmd {
    Open(OpenArgs),
    List(ListArgs),
    Show(ShowArgs),
    Reply(ReplyArgs),
}

#[derive(Debug, Clone)]
pub struct OpenArgs {
    pub subject: String,
    pub body: String,
    pub run: Option<String>,
    pub skill: Option<String>,
    pub cli_meta: bool,
}

#[derive(Debug, Clone)]
pub struct ListArgs {
    pub status: Option<String>,
}

#[derive(Debug, Clone)]
pub struct ShowArgs {
    pub thread_id: String,
}

#[derive(Debug, Clone)]
pub struct ReplyArgs {
    pub thread_id: String,
    pub body: String,
}

/// The text of a message: what is given, or what was read from the standard input
/// where a dash is given. That must not be blank.
pub fn resolve_body(raw: &str, stdin: Result<&str, String>) -> (r: Result<String, CliError>)
    ensures
        if raw@ != "-"@ {
            r is Ok && r->Ok_0@ == raw@
        } else {
            match stdin {
                Ok(t) => if trimmed(t@).len() == 0 {
                    r is Err && r->Err_0@ == (ErrorView::User {
                        code: "EMPTY_BODY"@,
                        message: "stdin produced an empty body"@,
                        hint: Some("pipe non-empty content or pass --body \"...\""@),
                    })
                } else {
                    r is Ok && r->Ok_0@ == trimmed(t@)
                },
                Err(e) => r is Err && r->Err_0@ == (ErrorView::User {
                    code: "STDIN_READ_FAILED"@,
                    message: "could not read --body from stdin: "@ + e@,
                    hint: None,
                }),
            }
        },
{
    if !same(raw, "-") {
        return Ok(raw.to_owned());
    }
    match stdin {
        Ok(t) => {
            let t = trim(t);
            if t.is_empty() {
                return Err(
                    user_error_hint(
                        "EMPTY_BODY",
                        "stdin produced an empty body".to_owned(),
                        "pipe non-empty content or pass --body \"...\"",
                    ),
                );
            }
            Ok(t.to_owned())
        },
        Err(e) => Err(
            user_error(
                "STDIN_READ_FAILED",
                prefixed("could not read --body from stdin: ", e.as_str()),
            ),
        ),
    }
}

/// What the server is told of this installation.
pub fn cli_meta_blob(version: &str, os: &str, arch: &str) -> (r: Json)
    ensures
        r.value() == JsonView::Object(
            seq![
                ("cli_version"@, JsonView::Text(version@)),
                ("os"@, JsonView::Text(os@)),
                ("arch"@, JsonView::Text(arch@)),
            ],
        ),
{
    let m = with_member(no_members(), "cli_version", Json::text(version));
    let m = with_member(m, "os", Json::text(os));
    let m = with_member(m, "arch", Json::text(arch));
    assert(member_views(m@) =~= seq![
        ("cli_version"@, JsonView::Text(version@)),
        ("os"@, JsonView::Text(os@)),
        ("arch"@, JsonView::Text(arch@)),
    ]);
    Json::object(m)
}

/// The status that the server is asked for: all of them unless it is one of the two.
pub fn status_filter(status: Option<&str>) -> (r: Option<&'static str>)
    ensures
        opt_str_view(r) == (if opt_str_view(status) == Some("open"@) {
            Some("open"@)
        } else if opt_str_view(status) == Some("closed"@) {
            Some("closed"@)
        } else {
            None
        }),
{
    match status {
        Some(s) => if same(s, "open") {
            Some("open")
        } else if same(s, "closed") {
            Some("closed")
        } else {
            None
        },
        None => None,
    }
}

/// The start of an id.
pub fn short_id(id: &str) -> (r: String)
    ensures
        r@ == head(id@, 8),
{
    take_chars(id, 8).to_owned()
}

// ---------------------------------------------------------------------------
// Listing
// ---------------------------------------------------------------------------

/// A conversation in a listing.
#[derive(Debug)]
pub struct ThreadSummary {
    pub id: String,
    pub subject: String,
    pub status: String,
    pub has_unread_admin_replies: bool,
    pub message_count: u64,
    pub updated_at: Timestamp,
}

impl JsonForm for ThreadSummary {
    open spec fn json(&self) -> JsonView {
        JsonView::Object(
            seq![
                ("id"@, JsonView::Text(self.id@)),
                ("subject"@, JsonView::Text(self.subject@)),
                ("status"@, JsonView::Text(self.status@)),
                ("has_unread_admin_replies"@, JsonView::Bool(self.has_unread_admin_replies)),
                ("message_count"@, JsonView::Int(self.message_count as int)),
                ("updated_at"@, text_or_null(timestamp_rendered(self.updated_at))),
            ],
        )
    }

    fn to_json(&self) -> (r: Json) {
        let at = render_timestamp(&self.updated_at);
        let m = with_member(no_members(), "id", Json::text(self.id.as_str()));
        let m = with_member(m, "subject", Json::text(self.subject.as_str()));
        let m = with_member(m, "status", Json::text(self.status.as_str()));
        let m = with_member(
            m,
            "has_unread_admin_replies",
            Json::Bool(self.has_unread_admin_replies),
        );
        let m = with_member(m, "message_count", Json::Nat(self.message_count));
        let m = with_member(m, "updated_at", Json::opt_text(opt_str(&at)));
        assert(member_views(m@) =~= self.json()->Object_0);
        Json::object(m)
    }
}

/// What a listing reports.
pub fn list_json(threads: &Vec<ThreadSummary>) -> (r: Json)
    ensures
        r.value() == JsonView::Object(seq![("threads"@, JsonView::Array(forms(threads@)))]),
{
    let m = with_member(no_members(), "threads", json_list(threads));
    assert(member_views(m@) =~= seq![("threads"@, JsonView::Array(forms(threads@)))]);
    Json::object(m)
}

/// What people are told of a conversation in a listing.
pub open spec fn thread_line(t: ThreadSummary) -> Seq<char> {
    "  "@ + (if t.has_unread_admin_replies {
        "•"@
    } else {
        " "@
    }) + " "@ + padded_right(head(t.id@, 8), 10) + " "@ + padded_right(t.status@, 8) + " "@ + t.subject@
}

/// What people are told of conversations.
pub fn list_lines(threads: &Vec<ThreadSummary>) -> (r: Vec<String>)
    ensures
        views(r@) == (if threads@.len() == 0 {
            seq!["(no threads)"@]
        } else {
            Seq::new(threads@.len(), |i: int| thread_line(threads@[i]))
        }),
{
    let mut out: Vec<String> = Vec::new();
    if threads.len() == 0 {
        out.push("(no threads)".to_owned());
        assert(views(out@) =~= seq!["(no threads)"@]);
        return out;
    }
    let mut i: usize = 0;
    while i < threads.len()
        invariant
            i <= threads.len(),
            out@.len() == i,
            forall|j: int| 0 <= j < i ==> (#[trigger] out@[j])@ == thread_line(threads@[j]),
        decreases threads.len() - i,
    {
        let t = &threads[i];
        let unread = if t.has_unread_admin_replies {
            "•"
        } else {
            " "
        };
        let id = short_id(t.id.as_str());
        let id = pad_right(id.as_str(), 10);
        let status = pad_right(t.status.as_str(), 8);
        let mut line = concat7("  ", unread, " ", id.as_str(), " ", status.as_str(), " ");
        line.append(t.subject.as_str());
        out.push(line);
        i += 1;
    }
    assert(views(out@) =~= Seq::new(threads@.len(), |i: int| thread_line(threads@[i])));
    out
}

/// How many of the first `n` have replies that were not read.
pub open spec fn unread(s: Seq<ThreadSummary>, n: int) -> nat
    decreases n,
{
    if n <= 0 {
        0
    } else {
        unread(s, n - 1) + if s[n - 1].has_unread_admin_replies {
            1nat
        } else {
            0nat
        }
    }
}

/// What people are told of replies that were not read, if there are any.
pub fn unread_note(threads: &Vec<ThreadSummary>) -> (r: Option<String>)
    ensures
        ({
            let n = unread(threads@, threads@.len() as int);
            opt_view(r) == (if n > 0 {
                Some(
                    "  ("@ + decimal(n) + " thread(s) with unread replies — `knack feedback show <id>`)"@,
                )
            } else {
                None
            })
        }),
{
    let mut n: usize = 0;
    let mut i: usize = 0;
    while i < threads.len()
        invariant
            i <= threads.len(),
            n <= i,
            n == unread(threads@, i as int),
        decreases threads.len() - i,
    {
        if threads[i].has_unread_admin_replies {
            n += 1;
        }
        i += 1;
    }
    if n > 0 {
        let t = usize_text(n);
        Some(
            concat3("  (", t.as_str(), " thread(s) with unread replies — `knack feedback show <id>`)"),
        )
    } else {
        None
    }
}

// ---------------------------------------------------------------------------
// One conversation
// ---------------------------------------------------------------------------

/// A message.
#[derive(Debug)]
pub struct Message {
    pub from_side: String,
    pub body: String,
    pub created_at: Timestamp,
}

/// A conversation.
#[derive(Debug)]
pub struct Thread {
    pub id: String,
    pub subject: String,
    pub status: String,
    pub run_id: Option<String>,
    pub skill_id: Option<String>,
    pub messages: Vec<Message>,
}

/// A moment as people read it, to the minute, by its day as text. A moment on no day
/// of the calendar has none.
pub open spec fn minute_text(day: Option<Seq<char>>, t: Timestamp) -> Seq<char> {
    match day {
        Some(d) => d + " "@ + zero_padded(second_of_day(t) / 3600, 2) + ":"@ + zero_padded(
            second_of_day(t) % 3600 / 60,
            2,
        ) + " UTC"@,
        None => ""@,
    }
}

/// What people are told of a message: who wrote it and when, and its lines.
pub open spec fn message_text(m: Message) -> Seq<Seq<char>> {
    seq![
        "\n  ["@ + (if m.from_side@ == "admin"@ {
            "knack"@
        } else {
            "you"@
        }) + "] "@ + minute_text(date_rendered(day_of(m.created_at)), m.created_at),
    ] + each_prefixed("    "@, lines_of(m.body@))
}

/// What people are told of the first `n` messages.
pub open spec fn messages_text(s: Seq<Message>, n: int) -> Seq<Seq<char>>
    decreases n,
{
    if n <= 0 {
        seq![]
    } else {
        messages_text(s, n - 1) + message_text(s[n - 1])
    }
}

pub open spec fn line_if(o: Option<Seq<char>>, prefix: Seq<char>) -> Seq<Seq<char>> {
    match o {
        Some(s) => seq![prefix + s],
        None => seq![],
    }
}

/// What people are told of a conversation.
pub open spec fn thread_text(t: Thread) -> Seq<Seq<char>> {
    let s = seq!["thread "@ + t.id@ + " — "@ + t.subject@ + " ("@ + t.status@ + ")"@] + line_if(
        opt_view(t.run_id),
        "  attached run:   "@,
    ) + line_if(opt_view(t.skill_id), "  attached skill: "@) + messages_text(
        t.messages@,
        t.messages@.len() as int,
    );
    if t.status@ == "open"@ {
        s.push("\n  reply: knack feedback reply "@ + t.id@ + " --body \"…\""@)
    } else {
        s
    }
}

fn minute(t: &Timestamp) -> (r: String)
    ensures
        r@ == minute_text(date_rendered(day_of(*t)), *t),
{
    match render_date(date_of(t)) {
        Some(d) => {
            let (h, m, _) = time_of_day(t);
            let h = zero_pad(h, 2);
            let m = zero_pad(m, 2);
            let mut r = concat5(d.as_str(), " ", h.as_str(), ":", m.as_str());
            r.append(" UTC");
            r
        },
        None => "".to_owned(),
    }
}

fn push_message(out: &mut Vec<String>, m: &Message)
    ensures
        views(final(out)@) == views(old(out)@) + message_text(*m),
{
    let ghost was = views(out@);
    let who = if same(m.from_side.as_str(), "admin") {
        "knack"
    } else {
        "you"
    };
    let when = minute(&m.created_at);
    push_line(out, concat4("\n  [", who, "] ", when.as_str()));
    let body = lines(m.body.as_str());
    push_prefixed(out, "    ", &body);
    assert(views(out@) =~= was + message_text(*m));
}

fn push_if(out: &mut Vec<String>, o: &Option<String>, prefix: &str)
    ensures
        views(final(out)@) == views(old(out)@) + line_if(opt_view(*o), prefix@),
{
    let ghost was = views(out@);
    match o {
        Some(s) => {
            push_line(out, prefixed(prefix, s.as_str()));
        },
        None => {},
    }
    assert(views(out@) =~= was + line_if(opt_view(*o), prefix@));
}

/// What people are told of a conversation.
pub fn show_lines(t: &Thread) -> (r: Vec<String>)
    ensures
        views(r@) == thread_text(*t),
{
    let mut out: Vec<String> = Vec::new();
    let mut first = concat5("thread ", t.id.as_str(), " — ", t.subject.as_str(), " (");
    first.append(t.status.as_str());
    first.append(")");
    push_line(&mut out, first);
    let ghost one = seq!["thread "@ + t.id@ + " — "@ + t.subject@ + " ("@ + t.status@ + ")"@];
    assert(views(out@) =~= one);
    push_if(&mut out, &t.run_id, "  attached run:   ");
    push_if(&mut out, &t.skill_id, "  attached skill: ");
    let ghost so_far = views(out@);
    let mut i: usize = 0;
    assert(so_far =~= so_far + messages_text(t.messages@, 0));
    while i < t.messages.len()
        invariant
            i <= t.messages.len(),
            views(out@) == so_far + messages_text(t.messages@, i as int),
        decreases t.messages.len() - i,
    {
        push_message(&mut out, &t.messages[i]);
        assert(views(out@) =~= so_far + messages_text(t.messages@, i + 1));
        i += 1;
    }
    if same(t.status.as_str(), "open") {
        push_line(
            &mut out,
            concat3("\n  reply: knack feedback reply ", t.id.as_str(), " --body \"…\""),
        );
    }
    out
}

/// What is reported of a conversation that was opened.
pub fn open_json(t: &Thread) -> (r: Json)
    ensures
        r.value() == JsonView::Object(
            seq![
                ("id"@, JsonView::Text(t.id@)),
                ("subject"@, JsonView::Text(t.subject@)),
                ("status"@, JsonView::Text(t.status@)),
                ("message_count"@, JsonView::Int(t.messages@.len() as int)),
            ],
        ),
{
    let m = with_member(no_members(), "id", Json::text(t.id.as_str()));
    let m = with_member(m, "subject", Json::text(t.subject.as_str()));
    let m = with_member(m, "status", Json::text(t.status.as_str()));
    let m = with_member(m, "message_count", Json::Nat(t.messages.len() as u64));
    assert(member_views(m@) =~= seq![
        ("id"@, JsonView::Text(t.id@)),
        ("subject"@, JsonView::Text(t.subject@)),
        ("status"@, JsonView::Text(t.status@)),
        ("message_count"@, JsonView::Int(t.messages@.len() as int)),
    ]);
    Json::object(m)
}

/// What people are told of a conversation that was opened.
pub fn open_lines(t: &Thread) -> (r: Vec<String>)
    ensures
        views(r@) == seq![
            "✓ thread opened — id: "@ + t.id@,
            "  subject: "@ + t.subject@,
            "  reply later: knack feedback reply "@ + t.id@ + " --body \"…\""@,
        ],
{
    let mut out: Vec<String> = Vec::new();
    out.push(crate::errors::prefixed("✓ thread opened — id: ", t.id.as_str()));
    out.push(crate::errors::prefixed("  subject: ", t.subject.as_str()));
    out.push(
        concat3("  reply later: knack feedback reply ", t.id.as_str(), " --body \"…\""),
    );
    assert(views(out@) =~= seq![
        "✓ thread opened — id: "@ + t.id@,
        "  subject: "@ + t.subject@,
        "  reply later: knack feedback reply "@ + t.id@ + " --body \"…\""@,
    ]);
    out
}

/// What is reported of a conversation that was replied to.
pub open spec fn reply_report(t: Thread) -> JsonView {
    JsonView::Object(
        seq![
            ("id"@, JsonView::Text(t.id@)),
            ("status"@, JsonView::Text(t.status@)),
            ("message_count"@, JsonView::Int(t.messages@.len() as int)),
        ],
    )
}

/// What is told of a conversation that was replied to.
pub fn reply(t: &Thread) -> (r: Told)
    ensures
        r.report.value() == reply_report(*t),
        views(r.lines@) == seq!["✓ reply sent to thread "@ + t.id@],
{
    let m = with_member(no_members(), "id", Json::text(t.id.as_str()));
    let m = with_member(m, "status", Json::text(t.status.as_str()));
    let m = with_member(m, "message_count", Json::Nat(t.messages.len() as u64));
    assert(member_views(m@) =~= reply_report(*t)->Object_0);
    let mut lines: Vec<String> = Vec::new();
    lines.push(crate::errors::prefixed("✓ reply sent to thread ", t.id.as_str()));
    assert(views(lines@) =~= seq!["✓ reply sent to thread "@ + t.id@]);
    Told { report: Json::object(m), lines }
}

} // verus!
