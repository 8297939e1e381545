//! `knack info`: the playbook for agents, or sections of it.

use vstd::prelude::*;

use crate::commands::info_chunks::{
    chunk, chunk_of, chunk_table, chunk_views, chunks, slugs, Chunk,
};
use crate::errors::{user_error_hint, CliError, ErrorView};
use crate::json::{
    forms, json_list, member_views, no_members, text_values, with_member, Json, JsonForm, JsonView,
};
use crate::text::{
    concat4, debug_list, debug_texts, drop_trailing, join, join_strings, joined, push_line,
    trim_end, views, CharClass,
};

pub mod laws;

verus! {

/// Where the latest playbook is.
pub const REMOTE_URL: &'static str = "https://getknack.ai/agent.txt";

/// The arguments of `knack info`.
#[derive(Debug, Clone)]
pub struct InfoArgs {
    pub topics: Vec<String>,
    pub list: bool,
    pub offline: bool,
}

/// The playbook that is printed: the latest, where it was asked for and could be
/// fetched, else the one that the program carries.
pub fn pick_playbook(
    offline: bool,
    remote: Option<String>,
    bundled: &str,
) -> (r: (String, &'static str))
    ensures
        match remote {
            Some(t) => if offline {
                r.0@ == bundled@ && r.1@ == "bundled"@
            } else {
                r.0 == t && r.1@ == "remote"@
            },
            None => r.0@ == bundled@ && r.1@ == "bundled"@,
        },
{
    if offline {
        return (bundled.to_owned(), "bundled");
    }
    match remote {
        Some(t) => (t, "remote"),
        None => (bundled.to_owned(), "bundled"),
    }
}

/// The names of the sections.
pub open spec fn section_names() -> Seq<Seq<char>> {
    Seq::new(chunk_table().len(), |i: int| chunk_table()[i].slug)
}

/// The topics among the first `n` that are there.
pub open spec fn known_topics(text: Seq<char>, topics: Seq<Seq<char>>, n: int) -> Seq<Seq<char>>
    decreases n,
{
    if n <= 0 {
        seq![]
    } else if chunk_of(text, topics[n - 1]) is Some {
        known_topics(text, topics, n - 1).push(topics[n - 1])
    } else {
        known_topics(text, topics, n - 1)
    }
}

/// The topics among the first `n` that are not there.
pub open spec fn unknown_topics(text: Seq<char>, topics: Seq<Seq<char>>, n: int) -> Seq<Seq<char>>
    decreases n,
{
    if n <= 0 {
        seq![]
    } else if chunk_of(text, topics[n - 1]) is None {
        unknown_topics(text, topics, n - 1).push(topics[n - 1])
    } else {
        unknown_topics(text, topics, n - 1)
    }
}

/// The sections of those of the first `n` topics that are there, without the white
/// space at their ends.
pub open spec fn topic_texts(text: Seq<char>, topics: Seq<Seq<char>>, n: int) -> Seq<Seq<char>>
    decreases n,
{
    if n <= 0 {
        seq![]
    } else {
        match chunk_of(text, topics[n - 1]) {
            Some(t) => topic_texts(text, topics, n - 1).push(drop_trailing(t, CharClass::White)),
            None => topic_texts(text, topics, n - 1),
        }
    }
}

/// The sections that are printed.
#[derive(Debug)]
pub struct Slice {
    pub body: String,
    pub resolved: Vec<String>,
    pub unknown: Vec<String>,
}

/// What stands before sections.
pub open spec fn slice_header(resolved: Seq<Seq<char>>) -> Seq<char> {
    "(slice of the knack playbook: "@ + joined(resolved, ", "@)
        + ". Run `knack info` for the whole thing, `knack info --list` for the index.)\n\n"@
}

/// The sections for the topics that are there, behind a note of what they are. It is
/// an error only where none is.
pub fn slice_playbook(full: &str, topics: &Vec<String>) -> (r: Result<Slice, CliError>)
    ensures
        ({
            let t = views(topics@);
            let n = t.len() as int;
            let known = known_topics(full@, t, n);
            if known.len() == 0 {
                r is Err && r->Err_0@ == (ErrorView::User {
                    code: "UNKNOWN_INFO_TOPIC"@,
                    message: "no known playbook section in "@ + debug_list(t),
                    hint: Some("valid sections: "@ + joined(section_names(), ", "@)),
                })
            } else {
                r is Ok && views(r->Ok_0.resolved@) == known && views(r->Ok_0.unknown@)
                    == unknown_topics(full@, t, n) && r->Ok_0.body@ == slice_header(known) + joined(
                    topic_texts(full@, t, n),
                    "\n\n"@,
                )
            }
        }),
{
    let ghost t = views(topics@);
    let mut pieces: Vec<String> = Vec::new();
    let mut resolved: Vec<String> = Vec::new();
    let mut unknown: Vec<String> = Vec::new();
    let mut i: usize = 0;
    assert(views(pieces@) =~= seq![]);
    assert(views(resolved@) =~= seq![]);
    assert(views(unknown@) =~= seq![]);
    while i < topics.len()
        invariant
            i <= topics.len(),
            t == views(topics@),
            views(pieces@) == topic_texts(full@, t, i as int),
            views(resolved@) == known_topics(full@, t, i as int),
            views(unknown@) == unknown_topics(full@, t, i as int),
        decreases topics.len() - i,
    {
        assert(t[i as int] == topics@[i as int]@);
        match chunk(full, topics[i].as_str()) {
            Some(body) => {
                push_line(&mut resolved, topics[i].clone());
                push_line(&mut pieces, trim_end(body.as_str(), CharClass::White).to_owned());
            },
            None => {
                push_line(&mut unknown, topics[i].clone());
            },
        }
        i += 1;
    }
    assert(t.len() == i);
    assert(views(resolved@).len() == resolved@.len());
    if resolved.len() == 0 {
        let names = slugs();
        let list = join(names.as_slice(), ", ");
        let quoted = debug_texts(topics);
        let hint = crate::errors::prefixed("valid sections: ", list.as_str());
        return Err(
            user_error_hint(
                "UNKNOWN_INFO_TOPIC",
                crate::errors::prefixed("no known playbook section in ", quoted.as_str()),
                hint.as_str(),
            ),
        );
    }
    let list = join_strings(&resolved, ", ");
    let text = join_strings(&pieces, "\n\n");
    let body = concat4(
        "(slice of the knack playbook: ",
        list.as_str(),
        ". Run `knack info` for the whole thing, `knack info --list` for the index.)\n\n",
        text.as_str(),
    );
    Ok(Slice { body, resolved, unknown })
}

/// What is told of topics that are not there.
pub fn unknown_note(unknown: &Vec<String>) -> (r: String)
    ensures
        r@ == "knack info: ignoring unknown section(s) "@ + debug_list(views(unknown@)) + " — valid: "@
            + joined(section_names(), ", "@),
{
    let names = slugs();
    let list = join(names.as_slice(), ", ");
    let quoted = debug_texts(unknown);
    concat4(
        "knack info: ignoring unknown section(s) ",
        quoted.as_str(),
        " — valid: ",
        list.as_str(),
    )
}

impl JsonForm for Chunk {
    open spec fn json(&self) -> JsonView {
        JsonView::Object(
            seq![
                ("slug"@, JsonView::Text(self.slug@)),
                ("blurb"@, JsonView::Text(self.blurb@)),
            ],
        )
    }

    fn to_json(&self) -> (r: Json) {
        let m = with_member(no_members(), "slug", Json::text(self.slug));
        let m = with_member(m, "blurb", Json::text(self.blurb));
        assert(member_views(m@) =~= self.json()->Object_0);
        Json::object(m)
    }
}

/// The list of sections as JSON.
pub open spec fn index_report() -> JsonView {
    JsonView::Object(
        seq![
            (
                "sections"@,
                JsonView::Array(
                    Seq::new(
                        chunk_table().len(),
                        |i: int|
                            JsonView::Object(
                                seq![
                                    ("slug"@, JsonView::Text(chunk_table()[i].slug)),
                                    ("blurb"@, JsonView::Text(chunk_table()[i].blurb)),
                                ],
                            ),
                    ),
                ),
            ),
        ],
    )
}

/// The list of sections as JSON.
pub fn index_json() -> (r: Json)
    ensures
        r.value() == index_report(),
{
    let all = chunks();
    let ghost s = chunk_views(all@);
    assert(s.len() == all@.len());
    assert forall|i: int| 0 <= i < all@.len() implies (#[trigger] all@[i])@ == chunk_table()[i] by {
        assert(s[i] == all@[i]@);
    }
    let m = with_member(no_members(), "sections", json_list(&all));
    assert(forms(all@) =~= index_report()->Object_0[0].1->Array_0);
    assert(member_views(m@) =~= index_report()->Object_0);
    Json::object(m)
}

/// What is reported of the playbook.
pub open spec fn info_report(
    body: Seq<char>,
    source: Seq<char>,
    topics: Seq<Seq<char>>,
) -> JsonView {
    JsonView::Object(
        seq![
            ("source"@, JsonView::Text(source)),
            ("url"@, JsonView::Text(REMOTE_URL@)),
            ("topics"@, JsonView::Array(text_values(topics))),
            ("body"@, JsonView::Text(body)),
        ],
    )
}

/// What is reported of the playbook.
pub fn info_json(body: &str, source: &str, topics: &Vec<String>) -> (r: Json)
    ensures
        r.value() == info_report(body@, source@, views(topics@)),
{
    let m = with_member(no_members(), "source", Json::text(source));
    let m = with_member(m, "url", Json::text(REMOTE_URL));
    let m = with_member(m, "topics", Json::texts(topics));
    let m = with_member(m, "body", Json::text(body));
    assert(member_views(m@) =~= info_report(body@, source@, views(topics@))->Object_0);
    Json::object(m)
}

/// Every topic is either printed or told of as unknown.
pub proof fn law_no_topic_is_lost(text: Seq<char>, topics: Seq<Seq<char>>, n: int)
    requires
        0 <= n <= topics.len(),
    ensures
        known_topics(text, topics, n).len() + unknown_topics(text, topics, n).len() == n,
        topic_texts(text, topics, n).len() == known_topics(text, topics, n).len(),
    decreases n,
{
    if n > 0 {
        law_no_topic_is_lost(text, topics, n - 1);
    }
}

} // verus!
