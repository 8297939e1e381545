//! `knack search`: skills that others published, or those in one's own repository.

use vstd::prelude::*;

use crate::json::{
    copy, forms, json_list, member_views, no_members, text_or_null, with_member, Json, JsonForm, JsonView,
};
use crate::output::Told;
use crate::text::{
    concat7, ellipsized, join_strings, joined, opt_str, opt_str_view, opt_view, pad_right, padded_right,
    push_line, views,
};
use crate::types::SkillSummary;

verus! {

/// The arguments of `knack search`.
#[derive(Debug, Clone)]
pub struct SearchArgs {
    pub query: Vec<String>,
    /// `recent`, `top` or `trending`.
    pub sort: String,
    pub limit: u32,
}

/// What is searched for: the words with blanks between them, or nothing in
/// particular.
pub open spec fn query_of(words: Seq<Seq<char>>) -> Option<Seq<char>> {
    if words.len() == 0 {
        None
    } else {
        Some(joined(words, " "@))
    }
}

/// What is searched for.
pub fn search_query(words: &Vec<String>) -> (r: Option<String>)
    ensures
        opt_view(r) == query_of(views(words@)),
{
    assert(views(words@).len() == words@.len());
    if words.len() == 0 {
        None
    } else {
        Some(join_strings(words, " "))
    }
}

/// A text cut to a number of characters: the last of them is an ellipsis where
/// something was cut off.
pub fn truncate(s: &str, n: usize) -> (r: String)
    ensures
        r@ == ellipsized(s@, n as int),
{
    crate::text::truncate(s, n)
}

/// What people are told of a skill that was found, with its stars as text.
pub open spec fn hit_line(
    author: Seq<char>,
    slug: Seq<char>,
    name: Seq<char>,
    stars: Seq<char>,
    description: Seq<char>,
) -> Seq<char> {
    "  @"@ + author + "/"@ + padded_right(slug, 20) + " "@ + padded_right(ellipsized(name, 24), 24)
        + " "@ + stars + "  "@ + ellipsized(description, 60)
}

/// What people are told of a skill that was found.
pub fn found_line(
    author: &str,
    slug: &str,
    name: &str,
    stars: &str,
    description: &str,
) -> (r: String)
    ensures
        r@ == hit_line(author@, slug@, name@, stars@, description@),
{
    let slug = pad_right(slug, 20);
    let name = truncate(name, 24);
    let name = pad_right(name.as_str(), 24);
    let description = truncate(description, 60);
    let mut r = concat7("  @", author, "/", slug.as_str(), " ", name.as_str(), " ");
    r.append(stars);
    r.append("  ");
    r.append(description.as_str());
    r
}

/// How a skill of someone is addressed.
pub fn handle(author: &str, slug: &str) -> (r: String)
    ensures
        r@ == "@"@ + author@ + "/"@ + slug@,
{
    crate::text::concat4("@", author, "/", slug)
}

// ---------------------------------------------------------------------------
// In a repository of one's own
// ---------------------------------------------------------------------------

impl JsonForm for SkillSummary {
    open spec fn json(&self) -> JsonView {
        JsonView::Object(
            seq![
                ("slug"@, JsonView::Text(self.slug@)),
                ("version"@, JsonView::Text(self.version@)),
                ("description"@, text_or_null(opt_view(self.description))),
            ],
        )
    }

    fn to_json(&self) -> (r: Json) {
        let m = with_member(no_members(), "slug", Json::text(self.slug.as_str()));
        let m = with_member(m, "version", Json::text(self.version.as_str()));
        let m = with_member(m, "description", Json::opt_text(opt_str(&self.description)));
        assert(member_views(m@) =~= self.json()->Object_0);
        Json::object(m)
    }
}

/// What is reported of a search in a repository.
pub open spec fn local_report(hits: Seq<SkillSummary>) -> JsonView {
    JsonView::Object(
        seq![
            ("items"@, JsonView::Array(forms(hits))),
            ("backend"@, JsonView::Text("github"@)),
            ("scope"@, JsonView::Text("local-clone"@)),
            (
                "note"@,
                JsonView::Text(
                    "self-host search is limited to your local clone. cross-user discovery lives on the public marketplace at knack.ai."@,
                ),
            ),
        ],
    )
}

/// What is reported of a search in a repository.
pub fn github_search(hits: &Vec<SkillSummary>) -> (r: Json)
    ensures
        r.value() == local_report(hits@),
{
    let m = with_member(no_members(), "items", json_list(hits));
    let m = with_member(m, "backend", Json::text("github"));
    let m = with_member(m, "scope", Json::text("local-clone"));
    let m = with_member(
        m,
        "note",
        Json::text(
            "self-host search is limited to your local clone. cross-user discovery lives on the public marketplace at knack.ai.",
        ),
    );
    assert(member_views(m@) =~= local_report(hits@)->Object_0);
    Json::object(m)
}

/// What people are told of a skill in a repository.
pub open spec fn local_line(h: SkillSummary) -> Seq<char> {
    "  "@ + padded_right(h.slug@, 28) + " "@ + padded_right(h.version@, 10) + " "@ + (
    match h.description {
        Some(d) => d@,
        None => ""@,
    })
}

/// What people are told of a search in a repository.
pub fn github_search_lines(hits: &Vec<SkillSummary>) -> (r: Vec<String>)
    ensures
        views(r@) == (if hits@.len() == 0 {
            seq![
                "no matches in your local clone."@,
                "(self-host search is local-only; for cross-user discovery, browse knack.ai)"@,
            ]
        } else {
            Seq::new(hits@.len(), |i: int| local_line(hits@[i]))
        }),
{
    let mut out: Vec<String> = Vec::new();
    if hits.len() == 0 {
        push_line(&mut out, "no matches in your local clone.".to_owned());
        push_line(
            &mut out,
            "(self-host search is local-only; for cross-user discovery, browse knack.ai)".to_owned(),
        );
        assert(views(out@) =~= seq![
            "no matches in your local clone."@,
            "(self-host search is local-only; for cross-user discovery, browse knack.ai)"@,
        ]);
        return out;
    }
    let mut i: usize = 0;
    while i < hits.len()
        invariant
            i <= hits.len(),
            out@.len() == i,
            forall|j: int| 0 <= j < i ==> (#[trigger] out@[j])@ == local_line(hits@[j]),
        decreases hits.len() - i,
    {
        let h = &hits[i];
        let slug = pad_right(h.slug.as_str(), 28);
        let version = pad_right(h.version.as_str(), 10);
        let mut line = crate::text::concat5("  ", slug.as_str(), " ", version.as_str(), " ");
        line.append(
            match &h.description {
                Some(d) => d.as_str(),
                None => "",
            },
        );
        out.push(line);
        i += 1;
    }
    assert(views(out@) =~= Seq::new(hits@.len(), |i: int| local_line(hits@[i])));
    out
}

// ---------------------------------------------------------------------------
// Skills that others published
// ---------------------------------------------------------------------------

/// A skill that someone published, with the average of its ratings as a value and as
/// text.
#[derive(Debug)]
pub struct FoundSkill {
    pub author: String,
    pub slug: String,
    pub id: String,
    pub name: String,
    pub description: String,
    pub current_version_semver: Option<String>,
    pub average: Json,
    pub stars: String,
    pub ratings_count: u64,
    pub runs_count: u64,
    pub downloads_count: u64,
}

impl JsonForm for FoundSkill {
    open spec fn json(&self) -> JsonView {
        JsonView::Object(
            seq![
                ("slug"@, JsonView::Text("@"@ + self.author@ + "/"@ + self.slug@)),
                ("id"@, JsonView::Text(self.id@)),
                ("name"@, JsonView::Text(self.name@)),
                ("description"@, JsonView::Text(self.description@)),
                ("current_version_semver"@, text_or_null(opt_view(self.current_version_semver))),
                ("avg_stars"@, self.average.value()),
                ("ratings_count"@, JsonView::Int(self.ratings_count as int)),
                ("runs_count"@, JsonView::Int(self.runs_count as int)),
                ("downloads_count"@, JsonView::Int(self.downloads_count as int)),
            ],
        )
    }

    fn to_json(&self) -> (r: Json) {
        let slug = handle(self.author.as_str(), self.slug.as_str());
        let m = with_member(no_members(), "slug", Json::text(slug.as_str()));
        let m = with_member(m, "id", Json::text(self.id.as_str()));
        let m = with_member(m, "name", Json::text(self.name.as_str()));
        let m = with_member(m, "description", Json::text(self.description.as_str()));
        let m = with_member(
            m,
            "current_version_semver",
            Json::opt_text(opt_str(&self.current_version_semver)),
        );
        let m = with_member(m, "avg_stars", copy(&self.average));
        let m = with_member(m, "ratings_count", Json::Nat(self.ratings_count));
        let m = with_member(m, "runs_count", Json::Nat(self.runs_count));
        let m = with_member(m, "downloads_count", Json::Nat(self.downloads_count));
        assert(member_views(m@) =~= self.json()->Object_0);
        Json::object(m)
    }
}

/// What is reported of a search.
pub open spec fn found_report(
    query: Option<Seq<char>>,
    sort: Seq<char>,
    items: Seq<FoundSkill>,
    next: Option<Seq<char>>,
) -> JsonView {
    JsonView::Object(
        seq![
            ("query"@, text_or_null(query)),
            ("sort"@, JsonView::Text(sort)),
            ("items"@, JsonView::Array(forms(items))),
            ("next_cursor"@, text_or_null(next)),
        ],
    )
}

/// What people are told of a search.
pub open spec fn found_text(items: Seq<FoundSkill>) -> Seq<Seq<char>> {
    if items.len() == 0 {
        seq!["(no matches)"@]
    } else {
        Seq::new(
            items.len(),
            |i: int|
                hit_line(
                    items[i].author@,
                    items[i].slug@,
                    items[i].name@,
                    items[i].stars@,
                    items[i].description@,
                ),
        )
    }
}

/// What is told of a search.
pub fn found(
    query: Option<&str>,
    sort: &str,
    items: &Vec<FoundSkill>,
    next: Option<&str>,
) -> (r: Told)
    ensures
        r.report.value() == found_report(
            opt_str_view(query),
            sort@,
            items@,
            opt_str_view(next),
        ),
        views(r.lines@) == found_text(items@),
{
    let m = with_member(no_members(), "query", Json::opt_text(query));
    let m = with_member(m, "sort", Json::text(sort));
    let m = with_member(m, "items", json_list(items));
    let m = with_member(m, "next_cursor", Json::opt_text(next));
    assert(member_views(m@) =~= found_report(
        opt_str_view(query),
        sort@,
        items@,
        opt_str_view(next),
    )->Object_0);
    let mut lines: Vec<String> = Vec::new();
    if items.len() == 0 {
        lines.push("(no matches)".to_owned());
        assert(views(lines@) =~= found_text(items@));
        return Told { report: Json::object(m), lines };
    }
    let mut i: usize = 0;
    while i < items.len()
        invariant
            i <= items.len(),
            items@.len() > 0,
            lines@.len() == i,
            forall|j: int| 0 <= j < i ==> (#[trigger] lines@[j])@ == found_text(items@)[j],
        decreases items.len() - i,
    {
        let c = &items[i];
        lines.push(
            found_line(
                c.author.as_str(),
                c.slug.as_str(),
                c.name.as_str(),
                c.stars.as_str(),
                c.description.as_str(),
            ),
        );
        i += 1;
    }
    assert(views(lines@) =~= found_text(items@));
    Told { report: Json::object(m), lines }
}

} // verus!
