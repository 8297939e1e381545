//! The record of the skills that `knack link` has put into agents' directories.

use vstd::prelude::*;

use crate::commands::install::installed::{
    get_number, get_opt_moment, get_scope, law_scope_name_reads_back, lemma_filter_all,
    lemma_filter_push, lemma_filter_shorter, number_part, opt_moment, place_record, record_place,
    scope_name, scope_part, SCHEMA_VERSION, Scope,
};
use crate::json::{
    at_most_parts, distinct_keys, get_list, get_text, json_parsed, json_pretty, lemma_record_field,
    lemma_record_plain, lemma_texts_plain, list_part, member_views, opt_value, parse, parsed_view,
    part, plain, present, push_member, record, render_pretty, text_part, text_values, values, Json,
    JsonView,
};
use crate::text::{
    clone_strings, concat3, debug_form, debug_text, opt_str_view, opt_view, same, views,
};
use crate::time::{ordinary, render_timestamp, timestamp_parsed, timestamp_rendered, Timestamp};

verus! {

/// A skill that is linked.
#[derive(Debug)]
pub struct LinkedSkill {
    pub slug: String,
    pub version: String,
    pub scope: Scope,
    /// The agents that it was written for.
    pub agents: Vec<String>,
}

/// A skill that is linked, as a mathematical value.
#[verifier::ext_equal]
pub ghost struct LinkView {
    pub slug: Seq<char>,
    pub version: Seq<char>,
    pub scope: Scope,
    pub agents: Seq<Seq<char>>,
}

impl View for LinkedSkill {
    type V = LinkView;

    open spec fn view(&self) -> LinkView {
        LinkView {
            slug: self.slug@,
            version: self.version@,
            scope: self.scope,
            agents: views(self.agents@),
        }
    }
}

/// The record.
#[derive(Debug)]
pub struct LinkedRecord {
    pub version: u32,
    pub skills: Vec<LinkedSkill>,
    pub updated_at: Option<Timestamp>,
}

/// The record as a mathematical value.
#[verifier::ext_equal]
pub ghost struct LinkedView {
    pub version: int,
    pub skills: Seq<LinkView>,
    pub updated_at: Option<Timestamp>,
}

pub open spec fn link_views(v: Seq<LinkedSkill>) -> Seq<LinkView> {
    Seq::new(v.len(), |i: int| v[i]@)
}

impl View for LinkedRecord {
    type V = LinkedView;

    open spec fn view(&self) -> LinkedView {
        LinkedView {
            version: self.version as int,
            skills: link_views(self.skills@),
            updated_at: self.updated_at,
        }
    }
}

/// A record of nothing.
pub open spec fn no_links() -> LinkedView {
    LinkedView { version: SCHEMA_VERSION as int, skills: seq![], updated_at: None }
}

impl Default for LinkedRecord {
    fn default() -> (r: LinkedRecord)
        ensures
            r@ == no_links(),
    {
        let r = LinkedRecord { version: SCHEMA_VERSION, skills: Vec::new(), updated_at: None };
        assert(r@ =~= no_links());
        r
    }
}

/// Where the record is kept, by the value of `KNACK_LINKED_FILE`.
pub fn record_path(
    env: Option<&str>,
    home: Option<&str>,
    config: Option<&str>,
) -> (r: Option<String>)
    ensures
        opt_view(r) == record_place(
            opt_str_view(env),
            opt_str_view(home),
            opt_str_view(config),
            "linked.json"@,
        ),
{
    place_record(env, home, config, "linked.json")
}

// ---------------------------------------------------------------------------
// The file
// ---------------------------------------------------------------------------

/// The link that a value describes, if it does.
pub open spec fn link_of(v: JsonView) -> Option<LinkView> {
    match (
        text_part(part(v, "slug"@, 0)),
        text_part(part(v, "version"@, 1)),
        scope_part(part(v, "scope"@, 2)),
        list_part(part(v, "agents"@, 3)),
    ) {
        (Some(slug), Some(version), Some(scope), Some(agents)) => if at_most_parts(v, 4) {
            Some(LinkView { slug, version, scope, agents })
        } else {
            None
        },
        _ => None,
    }
}

pub open spec fn all_links(s: Seq<JsonView>) -> bool {
    forall|i: int| 0 <= i < s.len() ==> link_of(#[trigger] s[i]) is Some
}

/// The links of a record, which may be left out.
pub open spec fn links_part(o: Option<JsonView>) -> Option<Seq<LinkView>> {
    match o {
        None => Some(seq![]),
        Some(JsonView::Array(s)) => if all_links(s) {
            Some(Seq::new(s.len(), |i: int| link_of(s[i])->0))
        } else {
            None
        },
        Some(_) => None,
    }
}

/// The record that a value describes, if it does.
pub open spec fn links_of(v: JsonView) -> Option<LinkedView> {
    match (
        number_part(part(v, "version"@, 0)),
        links_part(part(v, "skills"@, 1)),
        opt_moment(part(v, "updated_at"@, 2)),
    ) {
        (Some(version), Some(skills), Some(updated_at)) => if at_most_parts(v, 3) {
            Some(LinkedView { version, skills, updated_at })
        } else {
            None
        },
        _ => None,
    }
}

/// The record that a document holds, by what it holds as JSON.
pub open spec fn links_in(j: Result<JsonView, Seq<char>>) -> Option<LinkedView> {
    match j {
        Ok(v) => links_of(v),
        Err(_) => None,
    }
}

fn read_link(v: &Json) -> (r: Option<LinkedSkill>)
    ensures
        match r {
            Some(e) => link_of(v.value()) == Some(e@),
            None => link_of(v.value()) is None,
        },
{
    if !v.has_at_most(4) {
        return None;
    }
    match (
        get_text(v.part("slug", 0)),
        get_text(v.part("version", 1)),
        get_scope(v.part("scope", 2)),
        get_list(v.part("agents", 3)),
    ) {
        (Some(slug), Some(version), Some(scope), Some(agents)) => Some(
            LinkedSkill { slug, version, scope, agents },
        ),
        _ => None,
    }
}

fn read_links(o: Option<&Json>) -> (r: Option<Vec<LinkedSkill>>)
    ensures
        match r {
            Some(e) => links_part(opt_value(o)) == Some(link_views(e@)),
            None => links_part(opt_value(o)) is None,
        },
{
    match o {
        None => {
            let r: Vec<LinkedSkill> = Vec::new();
            assert(link_views(r@) =~= seq![]);
            Some(r)
        },
        Some(Json::Array(a)) => {
            proof {
                crate::json::lemma_array_value(*a);
            }
            let ghost s = values(a@);
            let mut r: Vec<LinkedSkill> = Vec::new();
            let mut i: usize = 0;
            while i < a.len()
                invariant
                    i <= a.len(),
                    s == values(a@),
                    opt_value(o) == Some(JsonView::Array(s)),
                    r@.len() == i,
                    forall|j: int| 0 <= j < i ==> link_of(#[trigger] s[j]) == Some(r@[j]@),
                decreases a.len() - i,
            {
                assert(s[i as int] == a@[i as int].value());
                match read_link(&a[i]) {
                    Some(e) => r.push(e),
                    None => {
                        assert(link_of(s[i as int]) is None);
                        return None;
                    },
                }
                i += 1;
            }
            assert(link_views(r@) =~= Seq::new(s.len(), |i: int| link_of(s[i])->0));
            Some(r)
        },
        Some(_) => None,
    }
}

/// The record that a document holds under a path, or what is wrong with it, by what it
/// holds as JSON. The path is told in quotes.
pub open spec fn record_result(
    path: Seq<char>,
    j: Result<JsonView, Seq<char>>,
) -> Result<LinkedView, Seq<char>> {
    match j {
        Err(e) => Err(debug_form(path) + ": "@ + e),
        Ok(v) => match links_of(v) {
            Some(rec) => Ok(rec),
            None => Err(debug_form(path) + ": "@ + "not a record"@),
        },
    }
}

/// A result as a mathematical value.
pub open spec fn loaded(r: Result<LinkedRecord, String>) -> Result<LinkedView, Seq<char>> {
    match r {
        Ok(rec) => Ok(rec@),
        Err(e) => Err(e@),
    }
}

/// The record that was read under a path: a document that is no JSON, or no record,
/// is an error and not an empty record.
pub fn record_from(path: &str, json: Result<Json, String>) -> (r: Result<LinkedRecord, String>)
    ensures
        loaded(r) == record_result(path@, parsed_view(json)),
{
    let path = debug_text(path);
    match json {
        Err(e) => Err(concat3(path.as_str(), ": ", e.as_str())),
        Ok(v) => match (
            get_number(v.part("version", 0)),
            read_links(v.part("skills", 1)),
            get_opt_moment(v.part("updated_at", 2)),
        ) {
            (Some(version), Some(skills), Some(updated_at)) if v.has_at_most(3) => Ok(
                LinkedRecord { version, skills, updated_at },
            ),
            _ => Err(concat3(path.as_str(), ": ", "not a record")),
        },
    }
}

/// The record, by the text of its file. Without a file it is empty.
pub fn load(path: &str, text: Option<&str>) -> (r: Result<LinkedRecord, String>)
    ensures
        loaded(r) == (match text {
            None => Ok(no_links()),
            Some(t) => record_result(path@, json_parsed(t@)),
        }),
{
    match text {
        None => Ok(LinkedRecord::default()),
        Some(t) => record_from(path, parse(t)),
    }
}

/// A link as JSON.
pub open spec fn link_fields(a: LinkView) -> Seq<(Seq<char>, Option<JsonView>)> {
    seq![
        ("slug"@, Some(JsonView::Text(a.slug))),
        ("version"@, Some(JsonView::Text(a.version))),
        ("scope"@, Some(JsonView::Text(scope_name(a.scope)))),
        ("agents"@, Some(JsonView::Array(text_values(a.agents)))),
    ]
}

/// Links as JSON.
pub open spec fn links_json(s: Seq<LinkView>) -> Seq<JsonView> {
    Seq::new(s.len(), |i: int| record(link_fields(s[i])))
}

/// A record as JSON, with the moment it was written at.
pub open spec fn record_fields(skills: Seq<LinkView>, at: Seq<char>) -> Seq<
    (Seq<char>, Option<JsonView>),
> {
    seq![
        ("version"@, Some(JsonView::Int(SCHEMA_VERSION as int))),
        ("skills"@, Some(JsonView::Array(links_json(skills)))),
        ("updated_at"@, Some(JsonView::Text(at))),
    ]
}

/// A record as it is once it was written: of this version, and updated now.
pub open spec fn as_saved(r: LinkedView, now: Timestamp) -> LinkedView {
    LinkedView { version: SCHEMA_VERSION as int, skills: r.skills, updated_at: Some(now) }
}

proof fn lemma_link_keys(a: LinkView)
    ensures
        distinct_keys(link_fields(a)),
{
    reveal_strlit("slug");
    reveal_strlit("version");
    reveal_strlit("scope");
    reveal_strlit("agents");
    assert("slug"@.len() == 4 && "version"@.len() == 7 && "scope"@.len() == 5 && "agents"@.len()
        == 6);
}

proof fn lemma_record_keys(skills: Seq<LinkView>, at: Seq<char>)
    ensures
        distinct_keys(record_fields(skills, at)),
{
    reveal_strlit("version");
    reveal_strlit("skills");
    reveal_strlit("updated_at");
    assert("version"@.len() == 7 && "skills"@.len() == 6 && "updated_at"@.len() == 10);
}

proof fn lemma_link_reads_back(a: LinkView)
    ensures
        link_of(record(link_fields(a))) == Some(a),
        plain(record(link_fields(a)), 98),
{
    let f = link_fields(a);
    lemma_link_keys(a);
    lemma_record_field(f, 0);
    lemma_record_field(f, 1);
    lemma_record_field(f, 2);
    lemma_record_field(f, 3);
    assert(f[0].0 == "slug"@ && f[1].0 == "version"@ && f[2].0 == "scope"@ && f[3].0 == "agents"@);
    law_scope_name_reads_back(a.scope);
    let s = text_values(a.agents);
    assert forall|i: int| 0 <= i < s.len() implies (#[trigger] s[i]) is Text by {}
    assert(Seq::new(s.len(), |i: int| s[i]->Text_0) =~= a.agents);
    lemma_texts_plain(a.agents, 97);
    lemma_record_plain(f, 98);
}

/// What is written of a record is read as the record.
pub proof fn lemma_record_reads_back(skills: Seq<LinkView>, at: Seq<char>, now: Timestamp)
    requires
        timestamp_parsed(at) == Some(now),
    ensures
        links_of(record(record_fields(skills, at))) == Some(
            LinkedView { version: SCHEMA_VERSION as int, skills, updated_at: Some(now) },
        ),
        plain(record(record_fields(skills, at)), 100),
{
    let f = record_fields(skills, at);
    lemma_record_keys(skills, at);
    lemma_record_field(f, 0);
    lemma_record_field(f, 1);
    lemma_record_field(f, 2);
    assert(f[0].0 == "version"@ && f[1].0 == "skills"@ && f[2].0 == "updated_at"@);
    let s = links_json(skills);
    assert forall|i: int| 0 <= i < s.len() implies link_of(#[trigger] s[i]) == Some(skills[i]) && plain(
        s[i],
        98,
    ) by {
        lemma_link_reads_back(skills[i]);
    }
    assert(Seq::new(s.len(), |i: int| link_of(s[i])->0) =~= skills);
    assert(plain(JsonView::Array(s), 99));
    lemma_record_plain(f, 100);
}

fn link_to_json(e: &LinkedSkill) -> (r: Json)
    ensures
        r.value() == record(link_fields(e@)),
{
    let mut m: Vec<(String, Json)> = Vec::new();
    proof {
        reveal_with_fuel(present, 5);
        assert(member_views(m@) =~= seq![]);
    }
    push_member(&mut m, "slug", Some(Json::text(e.slug.as_str())));
    push_member(&mut m, "version", Some(Json::text(e.version.as_str())));
    push_member(&mut m, "scope", Some(Json::text(e.scope.as_str())));
    push_member(&mut m, "agents", Some(Json::texts(&e.agents)));
    Json::object(m)
}

/// Links as JSON.
pub fn links_to_json(skills: &Vec<LinkedSkill>) -> (r: Json)
    ensures
        r.value() == JsonView::Array(links_json(link_views(skills@))),
{
    let mut a: Vec<Json> = Vec::new();
    let mut i: usize = 0;
    while i < skills.len()
        invariant
            i <= skills.len(),
            a@.len() == i,
            forall|j: int|
                0 <= j < i ==> (#[trigger] a@[j]).value() == record(
                    link_fields(link_views(skills@)[j]),
                ),
        decreases skills.len() - i,
    {
        a.push(link_to_json(&skills[i]));
        i += 1;
    }
    proof {
        crate::json::lemma_array_value(a);
        assert(values(a@) =~= links_json(link_views(skills@)));
    }
    Json::Array(a)
}

/// The text of the record, as it is written now. A moment that cannot be written
/// gives none.
pub fn save(rec: &LinkedRecord, now: &Timestamp) -> (r: Option<String>)
    ensures
        match timestamp_rendered(*now) {
            Some(at) => opt_view(r) == Some(json_pretty(record(record_fields(rec@.skills, at)))),
            None => r is None,
        },
        ordinary(*now) ==> r is Some && links_in(json_parsed(r->0@)) == Some(as_saved(rec@, *now)),
{
    let at = match render_timestamp(now) {
        Some(s) => s,
        None => {
            return None;
        },
    };
    let mut m: Vec<(String, Json)> = Vec::new();
    proof {
        reveal_with_fuel(present, 4);
        assert(member_views(m@) =~= seq![]);
    }
    push_member(&mut m, "version", Some(Json::Nat(SCHEMA_VERSION as u64)));
    push_member(&mut m, "skills", Some(links_to_json(&rec.skills)));
    push_member(&mut m, "updated_at", Some(Json::text(at.as_str())));
    let v = Json::object(m);
    proof {
        assert(v.value() == record(record_fields(rec@.skills, at@)));
        if ordinary(*now) {
            lemma_record_reads_back(rec@.skills, at@, *now);
        }
    }
    Some(render_pretty(&v))
}

// ---------------------------------------------------------------------------
// Entries
// ---------------------------------------------------------------------------

/// The links but those of one skill in one scope.
pub open spec fn without_link(s: Seq<LinkView>, slug: Seq<char>, scope: Scope) -> Seq<LinkView> {
    s.filter(|e: LinkView| !(e.slug == slug && e.scope == scope))
}

fn copy_link(e: &LinkedSkill) -> (r: LinkedSkill)
    ensures
        r@ == e@,
{
    LinkedSkill {
        slug: e.slug.clone(),
        version: e.version.clone(),
        scope: e.scope,
        agents: clone_strings(&e.agents),
    }
}

fn others(skills: &Vec<LinkedSkill>, slug: &str, scope: Scope) -> (r: Vec<LinkedSkill>)
    ensures
        link_views(r@) == without_link(link_views(skills@), slug@, scope),
{
    let ghost was = link_views(skills@);
    let ghost p = |e: LinkView| !(e.slug == slug@ && e.scope == scope);
    let mut kept: Vec<LinkedSkill> = Vec::new();
    let mut i: usize = 0;
    proof {
        reveal(Seq::filter);
        assert(was.take(0) =~= seq![]);
        assert(link_views(kept@) =~= seq![]);
    }
    while i < skills.len()
        invariant
            i <= skills.len(),
            link_views(skills@) == was,
            p == (|e: LinkView| !(e.slug == slug@ && e.scope == scope)),
            link_views(kept@) == was.take(i as int).filter(p),
        decreases skills.len() - i,
    {
        let ghost x = was[i as int];
        proof {
            assert(was.take(i + 1) =~= was.take(i as int).push(x));
            lemma_filter_push(was.take(i as int), x, p);
        }
        if !(same(skills[i].slug.as_str(), slug) && skills[i].scope == scope) {
            let ghost before = link_views(kept@);
            kept.push(copy_link(&skills[i]));
            assert(link_views(kept@) =~= before.push(x));
        }
        i += 1;
    }
    assert(was.take(i as int) =~= was);
    kept
}

/// Links a skill in a scope, in place of what was there: one skill may be linked in
/// both scopes.
pub fn add(rec: &mut LinkedRecord, slug: &str, version: &str, scope: Scope, agents: Vec<String>)
    ensures
        final(rec)@ == (LinkedView {
            skills: without_link(old(rec)@.skills, slug@, scope).push(
                LinkView { slug: slug@, version: version@, scope, agents: views(agents@) },
            ),
            ..old(rec)@
        }),
{
    let mut kept = others(&rec.skills, slug, scope);
    let ghost before = link_views(kept@);
    let ghost names = views(agents@);
    kept.push(
        LinkedSkill { slug: slug.to_owned(), version: version.to_owned(), scope, agents },
    );
    assert(link_views(kept@) =~= before.push(
        LinkView { slug: slug@, version: version@, scope, agents: names },
    ));
    rec.skills = kept;
}

/// Takes a skill out of a scope. Whether there was one.
pub fn remove(rec: &mut LinkedRecord, slug: &str, scope: Scope) -> (r: bool)
    ensures
        final(rec)@ == (LinkedView {
            skills: without_link(old(rec)@.skills, slug@, scope),
            ..old(rec)@
        }),
        r == (exists|i: int|
            0 <= i < old(rec)@.skills.len() && (#[trigger] old(rec)@.skills[i]).slug == slug@ && old(
                rec,
            )@.skills[i].scope == scope),
{
    let ghost was = rec@;
    let ghost p = |e: LinkView| !(e.slug == slug@ && e.scope == scope);
    let kept = others(&rec.skills, slug, scope);
    proof {
        lemma_filter_shorter(was.skills, p);
        assert(link_views(kept@).len() == kept@.len());
        assert(link_views(rec.skills@).len() == rec.skills@.len());
    }
    let changed = kept.len() != rec.skills.len();
    rec.skills = kept;
    changed
}

/// The skills that are linked.
pub fn list(rec: LinkedRecord) -> (r: Vec<LinkedSkill>)
    ensures
        link_views(r@) == rec@.skills,
{
    rec.skills
}

/// A skill that is linked in a scope and taken out of it again is gone from it, and
/// taking it out once more changes nothing. Where it was not linked there before,
/// the record is as it was; what is linked in the other scope stays.
pub proof fn law_add_then_remove(s: Seq<LinkView>, a: LinkView)
    ensures
        ({
            let added = without_link(s, a.slug, a.scope).push(a);
            let after = without_link(added, a.slug, a.scope);
            &&& after == without_link(s, a.slug, a.scope)
            &&& without_link(after, a.slug, a.scope) == after
            &&& (forall|i: int|
                0 <= i < s.len() ==> !((#[trigger] s[i]).slug == a.slug && s[i].scope == a.scope))
                ==> after == s
            &&& forall|i: int|
                0 <= i < s.len() && !((#[trigger] s[i]).slug == a.slug && s[i].scope == a.scope)
                    ==> after.contains(s[i])
        }),
{
    let p = |e: LinkView| !(e.slug == a.slug && e.scope == a.scope);
    let t = s.filter(p);
    assert forall|i: int| 0 <= i < t.len() implies p(#[trigger] t[i]) by {
        s.lemma_filter_pred(p, i);
    }
    lemma_filter_all(t, p);
    lemma_filter_push(t, a, p);
    if forall|i: int|
        0 <= i < s.len() ==> !((#[trigger] s[i]).slug == a.slug && s[i].scope == a.scope) {
        lemma_filter_all(s, p);
    }
    assert forall|i: int|
        0 <= i < s.len() && !((#[trigger] s[i]).slug == a.slug && s[i].scope == a.scope) implies
        t.contains(s[i]) by {
        s.lemma_filter_contains(p, i);
    }
}

} // verus!
