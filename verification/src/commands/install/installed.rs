//! The record of the agents that `knack install` has set up.

use vstd::prelude::*;

use crate::config::{below, join_path};
use crate::json::{
    at_most_parts, distinct_keys, get_text, json_parsed, json_pretty, lemma_record_field,
    lemma_record_plain, member_views, opt_value, parse, parsed_view, part, plain, present,
    push_member, record, render_pretty, text_part, values, Json, JsonView,
};
use crate::text::{concat3, debug_form, debug_text, opt_str_view, opt_view, same};
use crate::time::{
    ordinary, parse_timestamp, render_timestamp, timestamp_parsed, timestamp_rendered, Timestamp,
};

verus! {

/// The version of the record.
pub const SCHEMA_VERSION: u32 = 1;

/// Where an agent is set up.
#[derive(Debug, Clone, Copy, PartialEq, Eq, Structural)]
pub enum Scope {
    /// For every project, in the home directory.
    Home,
    /// For one project.
    Project,
}

/// The name of a scope.
pub open spec fn scope_name(s: Scope) -> Seq<char> {
    match s {
        Scope::Home => "home"@,
        Scope::Project => "project"@,
    }
}

/// The scope with a name.
pub open spec fn scope_named(s: Seq<char>) -> Option<Scope> {
    if s == "home"@ {
        Some(Scope::Home)
    } else if s == "project"@ {
        Some(Scope::Project)
    } else {
        None
    }
}

impl Scope {
    /// The name of the scope.
    pub fn as_str(self) -> (r: &'static str)
        ensures
            r@ == scope_name(self),
    {
        match self {
            Scope::Home => "home",
            Scope::Project => "project",
        }
    }

    /// The scope with a name.
    pub fn named(s: &str) -> (r: Option<Scope>)
        ensures
            r == scope_named(s@),
    {
        if same(s, "home") {
            Some(Scope::Home)
        } else if same(s, "project") {
            Some(Scope::Project)
        } else {
            None
        }
    }
}

/// A scope is found under its own name.
pub proof fn law_scope_name_reads_back(s: Scope)
    ensures
        scope_named(scope_name(s)) == Some(s),
{
    reveal_strlit("home");
    reveal_strlit("project");
    assert("home"@.len() != "project"@.len());
}

/// An agent that is set up.
#[derive(Debug)]
pub struct AgentEntry {
    pub slug: String,
    pub scope: Scope,
    /// The file that was written for it.
    pub path: String,
}

/// An agent that is set up, as a mathematical value.
#[verifier::ext_equal]
pub ghost struct AgentView {
    pub slug: Seq<char>,
    pub scope: Scope,
    pub path: Seq<char>,
}

impl View for AgentEntry {
    type V = AgentView;

    open spec fn view(&self) -> AgentView {
        AgentView { slug: self.slug@, scope: self.scope, path: self.path@ }
    }
}

/// The record.
#[derive(Debug)]
pub struct InstalledRecord {
    pub version: u32,
    pub agents: Vec<AgentEntry>,
    pub updated_at: Option<Timestamp>,
}

/// The record as a mathematical value.
#[verifier::ext_equal]
pub ghost struct InstalledView {
    pub version: int,
    pub agents: Seq<AgentView>,
    pub updated_at: Option<Timestamp>,
}

pub open spec fn agent_views(v: Seq<AgentEntry>) -> Seq<AgentView> {
    Seq::new(v.len(), |i: int| v[i]@)
}

impl View for InstalledRecord {
    type V = InstalledView;

    open spec fn view(&self) -> InstalledView {
        InstalledView {
            version: self.version as int,
            agents: agent_views(self.agents@),
            updated_at: self.updated_at,
        }
    }
}

/// A record of nothing.
pub open spec fn empty_record() -> InstalledView {
    InstalledView { version: SCHEMA_VERSION as int, agents: seq![], updated_at: None }
}

impl Default for InstalledRecord {
    fn default() -> (r: InstalledRecord)
        ensures
            r@ == empty_record(),
    {
        let r = InstalledRecord { version: SCHEMA_VERSION, agents: Vec::new(), updated_at: None };
        assert(r@ =~= empty_record());
        r
    }
}

// ---------------------------------------------------------------------------
// The file
// ---------------------------------------------------------------------------

/// Where a record is kept: where the environment says, else in the home directory,
/// else among the configuration, if there is either.
pub open spec fn record_place(
    env: Option<Seq<char>>,
    home: Option<Seq<char>>,
    config: Option<Seq<char>>,
    name: Seq<char>,
) -> Option<Seq<char>> {
    if env is Some {
        env
    } else if home is Some {
        Some(below(below(home->0, ".knack"@), name))
    } else if config is Some {
        Some(below(below(config->0, "knack"@), name))
    } else {
        None
    }
}

/// Where a record is kept.
pub fn place_record(
    env: Option<&str>,
    home: Option<&str>,
    config: Option<&str>,
    name: &str,
) -> (r: Option<String>)
    ensures
        opt_view(r) == record_place(
            opt_str_view(env),
            opt_str_view(home),
            opt_str_view(config),
            name@,
        ),
{
    match env {
        Some(p) => {
            return Some(p.to_owned());
        },
        None => {},
    }
    match home {
        Some(h) => {
            let dir = join_path(h, ".knack");
            return Some(join_path(dir.as_str(), name));
        },
        None => {},
    }
    match config {
        Some(c) => {
            let dir = join_path(c, "knack");
            Some(join_path(dir.as_str(), name))
        },
        None => None,
    }
}

/// Where the record is kept, by the value of `KNACK_INSTALLED_FILE`.
pub fn record_path(
    env: Option<&str>,
    home: Option<&str>,
    config: Option<&str>,
) -> (r: Option<String>)
    ensures
        opt_view(r) == record_place(
            opt_str_view(env),
            opt_str_view(home),
            opt_str_view(config),
            "installed.json"@,
        ),
{
    place_record(env, home, config, "installed.json")
}

/// A moment that may be left out or null; nothing where something else stands
/// there.
pub open spec fn opt_moment(o: Option<JsonView>) -> Option<Option<Timestamp>> {
    match o {
        None => Some(None),
        Some(JsonView::Null) => Some(None),
        Some(JsonView::Text(s)) => match timestamp_parsed(s) {
            Some(t) => Some(Some(t)),
            None => None,
        },
        Some(_) => None,
    }
}

/// A number of 32 bits that has to be there.
pub open spec fn number_part(o: Option<JsonView>) -> Option<int> {
    match o {
        Some(JsonView::Int(n)) => if 0 <= n <= u32::MAX {
            Some(n)
        } else {
            None
        },
        _ => None,
    }
}

/// The scope that stands in a place.
pub open spec fn scope_part(o: Option<JsonView>) -> Option<Scope> {
    match text_part(o) {
        Some(s) => scope_named(s),
        None => None,
    }
}

/// The agent that a value describes, if it does.
pub open spec fn agent_of(v: JsonView) -> Option<AgentView> {
    match (
        text_part(part(v, "slug"@, 0)),
        scope_part(part(v, "scope"@, 1)),
        text_part(part(v, "path"@, 2)),
    ) {
        (Some(slug), Some(scope), Some(path)) => if at_most_parts(v, 3) {
            Some(AgentView { slug, scope, path })
        } else {
            None
        },
        _ => None,
    }
}

pub open spec fn all_agents(s: Seq<JsonView>) -> bool {
    forall|i: int| 0 <= i < s.len() ==> agent_of(#[trigger] s[i]) is Some
}

/// The agents of a record, which may be left out.
pub open spec fn agents_part(o: Option<JsonView>) -> Option<Seq<AgentView>> {
    match o {
        None => Some(seq![]),
        Some(JsonView::Array(s)) => if all_agents(s) {
            Some(Seq::new(s.len(), |i: int| agent_of(s[i])->0))
        } else {
            None
        },
        Some(_) => None,
    }
}

/// The record that a value describes, if it does.
pub open spec fn record_of(v: JsonView) -> Option<InstalledView> {
    match (
        number_part(part(v, "version"@, 0)),
        agents_part(part(v, "agents"@, 1)),
        opt_moment(part(v, "updated_at"@, 2)),
    ) {
        (Some(version), Some(agents), Some(updated_at)) => if at_most_parts(v, 3) {
            Some(InstalledView { version, agents, updated_at })
        } else {
            None
        },
        _ => None,
    }
}

/// A moment that may be left out or null.
pub fn get_opt_moment(o: Option<&Json>) -> (r: Option<Option<Timestamp>>)
    ensures
        r == opt_moment(opt_value(o)),
{
    match o {
        None => Some(None),
        Some(Json::Null) => Some(None),
        Some(Json::Text(s)) => match parse_timestamp(s.as_str()) {
            Some(t) => Some(Some(t)),
            None => None,
        },
        Some(_) => None,
    }
}

/// A number of 32 bits that has to be there.
pub fn get_number(o: Option<&Json>) -> (r: Option<u32>)
    ensures
        match r {
            Some(n) => number_part(opt_value(o)) == Some(n as int),
            None => number_part(opt_value(o)) is None,
        },
{
    match o {
        Some(Json::Nat(n)) => if *n <= 0xffff_ffff {
            Some(*n as u32)
        } else {
            None
        },
        Some(Json::Neg(n)) => if 0 <= *n && *n <= 0xffff_ffff {
            Some(*n as u32)
        } else {
            None
        },
        _ => None,
    }
}

/// The scope that stands in a place.
pub fn get_scope(o: Option<&Json>) -> (r: Option<Scope>)
    ensures
        r == scope_part(opt_value(o)),
{
    match get_text(o) {
        Some(s) => Scope::named(s.as_str()),
        None => None,
    }
}

fn read_agent(v: &Json) -> (r: Option<AgentEntry>)
    ensures
        match r {
            Some(e) => agent_of(v.value()) == Some(e@),
            None => agent_of(v.value()) is None,
        },
{
    if !v.has_at_most(3) {
        return None;
    }
    match (get_text(v.part("slug", 0)), get_scope(v.part("scope", 1)), get_text(v.part("path", 2))) {
        (Some(slug), Some(scope), Some(path)) => Some(AgentEntry { slug, scope, path }),
        _ => None,
    }
}

fn read_agents(o: Option<&Json>) -> (r: Option<Vec<AgentEntry>>)
    ensures
        match r {
            Some(e) => agents_part(opt_value(o)) == Some(agent_views(e@)),
            None => agents_part(opt_value(o)) is None,
        },
{
    match o {
        None => {
            let r: Vec<AgentEntry> = Vec::new();
            assert(agent_views(r@) =~= seq![]);
            Some(r)
        },
        Some(Json::Array(a)) => {
            proof {
                crate::json::lemma_array_value(*a);
            }
            let ghost s = values(a@);
            let mut r: Vec<AgentEntry> = Vec::new();
            let mut i: usize = 0;
            while i < a.len()
                invariant
                    i <= a.len(),
                    s == values(a@),
                    opt_value(o) == Some(JsonView::Array(s)),
                    r@.len() == i,
                    forall|j: int| 0 <= j < i ==> agent_of(#[trigger] s[j]) == Some(r@[j]@),
                decreases a.len() - i,
            {
                assert(s[i as int] == a@[i as int].value());
                match read_agent(&a[i]) {
                    Some(e) => r.push(e),
                    None => {
                        assert(agent_of(s[i as int]) is None);
                        return None;
                    },
                }
                i += 1;
            }
            assert(agent_views(r@) =~= Seq::new(s.len(), |i: int| agent_of(s[i])->0));
            Some(r)
        },
        Some(_) => None,
    }
}

/// The record that a document holds under a path, or what is wrong with it, by what it
/// holds as JSON. The path is told in quotes.
pub open spec fn record_result(
    path: Seq<char>,
    j: Result<JsonView, Seq<char>>,
) -> Result<InstalledView, Seq<char>> {
    match j {
        Err(e) => Err(debug_form(path) + ": "@ + e),
        Ok(v) => match record_of(v) {
            Some(rec) => Ok(rec),
            None => Err(debug_form(path) + ": "@ + "not a record"@),
        },
    }
}

/// A result as a mathematical value.
pub open spec fn loaded(r: Result<InstalledRecord, String>) -> Result<InstalledView, Seq<char>> {
    match r {
        Ok(rec) => Ok(rec@),
        Err(e) => Err(e@),
    }
}

/// The record that was read under a path: a document that is no JSON, or no record,
/// is an error and not an empty record.
pub fn record_from(path: &str, json: Result<Json, String>) -> (r: Result<InstalledRecord, String>)
    ensures
        loaded(r) == record_result(path@, parsed_view(json)),
{
    let path = debug_text(path);
    match json {
        Err(e) => Err(concat3(path.as_str(), ": ", e.as_str())),
        Ok(v) => match (
            get_number(v.part("version", 0)),
            read_agents(v.part("agents", 1)),
            get_opt_moment(v.part("updated_at", 2)),
        ) {
            (Some(version), Some(agents), Some(updated_at)) if v.has_at_most(3) => Ok(
                InstalledRecord { version, agents, updated_at },
            ),
            _ => Err(concat3(path.as_str(), ": ", "not a record")),
        },
    }
}

/// The record that a document holds, by what it holds as JSON.
pub open spec fn record_in(j: Result<JsonView, Seq<char>>) -> Option<InstalledView> {
    match j {
        Ok(v) => record_of(v),
        Err(_) => None,
    }
}

/// The record, by the text of its file. Without a file it is empty.
pub fn load(path: &str, text: Option<&str>) -> (r: Result<InstalledRecord, String>)
    ensures
        loaded(r) == (match text {
            None => Ok(empty_record()),
            Some(t) => record_result(path@, json_parsed(t@)),
        }),
{
    match text {
        None => Ok(InstalledRecord::default()),
        Some(t) => record_from(path, parse(t)),
    }
}

/// An agent as JSON.
pub open spec fn agent_fields(a: AgentView) -> Seq<(Seq<char>, Option<JsonView>)> {
    seq![
        ("slug"@, Some(JsonView::Text(a.slug))),
        ("scope"@, Some(JsonView::Text(scope_name(a.scope)))),
        ("path"@, Some(JsonView::Text(a.path))),
    ]
}

/// Agents as JSON.
pub open spec fn agents_json(s: Seq<AgentView>) -> Seq<JsonView> {
    Seq::new(s.len(), |i: int| record(agent_fields(s[i])))
}

/// A record as JSON, with the moment it was written at.
pub open spec fn record_fields(agents: Seq<AgentView>, at: Seq<char>) -> Seq<
    (Seq<char>, Option<JsonView>),
> {
    seq![
        ("version"@, Some(JsonView::Int(SCHEMA_VERSION as int))),
        ("agents"@, Some(JsonView::Array(agents_json(agents)))),
        ("updated_at"@, Some(JsonView::Text(at))),
    ]
}

/// A record as it is once it was written: of this version, and updated now.
pub open spec fn as_saved(r: InstalledView, now: Timestamp) -> InstalledView {
    InstalledView { version: SCHEMA_VERSION as int, agents: r.agents, updated_at: Some(now) }
}

proof fn lemma_agent_keys(a: AgentView)
    ensures
        distinct_keys(agent_fields(a)),
{
    reveal_strlit("slug");
    reveal_strlit("scope");
    reveal_strlit("path");
    assert("slug"@[0] != "path"@[0]);
    assert("slug"@.len() != "scope"@.len());
    assert("scope"@.len() != "path"@.len());
}

proof fn lemma_record_keys(agents: Seq<AgentView>, at: Seq<char>)
    ensures
        distinct_keys(record_fields(agents, at)),
{
    reveal_strlit("version");
    reveal_strlit("agents");
    reveal_strlit("updated_at");
    assert("version"@.len() != "agents"@.len());
    assert("version"@.len() != "updated_at"@.len());
    assert("agents"@.len() != "updated_at"@.len());
}

proof fn lemma_agent_reads_back(a: AgentView)
    ensures
        agent_of(record(agent_fields(a))) == Some(a),
        plain(record(agent_fields(a)), 98),
{
    let f = agent_fields(a);
    lemma_agent_keys(a);
    lemma_record_field(f, 0);
    lemma_record_field(f, 1);
    lemma_record_field(f, 2);
    assert(f[0].0 == "slug"@ && f[1].0 == "scope"@ && f[2].0 == "path"@);
    law_scope_name_reads_back(a.scope);
    lemma_record_plain(f, 98);
}

/// What is written of a record is read as the record.
pub proof fn lemma_record_reads_back(agents: Seq<AgentView>, at: Seq<char>, now: Timestamp)
    requires
        timestamp_parsed(at) == Some(now),
    ensures
        record_of(record(record_fields(agents, at))) == Some(
            InstalledView { version: SCHEMA_VERSION as int, agents, updated_at: Some(now) },
        ),
        plain(record(record_fields(agents, at)), 100),
{
    let f = record_fields(agents, at);
    lemma_record_keys(agents, at);
    lemma_record_field(f, 0);
    lemma_record_field(f, 1);
    lemma_record_field(f, 2);
    assert(f[0].0 == "version"@ && f[1].0 == "agents"@ && f[2].0 == "updated_at"@);
    let s = agents_json(agents);
    assert forall|i: int| 0 <= i < s.len() implies agent_of(#[trigger] s[i]) == Some(agents[i])
        && plain(s[i], 98) by {
        lemma_agent_reads_back(agents[i]);
    }
    assert(Seq::new(s.len(), |i: int| agent_of(s[i])->0) =~= agents);
    assert(plain(JsonView::Array(s), 99));
    lemma_record_plain(f, 100);
}

fn agent_to_json(e: &AgentEntry) -> (r: Json)
    ensures
        r.value() == record(agent_fields(e@)),
{
    let mut m: Vec<(String, Json)> = Vec::new();
    proof {
        reveal_with_fuel(present, 4);
        assert(member_views(m@) =~= seq![]);
    }
    push_member(&mut m, "slug", Some(Json::text(e.slug.as_str())));
    push_member(&mut m, "scope", Some(Json::text(e.scope.as_str())));
    push_member(&mut m, "path", Some(Json::text(e.path.as_str())));
    Json::object(m)
}

/// The text of the record, as it is written now. A moment that cannot be written
/// gives none.
pub fn save(rec: &InstalledRecord, now: &Timestamp) -> (r: Option<String>)
    ensures
        match timestamp_rendered(*now) {
            Some(at) => opt_view(r) == Some(json_pretty(record(record_fields(rec@.agents, at)))),
            None => r is None,
        },
        ordinary(*now) ==> r is Some && record_in(json_parsed(r->0@)) == Some(
            as_saved(rec@, *now),
        ),
{
    let at = match render_timestamp(now) {
        Some(s) => s,
        None => {
            return None;
        },
    };
    let mut a: Vec<Json> = Vec::new();
    let mut i: usize = 0;
    while i < rec.agents.len()
        invariant
            i <= rec.agents.len(),
            a@.len() == i,
            forall|j: int|
                0 <= j < i ==> (#[trigger] a@[j]).value() == record(agent_fields(rec@.agents[j])),
        decreases rec.agents.len() - i,
    {
        a.push(agent_to_json(&rec.agents[i]));
        i += 1;
    }
    proof {
        crate::json::lemma_array_value(a);
        assert(values(a@) =~= agents_json(rec@.agents));
    }
    let mut m: Vec<(String, Json)> = Vec::new();
    proof {
        reveal_with_fuel(present, 4);
        assert(member_views(m@) =~= seq![]);
    }
    push_member(&mut m, "version", Some(Json::Nat(SCHEMA_VERSION as u64)));
    push_member(&mut m, "agents", Some(Json::Array(a)));
    push_member(&mut m, "updated_at", Some(Json::text(at.as_str())));
    let v = Json::object(m);
    proof {
        assert(v.value() == record(record_fields(rec@.agents, at@)));
        if ordinary(*now) {
            lemma_record_reads_back(rec@.agents, at@, *now);
        }
    }
    Some(render_pretty(&v))
}

// ---------------------------------------------------------------------------
// Entries
// ---------------------------------------------------------------------------

/// Those of `s` that satisfy `p` and then `x`, or not.
pub proof fn lemma_filter_push<T>(s: Seq<T>, x: T, p: spec_fn(T) -> bool)
    ensures
        s.push(x).filter(p) == (if p(x) {
            s.filter(p).push(x)
        } else {
            s.filter(p)
        }),
{
    reveal(Seq::filter);
    assert(s.push(x).drop_last() =~= s);
}

/// Where all satisfy `p`, all stay.
pub proof fn lemma_filter_all<T>(s: Seq<T>, p: spec_fn(T) -> bool)
    requires
        forall|i: int| 0 <= i < s.len() ==> p(#[trigger] s[i]),
    ensures
        s.filter(p) == s,
    decreases s.len(),
{
    reveal(Seq::filter);
    if s.len() > 0 {
        lemma_filter_all(s.drop_last(), p);
        assert(s.drop_last().push(s.last()) =~= s);
    }
}

/// Fewer stay exactly when one does not satisfy `p`.
pub proof fn lemma_filter_shorter<T>(s: Seq<T>, p: spec_fn(T) -> bool)
    ensures
        s.filter(p).len() <= s.len(),
        s.filter(p).len() == s.len() <==> (forall|i: int| 0 <= i < s.len() ==> p(#[trigger] s[i])),
    decreases s.len(),
{
    reveal(Seq::filter);
    if s.len() > 0 {
        lemma_filter_shorter(s.drop_last(), p);
        assert(forall|i: int| 0 <= i < s.len() - 1 ==> s.drop_last()[i] == s[i]);
        if s.filter(p).len() == s.len() {
            assert forall|i: int| 0 <= i < s.len() implies p(#[trigger] s[i]) by {
                if i < s.len() - 1 {
                    assert(p(s.drop_last()[i]));
                }
            }
        }
        if forall|i: int| 0 <= i < s.len() ==> p(#[trigger] s[i]) {
            lemma_filter_all(s, p);
        }
    }
}

/// The entries but those of one agent in one scope.
pub open spec fn without_entry(s: Seq<AgentView>, slug: Seq<char>, scope: Scope) -> Seq<AgentView> {
    s.filter(|e: AgentView| !(e.slug == slug && e.scope == scope))
}

/// The entries but those of one agent.
pub open spec fn without_agent(s: Seq<AgentView>, slug: Seq<char>) -> Seq<AgentView> {
    s.filter(|e: AgentView| e.slug != slug)
}

fn copy_entry(e: &AgentEntry) -> (r: AgentEntry)
    ensures
        r@ == e@,
{
    AgentEntry { slug: e.slug.clone(), scope: e.scope, path: e.path.clone() }
}

/// Sets an agent up in a scope, in place of what was there: one agent may be set up
/// in both scopes.
pub fn add(rec: &mut InstalledRecord, slug: &str, scope: Scope, path: String)
    ensures
        final(rec)@ == (InstalledView {
            agents: without_entry(old(rec)@.agents, slug@, scope).push(
                AgentView { slug: slug@, scope, path: path@ },
            ),
            ..old(rec)@
        }),
{
    let ghost was = rec@;
    let ghost p = |e: AgentView| !(e.slug == slug@ && e.scope == scope);
    let mut kept: Vec<AgentEntry> = Vec::new();
    let mut i: usize = 0;
    proof {
        reveal(Seq::filter);
        assert(was.agents.take(0) =~= seq![]);
        assert(agent_views(kept@) =~= seq![]);
    }
    while i < rec.agents.len()
        invariant
            i <= rec.agents.len(),
            rec@ == was,
            p == (|e: AgentView| !(e.slug == slug@ && e.scope == scope)),
            agent_views(kept@) == was.agents.take(i as int).filter(p),
        decreases rec.agents.len() - i,
    {
        let ghost x = was.agents[i as int];
        proof {
            assert(was.agents.take(i + 1) =~= was.agents.take(i as int).push(x));
            lemma_filter_push(was.agents.take(i as int), x, p);
        }
        if !(same(rec.agents[i].slug.as_str(), slug) && rec.agents[i].scope == scope) {
            let ghost before = agent_views(kept@);
            kept.push(copy_entry(&rec.agents[i]));
            assert(agent_views(kept@) =~= before.push(x));
        }
        i += 1;
    }
    assert(was.agents.take(i as int) =~= was.agents);
    let ghost before = agent_views(kept@);
    kept.push(AgentEntry { slug: slug.to_owned(), scope, path });
    assert(agent_views(kept@) =~= before.push(AgentView { slug: slug@, scope, path: path@ }));
    rec.agents = kept;
}

/// Takes an agent out of the record, in every scope. Whether there was one.
pub fn remove(rec: &mut InstalledRecord, slug: &str) -> (r: bool)
    ensures
        final(rec)@ == (InstalledView {
            agents: without_agent(old(rec)@.agents, slug@),
            ..old(rec)@
        }),
        r == (exists|i: int|
            0 <= i < old(rec)@.agents.len() && (#[trigger] old(rec)@.agents[i]).slug == slug@),
{
    let ghost was = rec@;
    let ghost p = |e: AgentView| e.slug != slug@;
    let mut kept: Vec<AgentEntry> = Vec::new();
    let mut i: usize = 0;
    proof {
        reveal(Seq::filter);
        assert(was.agents.take(0) =~= seq![]);
        assert(agent_views(kept@) =~= seq![]);
    }
    while i < rec.agents.len()
        invariant
            i <= rec.agents.len(),
            rec@ == was,
            p == (|e: AgentView| e.slug != slug@),
            agent_views(kept@) == was.agents.take(i as int).filter(p),
        decreases rec.agents.len() - i,
    {
        let ghost x = was.agents[i as int];
        proof {
            assert(was.agents.take(i + 1) =~= was.agents.take(i as int).push(x));
            lemma_filter_push(was.agents.take(i as int), x, p);
        }
        if !same(rec.agents[i].slug.as_str(), slug) {
            let ghost before = agent_views(kept@);
            kept.push(copy_entry(&rec.agents[i]));
            assert(agent_views(kept@) =~= before.push(x));
        }
        i += 1;
    }
    assert(was.agents.take(i as int) =~= was.agents);
    proof {
        lemma_filter_shorter(was.agents, p);
        assert(agent_views(kept@).len() == kept@.len());
        assert(agent_views(rec.agents@).len() == rec.agents@.len());
    }
    let changed = kept.len() != rec.agents.len();
    rec.agents = kept;
    changed
}

/// The agents that are set up.
pub fn list(rec: InstalledRecord) -> (r: Vec<AgentEntry>)
    ensures
        agent_views(r@) == rec@.agents,
{
    rec.agents
}

/// No agent is set up twice in one scope.
pub open spec fn one_per_scope(s: Seq<AgentView>) -> bool {
    forall|i: int, j: int|
        0 <= i < j < s.len() ==> (#[trigger] s[i]).slug != (#[trigger] s[j]).slug || s[i].scope
            != s[j].scope
}

/// What is left of entries after some are taken out was among them, in the same
/// order.
pub proof fn lemma_filter_keeps_distinct(s: Seq<AgentView>, p: spec_fn(AgentView) -> bool)
    requires
        one_per_scope(s),
    ensures
        one_per_scope(s.filter(p)),
        forall|i: int|
            0 <= i < s.filter(p).len() ==> p(#[trigger] s.filter(p)[i]) && s.contains(
                s.filter(p)[i],
            ),
    decreases s.len(),
{
    reveal(Seq::filter);
    if s.len() > 0 {
        let t = s.drop_last();
        assert forall|i: int, j: int| 0 <= i < j < t.len() implies (#[trigger] t[i]).slug != (
        #[trigger] t[j]).slug || t[i].scope != t[j].scope by {
            assert(t[i] == s[i] && t[j] == s[j]);
        }
        lemma_filter_keeps_distinct(t, p);
        let f = t.filter(p);
        assert forall|i: int| 0 <= i < s.filter(p).len() implies p(#[trigger] s.filter(p)[i])
            && s.contains(s.filter(p)[i]) by {
            if i < f.len() {
                assert(s.filter(p)[i] == f[i]);
                let k = choose|k: int| 0 <= k < t.len() && t[k] == f[i];
                assert(s[k] == f[i]);
            } else {
                assert(s.filter(p)[i] == s[s.len() - 1]);
            }
        }
        assert forall|i: int, j: int| 0 <= i < j < s.filter(p).len() implies (
        #[trigger] s.filter(p)[i]).slug != (#[trigger] s.filter(p)[j]).slug || s.filter(p)[i].scope
            != s.filter(p)[j].scope by {
            assert(s.filter(p)[i] == f[i]);
            if j < f.len() {
                assert(s.filter(p)[j] == f[j]);
            } else {
                let k = choose|k: int| 0 <= k < t.len() && t[k] == f[i];
                assert(s[k] == f[i] && s.filter(p)[j] == s[s.len() - 1]);
            }
        }
    }
}

/// Setting agents up and taking them out keeps the record to one entry for each
/// agent and scope.
pub proof fn law_one_entry_per_scope(s: Seq<AgentView>, a: AgentView)
    requires
        one_per_scope(s),
    ensures
        one_per_scope(without_entry(s, a.slug, a.scope).push(a)),
        one_per_scope(without_agent(s, a.slug)),
{
    let p = |e: AgentView| !(e.slug == a.slug && e.scope == a.scope);
    lemma_filter_keeps_distinct(s, p);
    lemma_filter_keeps_distinct(s, |e: AgentView| e.slug != a.slug);
    let t = without_entry(s, a.slug, a.scope);
    assert forall|i: int, j: int| 0 <= i < j < t.push(a).len() implies (#[trigger] t.push(a)[i]).slug
        != (#[trigger] t.push(a)[j]).slug || t.push(a)[i].scope != t.push(a)[j].scope by {
        assert(t.push(a)[i] == t[i]);
        assert(p(t[i]));
        if j < t.len() {
            assert(t.push(a)[j] == t[j]);
        }
    }
}

/// An agent that is set up and taken out again is gone, and taking it out once more
/// changes nothing. Where it was not set up before, the record is as it was.
pub proof fn law_add_then_remove(s: Seq<AgentView>, a: AgentView)
    ensures
        ({
            let after = without_agent(without_entry(s, a.slug, a.scope).push(a), a.slug);
            &&& after == without_agent(s, a.slug)
            &&& without_agent(after, a.slug) == after
            &&& (forall|i: int| 0 <= i < s.len() ==> (#[trigger] s[i]).slug != a.slug) ==> after == s
        }),
{
    let p = |e: AgentView| !(e.slug == a.slug && e.scope == a.scope);
    let q = |e: AgentView| e.slug != a.slug;
    lemma_filter_push(s.filter(p), a, q);
    lemma_filter_twice(s, p, q);
    let after = s.filter(q);
    assert forall|i: int| 0 <= i < after.len() implies q(#[trigger] after[i]) by {
        s.lemma_filter_pred(q, i);
    }
    lemma_filter_all(after, q);
    if forall|i: int| 0 <= i < s.len() ==> (#[trigger] s[i]).slug != a.slug {
        lemma_filter_all(s, q);
    }
}

proof fn lemma_filter_twice(s: Seq<AgentView>, p: spec_fn(AgentView) -> bool, q: spec_fn(
    AgentView,
) -> bool)
    requires
        forall|e: AgentView| #[trigger] q(e) ==> p(e),
    ensures
        s.filter(p).filter(q) == s.filter(q),
    decreases s.len(),
{
    reveal(Seq::filter);
    if s.len() > 0 {
        lemma_filter_twice(s.drop_last(), p, q);
        if p(s.last()) {
            lemma_filter_push(s.drop_last().filter(p), s.last(), q);
        } else {
            assert(!q(s.last()));
        }
    }
}

} // verus!
