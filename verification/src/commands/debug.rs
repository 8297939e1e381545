//! `knack debug`: what a bug report needs. No token is ever part of it.

use vstd::prelude::*;

use crate::json::{
    field, forms, get_text, json_list, member_views, no_members, text_or_null, text_part, values,
    with_member, Json, JsonForm, JsonView,
};
use crate::numbers::{decimal, u64_text};
use crate::output::Told;
use crate::text::{
    concat3, has_prefix, opt_str, opt_str_view, opt_view, pad_right, padded_right, pieces,
    push_line, same, slice_views, split, strip_prefix, trim, trimmed, views,
};

verus! {

/// The arguments of `knack debug`.
#[derive(Debug, Clone)]
pub struct DebugArgs {
    pub connectivity: bool,
}

// ---------------------------------------------------------------------------
// Hosts
// ---------------------------------------------------------------------------

/// Without the prefix, however often it stands there.
pub open spec fn without_prefixes(s: Seq<char>, p: Seq<char>) -> Seq<char>
    decreases s.len(),
{
    if p.len() > 0 && has_prefix(s, p) {
        without_prefixes(s.skip(p.len() as int), p)
    } else {
        s
    }
}

fn trim_prefixes<'a>(s: &'a str, p: &str) -> (r: &'a str)
    requires
        p@.len() > 0,
    ensures
        r@ == without_prefixes(s@, p@),
{
    let mut r = s;
    loop
        invariant
            p@.len() > 0,
            without_prefixes(s@, p@) == without_prefixes(r@, p@),
        decreases r@.len(),
    {
        match strip_prefix(r, p) {
            Some(t) => {
                r = t;
            },
            None => {
                return r;
            },
        }
    }
}

/// The host in an address: what stands before the first slash, behind the scheme.
pub open spec fn host_in(url: Seq<char>) -> Seq<char> {
    pieces(without_prefixes(without_prefixes(trimmed(url), "https://"@), "http://"@), "/"@)[0]
}

/// The host in an address, with its port if it has one.
pub fn host_of(url: &str) -> (r: String)
    ensures
        r@ == host_in(url@),
{
    proof {
        reveal_strlit("https://");
        reveal_strlit("http://");
        reveal_strlit("/");
    }
    let s = trim_prefixes(trim_prefixes(trim(url), "https://"), "http://");
    let parts = split(s, "/");
    proof {
        crate::text::lemma_pieces_nonempty(s@, "/"@);
        assert(slice_views(parts@).len() == parts@.len());
        assert(slice_views(parts@)[0] == parts@[0]@);
    }
    parts[0].to_owned()
}

/// A host has no slash in it.
pub proof fn law_hosts_have_no_slash(url: Seq<char>)
    ensures
        forall|i: int| 0 <= i < host_in(url).len() ==> (#[trigger] host_in(url)[i]) != '/',
{
    reveal_strlit("/");
    let s = without_prefixes(without_prefixes(trimmed(url), "https://"@), "http://"@);
    crate::text::lemma_find_from(s, "/"@, 0);
    match crate::text::find_first(s, "/"@) {
        Some(k) => {
            assert(host_in(url) =~= s.take(k));
            assert forall|i: int| 0 <= i < k implies (#[trigger] s.take(k)[i]) != '/' by {
                assert(!crate::text::occurs_at(s, "/"@, i));
                if s[i] == '/' {
                    assert(s.subrange(i, i + 1) =~= "/"@);
                }
            }
        },
        None => {
            assert(host_in(url) =~= s);
            assert forall|i: int| 0 <= i < s.len() implies (#[trigger] s[i]) != '/' by {
                assert(!crate::text::occurs_at(s, "/"@, i));
                if s[i] == '/' {
                    assert(s.subrange(i, i + 1) =~= "/"@);
                }
            }
        },
    }
}

/// A host that has to be reached, and what for.
#[derive(Debug)]
pub struct HostEntry {
    pub host: String,
    pub purpose: String,
}

pub open spec fn host_views(v: Seq<HostEntry>) -> Seq<(Seq<char>, Seq<char>)> {
    Seq::new(v.len(), |i: int| (v[i].host@, v[i].purpose@))
}

/// The hosts that are known without asking. Where bundles are stored, only the server
/// knows.
pub open spec fn known_hosts(api_base: Seq<char>) -> Seq<(Seq<char>, Seq<char>)> {
    seq![
        (host_in(api_base), "API"@),
        ("getknack.ai"@, "Web sign-in + docs"@),
        ("cli.getknack.ai"@, "CLI install/upgrade"@),
    ]
}

/// The hosts that are known without asking.
pub fn fallback_hosts(api_base: &str) -> (r: Vec<HostEntry>)
    ensures
        host_views(r@) == known_hosts(api_base@),
{
    let mut v: Vec<HostEntry> = Vec::new();
    v.push(HostEntry { host: host_of(api_base), purpose: "API".to_owned() });
    v.push(
        HostEntry { host: "getknack.ai".to_owned(), purpose: "Web sign-in + docs".to_owned() },
    );
    v.push(
        HostEntry {
            host: "cli.getknack.ai".to_owned(),
            purpose: "CLI install/upgrade".to_owned(),
        },
    );
    assert(host_views(v@) =~= known_hosts(api_base@));
    v
}

/// A purpose, which may be left out.
pub open spec fn purpose_of(v: JsonView) -> Option<Seq<char>> {
    match field(v, "purpose"@) {
        None => Some(seq![]),
        Some(JsonView::Text(s)) => Some(s),
        Some(_) => None,
    }
}

/// The host that a value describes, if it does.
pub open spec fn host_entry_of(v: JsonView) -> Option<(Seq<char>, Seq<char>)> {
    match (text_part(field(v, "host"@)), purpose_of(v)) {
        (Some(h), Some(p)) => Some((h, p)),
        _ => None,
    }
}

pub open spec fn all_hosts(s: Seq<JsonView>) -> bool {
    forall|i: int| 0 <= i < s.len() ==> host_entry_of(#[trigger] s[i]) is Some
}

/// The hosts that a value lists, if it does.
pub open spec fn hosts_of(v: JsonView) -> Option<Seq<(Seq<char>, Seq<char>)>> {
    match field(v, "hosts"@) {
        Some(JsonView::Array(s)) => if all_hosts(s) {
            Some(Seq::new(s.len(), |i: int| host_entry_of(s[i])->0))
        } else {
            None
        },
        _ => None,
    }
}

fn read_host(v: &Json) -> (r: Option<HostEntry>)
    ensures
        match r {
            Some(h) => host_entry_of(v.value()) == Some((h.host@, h.purpose@)),
            None => host_entry_of(v.value()) is None,
        },
{
    let purpose = match v.get("purpose") {
        None => {
            let s = String::new();
            assert(s@ =~= seq![]);
            Some(s)
        },
        Some(Json::Text(s)) => Some(s.clone()),
        Some(_) => None,
    };
    match (get_text(v.get("host")), purpose) {
        (Some(host), Some(purpose)) => Some(HostEntry { host, purpose }),
        _ => None,
    }
}

/// The hosts that a value lists, if it does.
pub fn read_hosts(v: &Json) -> (r: Option<Vec<HostEntry>>)
    ensures
        match r {
            Some(h) => hosts_of(v.value()) == Some(host_views(h@)),
            None => hosts_of(v.value()) is None,
        },
{
    match v.get("hosts") {
        Some(Json::Array(a)) => {
            proof {
                crate::json::lemma_array_value(*a);
            }
            let ghost s = values(a@);
            let mut out: Vec<HostEntry> = Vec::new();
            let mut i: usize = 0;
            while i < a.len()
                invariant
                    i <= a.len(),
                    s == values(a@),
                    field(v.value(), "hosts"@) == Some(JsonView::Array(s)),
                    out@.len() == i,
                    forall|j: int|
                        0 <= j < i ==> host_entry_of(#[trigger] s[j]) == Some(
                            (out@[j].host@, out@[j].purpose@),
                        ),
                decreases a.len() - i,
            {
                assert(s[i as int] == a@[i as int].value());
                match read_host(&a[i]) {
                    Some(h) => out.push(h),
                    None => {
                        assert(host_entry_of(s[i as int]) is None);
                        return None;
                    },
                }
                i += 1;
            }
            assert(host_views(out@) =~= Seq::new(s.len(), |i: int| host_entry_of(s[i])->0));
            Some(out)
        },
        _ => None,
    }
}

/// The hosts to try: those that the server lists, else those that are known without
/// it.
pub fn hosts_to_try(answer: Option<&Json>, api_base: &str) -> (r: (Vec<HostEntry>, &'static str))
    ensures
        match answer {
            Some(v) => match hosts_of(v.value()) {
                Some(h) => host_views(r.0@) == h && r.1@ == "api"@,
                None => host_views(r.0@) == known_hosts(api_base@) && r.1@ == "fallback"@,
            },
            None => host_views(r.0@) == known_hosts(api_base@) && r.1@ == "fallback"@,
        },
{
    match answer {
        Some(v) => match read_hosts(v) {
            Some(h) => {
                return (h, "api");
            },
            None => {},
        },
        None => {},
    }
    (fallback_hosts(api_base), "fallback")
}

/// How far trying a host came.
#[derive(Debug, Clone, Copy, PartialEq, Eq, Structural)]
pub enum ProbeStage {
    /// It answered.
    Reached,
    /// Its certificate was not trusted.
    Tls,
    /// It was not reached.
    Unreached,
}

/// What became of trying a host.
#[derive(Debug)]
pub struct ProbeResult {
    pub host: String,
    pub purpose: String,
    pub stage: ProbeStage,
    /// What the stage is called.
    pub label: String,
    pub http_status: Option<u16>,
    pub detail: Option<String>,
}

pub open spec fn status_json(o: Option<u16>) -> JsonView {
    match o {
        Some(n) => JsonView::Int(n as int),
        None => JsonView::Null,
    }
}

impl JsonForm for ProbeResult {
    open spec fn json(&self) -> JsonView {
        JsonView::Object(
            seq![
                ("host"@, JsonView::Text(self.host@)),
                ("purpose"@, JsonView::Text(self.purpose@)),
                ("ok"@, JsonView::Bool(self.stage == ProbeStage::Reached)),
                ("stage"@, JsonView::Text(self.label@)),
                ("http_status"@, status_json(self.http_status)),
                ("detail"@, text_or_null(opt_view(self.detail))),
            ],
        )
    }

    fn to_json(&self) -> (r: Json) {
        let status = match self.http_status {
            Some(n) => Json::Nat(n as u64),
            None => Json::Null,
        };
        let m = with_member(no_members(), "host", Json::text(self.host.as_str()));
        let m = with_member(m, "purpose", Json::text(self.purpose.as_str()));
        let m = with_member(m, "ok", Json::Bool(self.stage == ProbeStage::Reached));
        let m = with_member(m, "stage", Json::text(self.label.as_str()));
        let m = with_member(m, "http_status", status);
        let m = with_member(m, "detail", Json::opt_text(opt_str(&self.detail)));
        assert(member_views(m@) =~= self.json()->Object_0);
        Json::object(m)
    }
}

/// What people are told of a host.
pub open spec fn probe_line(p: ProbeResult) -> Seq<char> {
    let status = if p.stage == ProbeStage::Reached && p.http_status is Some {
        "OK (HTTP "@ + decimal(p.http_status->0 as nat) + ")"@
    } else {
        p.label@
    };
    "  "@ + padded_right(status, 13) + "  "@ + padded_right(p.host@, 46) + "  "@ + p.purpose@
}

/// What people are told of a host.
pub fn tell_probe(p: &ProbeResult) -> (r: String)
    ensures
        r@ == probe_line(*p),
{
    let status = match (p.stage, p.http_status) {
        (ProbeStage::Reached, Some(n)) => {
            let n = u64_text(n as u64);
            concat3("OK (HTTP ", n.as_str(), ")")
        },
        _ => p.label.clone(),
    };
    let status = pad_right(status.as_str(), 13);
    let host = pad_right(p.host.as_str(), 46);
    crate::text::concat6("  ", status.as_str(), "  ", host.as_str(), "  ", p.purpose.as_str())
}

/// Some certificate was not trusted, which a proxy that looks into connections causes.
pub open spec fn some_tls(results: Seq<ProbeResult>) -> bool {
    exists|i: int| 0 <= i < results.len() && (#[trigger] results[i]).stage == ProbeStage::Tls
}

/// Whether some certificate was not trusted.
pub fn any_tls(results: &Vec<ProbeResult>) -> (r: bool)
    ensures
        r == some_tls(results@),
{
    let mut i: usize = 0;
    while i < results.len()
        invariant
            i <= results.len(),
            forall|j: int| 0 <= j < i ==> (#[trigger] results@[j]).stage != ProbeStage::Tls,
        decreases results.len() - i,
    {
        if results[i].stage == ProbeStage::Tls {
            return true;
        }
        i += 1;
    }
    false
}

/// What is reported of the hosts.
pub open spec fn connectivity_report(source: Seq<char>, results: Seq<ProbeResult>) -> JsonView {
    JsonView::Object(
        seq![
            ("source"@, JsonView::Text(source)),
            ("connectivity"@, JsonView::Array(forms(results))),
        ],
    )
}

/// What people are told before the hosts.
pub open spec fn before_hosts(source: Seq<char>) -> Seq<Seq<char>> {
    if source == "fallback"@ {
        seq![
            "(couldn't fetch the host list from the API — probing locally"@,
            " known hosts; the bundle-storage host may be missing below)"@,
            ""@,
        ]
    } else {
        seq![""@]
    }
}

/// What people are told behind the hosts: what to do where a certificate was not
/// trusted.
pub open spec fn behind_hosts(tls: bool) -> Seq<Seq<char>> {
    if tls {
        seq![
            ""@,
            "One or more TLS handshakes failed. That's the signature of a"@,
            "TLS-inspecting proxy whose CA the CLI doesn't trust. Point knack"@,
            "at the corporate CA:"@,
            ""@,
            "    knack --cacert /path/to/corp-ca.pem auth login"@,
            "    # or: export KNACK_CA_BUNDLE=/path/to/corp-ca.pem"@,
            ""@,
        ]
    } else {
        seq![""@]
    }
}

/// What people are told of the hosts.
pub open spec fn connectivity_text(source: Seq<char>, results: Seq<ProbeResult>) -> Seq<Seq<char>> {
    before_hosts(source) + Seq::new(results.len(), |i: int| probe_line(results[i])) + behind_hosts(
        some_tls(results),
    )
}

fn push_text(out: &mut Vec<String>, line: &str)
    ensures
        views(final(out)@) == views(old(out)@).push(line@),
{
    push_line(out, line.to_owned());
}

fn push_advice(out: &mut Vec<String>, tls: bool)
    ensures
        views(final(out)@) == views(old(out)@) + behind_hosts(tls),
{
    let ghost was = views(out@);
    push_text(out, "");
    if tls {
        push_text(out, "One or more TLS handshakes failed. That's the signature of a");
        push_text(out, "TLS-inspecting proxy whose CA the CLI doesn't trust. Point knack");
        push_text(out, "at the corporate CA:");
        push_text(out, "");
        push_text(out, "    knack --cacert /path/to/corp-ca.pem auth login");
        push_text(out, "    # or: export KNACK_CA_BUNDLE=/path/to/corp-ca.pem");
        push_text(out, "");
    }
    assert(views(out@) =~= was + behind_hosts(tls));
}

fn connectivity_lines(source: &str, results: &Vec<ProbeResult>) -> (r: Vec<String>)
    ensures
        views(r@) == connectivity_text(source@, results@),
{
    let mut out: Vec<String> = Vec::new();
    assert(views(out@) =~= seq![]);
    if same(source, "fallback") {
        push_text(&mut out, "(couldn't fetch the host list from the API — probing locally");
        push_text(&mut out, " known hosts; the bundle-storage host may be missing below)");
    }
    push_text(&mut out, "");
    let ghost before = before_hosts(source@);
    let ghost all = Seq::new(results@.len(), |i: int| probe_line(results@[i]));
    assert(views(out@) =~= before + all.take(0));
    let mut i: usize = 0;
    while i < results.len()
        invariant
            i <= results.len(),
            all == Seq::new(results@.len(), |i: int| probe_line(results@[i])),
            views(out@) == before + all.take(i as int),
        decreases results.len() - i,
    {
        push_line(&mut out, tell_probe(&results[i]));
        i += 1;
        assert(views(out@) =~= before + all.take(i as int));
    }
    assert(all.take(i as int) =~= all);
    push_advice(&mut out, any_tls(results));
    out
}

/// What is told of the hosts that were tried.
pub fn connectivity(source: &str, results: &Vec<ProbeResult>) -> (r: Told)
    ensures
        r.report.value() == connectivity_report(source@, results@),
        views(r.lines@) == connectivity_text(source@, results@),
{
    let m = with_member(no_members(), "source", Json::text(source));
    let m = with_member(m, "connectivity", json_list(results));
    assert(member_views(m@) =~= connectivity_report(source@, results@)->Object_0);
    Told { report: Json::object(m), lines: connectivity_lines(source, results) }
}

// ---------------------------------------------------------------------------
// The report
// ---------------------------------------------------------------------------

/// What is known of this installation.
pub struct DebugFacts<'a> {
    pub version: &'a str,
    pub os: &'a str,
    pub arch: &'a str,
    pub api_base: &'a str,
    pub skills_dir: &'a str,
    pub keyring_service: &'a str,
    pub account: &'a str,
    pub token_stored: bool,
    pub token_given: bool,
    pub env_api_url: Option<&'a str>,
    pub env_skills_dir: Option<&'a str>,
    /// Whether `KNACK_AUTH_TOKEN` is set.
    pub env_token: bool,
    pub env_editor: Option<&'a str>,
    pub env_visual: Option<&'a str>,
}

/// What is reported of this installation. Of tokens only whether there is one.
pub open spec fn debug_report(f: DebugFacts) -> JsonView {
    JsonView::Object(
        seq![
            ("version"@, JsonView::Text(f.version@)),
            ("os"@, JsonView::Text(f.os@)),
            ("arch"@, JsonView::Text(f.arch@)),
            (
                "config"@,
                JsonView::Object(
                    seq![
                        ("api_base"@, JsonView::Text(f.api_base@)),
                        ("skills_dir"@, JsonView::Text(f.skills_dir@)),
                        ("keyring_service"@, JsonView::Text(f.keyring_service@)),
                        ("account"@, JsonView::Text(f.account@)),
                    ],
                ),
            ),
            (
                "auth"@,
                JsonView::Object(
                    seq![
                        ("token_present"@, JsonView::Bool(f.token_given || f.token_stored)),
                        ("via_override"@, JsonView::Bool(f.token_given)),
                    ],
                ),
            ),
            (
                "env_relevant"@,
                JsonView::Object(
                    seq![
                        ("KNACK_API_URL"@, text_or_null(opt_str_view(f.env_api_url))),
                        ("KNACK_SKILLS_DIR"@, text_or_null(opt_str_view(f.env_skills_dir))),
                        (
                            "KNACK_AUTH_TOKEN"@,
                            if f.env_token {
                                JsonView::Text("<set>"@)
                            } else {
                                JsonView::Null
                            },
                        ),
                        ("EDITOR"@, text_or_null(opt_str_view(f.env_editor))),
                        ("VISUAL"@, text_or_null(opt_str_view(f.env_visual))),
                    ],
                ),
            ),
        ],
    )
}

/// What is reported of this installation.
pub fn debug_json(f: &DebugFacts) -> (r: Json)
    ensures
        r.value() == debug_report(*f),
{
    let c = with_member(no_members(), "api_base", Json::text(f.api_base));
    let c = with_member(c, "skills_dir", Json::text(f.skills_dir));
    let c = with_member(c, "keyring_service", Json::text(f.keyring_service));
    let c = with_member(c, "account", Json::text(f.account));
    let a = with_member(no_members(), "token_present", Json::Bool(f.token_given || f.token_stored));
    let a = with_member(a, "via_override", Json::Bool(f.token_given));
    let token = if f.env_token {
        Json::text("<set>")
    } else {
        Json::Null
    };
    let e = with_member(no_members(), "KNACK_API_URL", Json::opt_text(f.env_api_url));
    let e = with_member(e, "KNACK_SKILLS_DIR", Json::opt_text(f.env_skills_dir));
    let e = with_member(e, "KNACK_AUTH_TOKEN", token);
    let e = with_member(e, "EDITOR", Json::opt_text(f.env_editor));
    let e = with_member(e, "VISUAL", Json::opt_text(f.env_visual));
    proof {
        let s = debug_report(*f)->Object_0;
        assert(member_views(c@) =~= s[3].1->Object_0);
        assert(member_views(a@) =~= s[4].1->Object_0);
        assert(member_views(e@) =~= s[5].1->Object_0);
    }
    let m = with_member(no_members(), "version", Json::text(f.version));
    let m = with_member(m, "os", Json::text(f.os));
    let m = with_member(m, "arch", Json::text(f.arch));
    let m = with_member(m, "config", Json::object(c));
    let m = with_member(m, "auth", Json::object(a));
    let m = with_member(m, "env_relevant", Json::object(e));
    assert(member_views(m@) =~= debug_report(*f)->Object_0);
    Json::object(m)
}

/// What people are told of this installation.
pub open spec fn debug_text(f: DebugFacts) -> Seq<Seq<char>> {
    seq![
        "knack v"@ + f.version@,
        "  os/arch     "@ + f.os@ + "/"@ + f.arch@,
        "  api         "@ + f.api_base@,
        "  skills_dir  "@ + f.skills_dir@,
        "  account     "@ + f.account@,
        "  token       "@ + (if f.token_given || f.token_stored {
            "present"@
        } else {
            "(not signed in)"@
        }),
    ]
}

/// What people are told of this installation.
pub fn debug_lines(f: &DebugFacts) -> (r: Vec<String>)
    ensures
        views(r@) == debug_text(*f),
{
    let mut out: Vec<String> = Vec::new();
    out.push(crate::errors::prefixed("knack v", f.version));
    out.push(crate::text::concat4("  os/arch     ", f.os, "/", f.arch));
    out.push(crate::errors::prefixed("  api         ", f.api_base));
    out.push(crate::errors::prefixed("  skills_dir  ", f.skills_dir));
    out.push(crate::errors::prefixed("  account     ", f.account));
    out.push(
        crate::errors::prefixed(
            "  token       ",
            if f.token_given || f.token_stored {
                "present"
            } else {
                "(not signed in)"
            },
        ),
    );
    assert(views(out@) =~= debug_text(*f));
    out
}

} // verus!
