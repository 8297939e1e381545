//! `knack sync`: what is left of the entries that were once written for each skill.

use vstd::prelude::*;

use crate::commands::install::installed::{AgentEntry, AgentView, Scope};
use crate::commands::install::targets::{
    find, skills_root, target_named, target_views, AgentTarget, Machine, MachineView, TargetView,
};
use crate::json::{
    forms, json_list, member_views, no_members, text_or_null, with_member, Json, JsonForm, JsonView,
};
use crate::numbers::{decimal, u64_text};
use crate::text::{concat4, opt_str, opt_view, pad_right, padded_right, views};

verus! {

/// The arguments of `knack sync`.
#[derive(Debug, Clone)]
pub struct SyncArgs {
    pub agent: Option<String>,
    pub all_detected: bool,
    pub dry_run: bool,
    pub purge: bool,
    pub global: bool,
}

/// What became of one agent.
#[derive(Debug, Clone)]
pub struct ShimResult {
    pub agent: String,
    pub path: String,
    pub status: String,
    pub reason: Option<String>,
}

/// What became of one agent, as a mathematical value.
#[verifier::ext_equal]
pub ghost struct ShimView {
    pub agent: Seq<char>,
    pub path: Seq<char>,
    pub status: Seq<char>,
    pub reason: Option<Seq<char>>,
}

impl View for ShimResult {
    type V = ShimView;

    open spec fn view(&self) -> ShimView {
        ShimView {
            agent: self.agent@,
            path: self.path@,
            status: self.status@,
            reason: opt_view(self.reason),
        }
    }
}

pub open spec fn shim_views(v: Seq<ShimResult>) -> Seq<ShimView> {
    Seq::new(v.len(), |i: int| v[i]@)
}

impl JsonForm for ShimResult {
    open spec fn json(&self) -> JsonView {
        JsonView::Object(
            seq![
                ("agent"@, JsonView::Text(self.agent@)),
                ("path"@, JsonView::Text(self.path@)),
                ("status"@, JsonView::Text(self.status@)),
                ("reason"@, text_or_null(opt_view(self.reason))),
            ],
        )
    }

    fn to_json(&self) -> (r: Json) {
        let m = with_member(no_members(), "agent", Json::text(self.agent.as_str()));
        let m = with_member(m, "path", Json::text(self.path.as_str()));
        let m = with_member(m, "status", Json::text(self.status.as_str()));
        let m = with_member(m, "reason", Json::opt_text(opt_str(&self.reason)));
        assert(member_views(m@) =~= self.json()->Object_0);
        Json::object(m)
    }
}

/// What became of all agents.
#[derive(Debug, Clone)]
pub struct SyncReport {
    pub written: Vec<ShimResult>,
    pub up_to_date: Vec<ShimResult>,
    pub removed: Vec<ShimResult>,
    pub skipped: Vec<ShimResult>,
}

/// Nothing was done.
pub open spec fn is_empty_report(r: SyncReport) -> bool {
    r.written@.len() == 0 && r.up_to_date@.len() == 0 && r.removed@.len() == 0 && r.skipped@.len() == 0
}

impl Default for SyncReport {
    fn default() -> (r: SyncReport)
        ensures
            is_empty_report(r),
    {
        SyncReport {
            written: Vec::new(),
            up_to_date: Vec::new(),
            removed: Vec::new(),
            skipped: Vec::new(),
        }
    }
}

/// What is done for a skill that was pulled or published: nothing, since agents find
/// skills by asking.
pub fn sync_one_skill(slug: &str, scope: Scope) -> (r: SyncReport)
    ensures
        is_empty_report(r),
{
    SyncReport::default()
}

// ---------------------------------------------------------------------------
// Purging
// ---------------------------------------------------------------------------

/// What became of purging one agent.
#[derive(Debug)]
pub enum Purged {
    /// It would be purged.
    Rehearsed,
    /// This many entries were removed.
    Removed(u64),
    Failed(String),
}

/// Where to purge for an entry: where the agent's skills are, if the agent is known
/// still and has a place.
pub open spec fn purge_root(
    all: Seq<TargetView>,
    e: AgentView,
    m: MachineView,
) -> Option<Seq<char>> {
    match target_named(all, e.slug) {
        Some(t) => skills_root(t, e.scope, m),
        None => None,
    }
}

/// Where to purge for an entry.
pub fn find_purge_root(all: &Vec<AgentTarget>, e: &AgentEntry, m: &Machine) -> (r: Option<String>)
    ensures
        opt_view(r) == purge_root(target_views(all@), e@, m@),
{
    match find(all, e.slug.as_str()) {
        Some(t) => t.shim_root(e.scope, m),
        None => None,
    }
}

/// One agent that was purged.
#[derive(Debug)]
pub struct PurgeStep {
    pub agent: String,
    pub path: String,
    pub purged: Purged,
}

/// What is told of an agent that was purged, if anything was removed.
pub open spec fn removal_of(s: PurgeStep) -> Option<ShimView> {
    match s.purged {
        Purged::Rehearsed => Some(
            ShimView { agent: s.agent@, path: s.path@, status: "would_purge"@, reason: None },
        ),
        Purged::Removed(n) => if n > 0 {
            Some(
                ShimView {
                    agent: s.agent@,
                    path: s.path@,
                    status: "purged_"@ + decimal(n as nat),
                    reason: None,
                },
            )
        } else {
            None
        },
        Purged::Failed(_) => None,
    }
}

/// What is told of an agent that could not be purged.
pub open spec fn failure_of(s: PurgeStep) -> Option<ShimView> {
    match s.purged {
        Purged::Failed(e) => Some(
            ShimView { agent: s.agent@, path: s.path@, status: "skipped"@, reason: Some(e@) },
        ),
        _ => None,
    }
}

/// What is told of the removals among the first `n`.
pub open spec fn removals(s: Seq<PurgeStep>, n: int) -> Seq<ShimView>
    decreases n,
{
    if n <= 0 {
        seq![]
    } else {
        match removal_of(s[n - 1]) {
            Some(x) => removals(s, n - 1).push(x),
            None => removals(s, n - 1),
        }
    }
}

/// What is told of the failures among the first `n`.
pub open spec fn failures(s: Seq<PurgeStep>, n: int) -> Seq<ShimView>
    decreases n,
{
    if n <= 0 {
        seq![]
    } else {
        match failure_of(s[n - 1]) {
            Some(x) => failures(s, n - 1).push(x),
            None => failures(s, n - 1),
        }
    }
}

fn tell(s: &PurgeStep, status: String, reason: Option<String>) -> (r: ShimResult)
    ensures
        r@ == (ShimView { agent: s.agent@, path: s.path@, status: status@, reason: opt_view(reason) }),
{
    ShimResult { agent: s.agent.clone(), path: s.path.clone(), status, reason }
}

fn push_result(out: &mut Vec<ShimResult>, x: ShimResult)
    ensures
        shim_views(final(out)@) == shim_views(old(out)@).push(x@),
{
    let ghost was = shim_views(out@);
    let ghost y = x@;
    out.push(x);
    assert(shim_views(out@) =~= was.push(y));
}

/// What became of all agents, by what became of each.
pub fn purge_all(steps: &Vec<PurgeStep>) -> (r: SyncReport)
    ensures
        r.written@.len() == 0,
        r.up_to_date@.len() == 0,
        shim_views(r.removed@) == removals(steps@, steps@.len() as int),
        shim_views(r.skipped@) == failures(steps@, steps@.len() as int),
{
    let mut removed: Vec<ShimResult> = Vec::new();
    let mut skipped: Vec<ShimResult> = Vec::new();
    let mut i: usize = 0;
    assert(shim_views(removed@) =~= seq![]);
    assert(shim_views(skipped@) =~= seq![]);
    while i < steps.len()
        invariant
            i <= steps.len(),
            shim_views(removed@) == removals(steps@, i as int),
            shim_views(skipped@) == failures(steps@, i as int),
        decreases steps.len() - i,
    {
        let s = &steps[i];
        match &s.purged {
            Purged::Rehearsed => {
                push_result(&mut removed, tell(s, "would_purge".to_owned(), None));
            },
            Purged::Removed(n) => {
                if *n > 0 {
                    let count = u64_text(*n);
                    push_result(
                        &mut removed,
                        tell(s, crate::errors::prefixed("purged_", count.as_str()), None),
                    );
                }
            },
            Purged::Failed(e) => {
                push_result(&mut skipped, tell(s, "skipped".to_owned(), Some(e.clone())));
            },
        }
        i += 1;
    }
    SyncReport { written: Vec::new(), up_to_date: Vec::new(), removed, skipped }
}

// ---------------------------------------------------------------------------
// Reports
// ---------------------------------------------------------------------------

/// What `knack sync` reports.
pub open spec fn sync_report(r: SyncReport, dry_run: bool) -> JsonView {
    JsonView::Object(
        seq![
            ("dry_run"@, JsonView::Bool(dry_run)),
            ("written"@, JsonView::Array(forms(r.written@))),
            ("up_to_date"@, JsonView::Array(forms(r.up_to_date@))),
            ("removed"@, JsonView::Array(forms(r.removed@))),
            ("skipped"@, JsonView::Array(forms(r.skipped@))),
        ],
    )
}

/// What `knack sync` reports.
pub fn report_json(report: &SyncReport, dry_run: bool) -> (r: Json)
    ensures
        r.value() == sync_report(*report, dry_run),
{
    let m = with_member(no_members(), "dry_run", Json::Bool(dry_run));
    let m = with_member(m, "written", json_list(&report.written));
    let m = with_member(m, "up_to_date", json_list(&report.up_to_date));
    let m = with_member(m, "removed", json_list(&report.removed));
    let m = with_member(m, "skipped", json_list(&report.skipped));
    assert(member_views(m@) =~= sync_report(*report, dry_run)->Object_0);
    Json::object(m)
}

pub open spec fn written_line(r: ShimView) -> Seq<char> {
    "Wrote   "@ + padded_right(r.agent, 10) + " → "@ + r.path
}

pub open spec fn current_line(r: ShimView) -> Seq<char> {
    "Skipped "@ + padded_right(r.agent, 10) + " (up to date) "@ + r.path
}

pub open spec fn removed_line(r: ShimView) -> Seq<char> {
    "Removed "@ + padded_right(r.agent, 10) + " "@ + r.path
}

pub open spec fn skipped_line(r: ShimView) -> Seq<char> {
    "Skipped "@ + padded_right(r.agent, 10) + " ("@ + (match r.reason {
        Some(s) => s,
        None => "?"@,
    }) + ") "@ + r.path
}

/// What people are told of `knack sync`.
pub open spec fn report_text(r: SyncReport, dry_run: bool) -> Seq<Seq<char>> {
    let first = if dry_run {
        seq!["[dry-run]"@]
    } else {
        seq![]
    };
    let all = first + shim_views(r.written@).map_values(|x: ShimView| written_line(x)) + shim_views(
        r.up_to_date@,
    ).map_values(|x: ShimView| current_line(x)) + shim_views(r.removed@).map_values(
        |x: ShimView| removed_line(x),
    ) + shim_views(r.skipped@).map_values(|x: ShimView| skipped_line(x));
    if is_empty_report(r) {
        all.push("Nothing to sync."@)
    } else {
        all
    }
}

#[derive(Clone, Copy, PartialEq, Eq, Structural)]
enum Kind {
    Written,
    Current,
    Removed,
    Skipped,
}

spec fn line_of(k: Kind, x: ShimView) -> Seq<char> {
    match k {
        Kind::Written => written_line(x),
        Kind::Current => current_line(x),
        Kind::Removed => removed_line(x),
        Kind::Skipped => skipped_line(x),
    }
}

fn tell_line(k: Kind, x: &ShimResult) -> (r: String)
    ensures
        r@ == line_of(k, x@),
{
    let agent = pad_right(x.agent.as_str(), 10);
    let path = x.path.as_str();
    match k {
        Kind::Written => concat4("Wrote   ", agent.as_str(), " → ", path),
        Kind::Current => concat4("Skipped ", agent.as_str(), " (up to date) ", path),
        Kind::Removed => concat4("Removed ", agent.as_str(), " ", path),
        Kind::Skipped => {
            let reason = match &x.reason {
                Some(s) => s.as_str(),
                None => "?",
            };
            let mut r = concat4("Skipped ", agent.as_str(), " (", reason);
            r.append(") ");
            r.append(path);
            r
        },
    }
}

fn tell_lines(out: &mut Vec<String>, k: Kind, v: &Vec<ShimResult>)
    ensures
        views(final(out)@) == views(old(out)@) + shim_views(v@).map_values(
            |x: ShimView| line_of(k, x),
        ),
{
    let ghost was = views(out@);
    let ghost s = shim_views(v@);
    let mut i: usize = 0;
    assert(was =~= was + s.take(0).map_values(|x: ShimView| line_of(k, x)));
    while i < v.len()
        invariant
            i <= v.len(),
            s == shim_views(v@),
            views(out@) == was + s.take(i as int).map_values(|x: ShimView| line_of(k, x)),
        decreases v.len() - i,
    {
        let ghost before = views(out@);
        out.push(tell_line(k, &v[i]));
        proof {
            let f = |x: ShimView| line_of(k, x);
            assert(views(out@) =~= before.push(line_of(k, s[i as int])));
            assert(s.take(i + 1).map_values(f) =~= s.take(i as int).map_values(f).push(f(s[i as int])));
            assert(views(out@) =~= was + s.take(i + 1).map_values(f));
        }
        i += 1;
    }
    assert(s.take(i as int) =~= s);
}

/// What people are told of `knack sync`.
pub fn emit_report(report: &SyncReport, dry_run: bool) -> (r: Vec<String>)
    ensures
        views(r@) == report_text(*report, dry_run),
{
    let mut out: Vec<String> = Vec::new();
    if dry_run {
        out.push("[dry-run]".to_owned());
        assert(views(out@) =~= seq!["[dry-run]"@]);
    } else {
        assert(views(out@) =~= seq![]);
    }
    tell_lines(&mut out, Kind::Written, &report.written);
    tell_lines(&mut out, Kind::Current, &report.up_to_date);
    tell_lines(&mut out, Kind::Removed, &report.removed);
    tell_lines(&mut out, Kind::Skipped, &report.skipped);
    proof {
        let w = shim_views(report.written@);
        let u = shim_views(report.up_to_date@);
        let d = shim_views(report.removed@);
        let s = shim_views(report.skipped@);
        assert(w.map_values(|x: ShimView| line_of(Kind::Written, x)) =~= w.map_values(
            |x: ShimView| written_line(x),
        ));
        assert(u.map_values(|x: ShimView| line_of(Kind::Current, x)) =~= u.map_values(
            |x: ShimView| current_line(x),
        ));
        assert(d.map_values(|x: ShimView| line_of(Kind::Removed, x)) =~= d.map_values(
            |x: ShimView| removed_line(x),
        ));
        assert(s.map_values(|x: ShimView| line_of(Kind::Skipped, x)) =~= s.map_values(
            |x: ShimView| skipped_line(x),
        ));
    }
    if report.written.len() == 0 && report.up_to_date.len() == 0 && report.removed.len() == 0
        && report.skipped.len() == 0 {
        let ghost was = views(out@);
        out.push("Nothing to sync.".to_owned());
        assert(views(out@) =~= was.push("Nothing to sync."@));
    }
    out
}

} // verus!
