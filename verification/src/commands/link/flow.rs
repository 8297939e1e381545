//! What comes of a skill that was linked, linked again or unlinked: what is kept of it in
//! the record, and what people are told.

use vstd::prelude::*;

use crate::api::request::pair_views;
use crate::commands::install::installed::Scope;
use crate::commands::install::linked::{self, without_link, LinkView, LinkedRecord, LinkedView};
use crate::commands::link::{
    link_lines, link_report, link_report_json, link_report_lines, linked_at, other_scope,
    outcome_views, precedence_note, precedence_warning, unlink_lines, unlink_report,
    unlink_report_json, unlink_text, Materialized, WriteResult,
};
use crate::output::Told;
use crate::text::{clone_strings, concat3, opt_str, opt_view, views};

verus! {

/// The record with a skill in a scope at a version, in place of what was there.
pub open spec fn relinked(
    r: LinkedView,
    slug: Seq<char>,
    version: Seq<char>,
    scope: Scope,
    agents: Seq<Seq<char>>,
) -> LinkedView {
    LinkedView {
        skills: without_link(r.skills, slug, scope).push(LinkView { slug, version, scope, agents }),
        ..r
    }
}

/// Keeps in the record what was written, if anything was. Whether anything was.
pub fn relink_to_latest(
    rec: &mut LinkedRecord,
    skill: &Materialized,
    scope: Scope,
    write: &WriteResult,
) -> (r: bool)
    ensures
        r == (write.written_agents@.len() > 0),
        final(rec)@ == (if write.written_agents@.len() > 0 {
            relinked(old(rec)@, skill.slug@, skill.version@, scope, views(write.written_agents@))
        } else {
            old(rec)@
        }),
{
    if write.written_agents.len() == 0 {
        return false;
    }
    let agents = clone_strings(&write.written_agents);
    linked::add(rec, skill.slug.as_str(), skill.version.as_str(), scope, agents);
    true
}

/// What came of a link.
#[derive(Debug)]
pub struct LinkDone {
    /// The record has changed.
    pub recorded: bool,
    pub told: Told,
    /// What is told of a directory that had to be made.
    pub restart: Option<String>,
}

/// The note on precedence that is due: none where nothing was written.
pub open spec fn note_due(recorded: bool, r: LinkedView, slug: Seq<char>, scope: Scope) -> Option<
    Seq<char>,
> {
    if recorded && linked_at(r.skills, slug, other_scope(scope)) {
        Some(precedence_note(slug, scope))
    } else {
        None
    }
}

/// What is told of a directory that had to be made, with an agent for an example.
pub open spec fn restart_note(example: Seq<char>) -> Seq<char> {
    "a new agent skills directory was created; restart the agent (e.g. "@ + example
        + ") so it watches the new directory and the slash command appears."@
}

/// What comes of a link: it is kept in the record where something was written, and a
/// rehearsal keeps nothing.
pub fn run_link(
    rec: &mut LinkedRecord,
    skill: &Materialized,
    scope: Scope,
    print: bool,
    write: &WriteResult,
    example: &str,
) -> (r: LinkDone)
    ensures
        r.recorded == (!print && write.written_agents@.len() > 0),
        final(rec)@ == (if r.recorded {
            relinked(old(rec)@, skill.slug@, skill.version@, scope, views(write.written_agents@))
        } else {
            old(rec)@
        }),
        r.told.report.value() == link_report(
            skill.slug@,
            skill.version@,
            scope,
            outcome_views(write.outcomes@),
            print,
            write.created_top_level_dir,
            note_due(r.recorded, final(rec)@, skill.slug@, scope),
        ),
        views(r.told.lines@) == link_lines(
            skill.slug@,
            outcome_views(write.outcomes@),
            print,
            note_due(r.recorded, final(rec)@, skill.slug@, scope),
        ),
        r.restart is Some <==> write.created_top_level_dir && !print,
        r.restart matches Some(s) ==> s@ == restart_note(example@),
{
    let recorded = if print {
        false
    } else {
        relink_to_latest(rec, skill, scope, write)
    };
    let note = if recorded {
        precedence_warning(&rec.skills, skill.slug.as_str(), scope)
    } else {
        None
    };
    let report = link_report_json(
        skill.slug.as_str(),
        skill.version.as_str(),
        scope,
        &write.outcomes,
        print,
        write.created_top_level_dir,
        opt_str(&note),
    );
    let lines = link_report_lines(skill.slug.as_str(), &write.outcomes, print, opt_str(&note));
    let restart = if write.created_top_level_dir && !print {
        Some(
            concat3(
                "a new agent skills directory was created; restart the agent (e.g. ",
                example,
                ") so it watches the new directory and the slash command appears.",
            ),
        )
    } else {
        None
    };
    LinkDone { recorded, told: Told { report, lines }, restart }
}

// ---------------------------------------------------------------------------
// Unlinking
// ---------------------------------------------------------------------------

/// What was tried for one agent.
#[derive(Debug)]
pub struct UnlinkStep {
    pub agent: &'static str,
    /// Where the agent's skills are put, if anywhere.
    pub root: Option<String>,
    pub removed: bool,
}

/// The agents among the first `n` that a skill was removed from, and where it was.
pub open spec fn removed_from(steps: Seq<UnlinkStep>, n: int) -> Seq<(Seq<char>, Seq<char>)>
    decreases n,
{
    if n <= 0 {
        seq![]
    } else {
        match opt_view(steps[n - 1].root) {
            Some(p) if steps[n - 1].removed => removed_from(steps, n - 1).push(
                (steps[n - 1].agent@, p),
            ),
            _ => removed_from(steps, n - 1),
        }
    }
}

/// What comes of unlinking a skill: it is gone from the record, whatever was found on
/// disk.
pub fn run_unlink(
    rec: &mut LinkedRecord,
    slug: &str,
    scope: Scope,
    steps: &Vec<UnlinkStep>,
) -> (r: Told)
    ensures
        final(rec)@ == (LinkedView {
            skills: without_link(old(rec)@.skills, slug@, scope),
            ..old(rec)@
        }),
        r.report.value() == unlink_report(
            slug@,
            scope,
            removed_from(steps@, steps@.len() as int),
        ),
        views(r.lines@) == unlink_text(slug@, scope, removed_from(steps@, steps@.len() as int)),
{
    let mut removed: Vec<(String, String)> = Vec::new();
    let mut i: usize = 0;
    assert(pair_views(removed@) =~= seq![]);
    while i < steps.len()
        invariant
            i <= steps.len(),
            pair_views(removed@) == removed_from(steps@, i as int),
        decreases steps.len() - i,
    {
        let ghost was = pair_views(removed@);
        match &steps[i].root {
            Some(p) => {
                if steps[i].removed {
                    removed.push((steps[i].agent.to_owned(), p.clone()));
                    assert(pair_views(removed@) =~= was.push((steps@[i as int].agent@, p@)));
                }
            },
            None => {},
        }
        i += 1;
    }
    linked::remove(rec, slug, scope);
    Told {
        report: unlink_report_json(slug, scope, &removed),
        lines: unlink_lines(slug, scope, &removed),
    }
}

// ---------------------------------------------------------------------------
// Updating
// ---------------------------------------------------------------------------

/// The skills among the first `n` that were linked again, with their versions.
pub open spec fn updated_of(
    due: Seq<(Seq<char>, Seq<char>)>,
    relinked: Seq<bool>,
    n: int,
) -> Seq<Seq<char>>
    decreases n,
{
    if n <= 0 {
        seq![]
    } else if relinked[n - 1] {
        updated_of(due, relinked, n - 1).push(due[n - 1].0 + "@"@ + due[n - 1].1)
    } else {
        updated_of(due, relinked, n - 1)
    }
}

/// The skills that were updated, by which of those that were due were linked again.
pub fn updated(due: &Vec<(String, String)>, relinked: &Vec<bool>) -> (r: Vec<String>)
    requires
        due@.len() == relinked@.len(),
    ensures
        views(r@) == updated_of(pair_views(due@), relinked@, due@.len() as int),
{
    let ghost d = pair_views(due@);
    let mut out: Vec<String> = Vec::new();
    let mut i: usize = 0;
    assert(views(out@) =~= seq![]);
    while i < due.len()
        invariant
            i <= due.len(),
            due@.len() == relinked@.len(),
            d == pair_views(due@),
            views(out@) == updated_of(d, relinked@, i as int),
        decreases due.len() - i,
    {
        if relinked[i] {
            let ghost was = views(out@);
            out.push(concat3(due[i].0.as_str(), "@", due[i].1.as_str()));
            assert(views(out@) =~= was.push(d[i as int].0 + "@"@ + d[i as int].1));
        }
        i += 1;
    }
    out
}

// ---------------------------------------------------------------------------
// Laws
// ---------------------------------------------------------------------------

/// A skill that was linked is in the record at its version, and the other scope is not
/// touched by it.
pub proof fn law_links_are_kept_by_scope(
    r: LinkedView,
    slug: Seq<char>,
    version: Seq<char>,
    scope: Scope,
    agents: Seq<Seq<char>>,
)
    ensures
        linked_at(relinked(r, slug, version, scope, agents).skills, slug, scope),
        linked_at(relinked(r, slug, version, scope, agents).skills, slug, other_scope(scope))
            == linked_at(r.skills, slug, other_scope(scope)),
{
    let kept = without_link(r.skills, slug, scope);
    let all = relinked(r, slug, version, scope, agents).skills;
    assert(all[all.len() - 1].slug == slug && all[all.len() - 1].scope == scope);
    law_unlinking_keeps_the_other_scope(r.skills, slug, scope);
    let other = other_scope(scope);
    if linked_at(all, slug, other) {
        let i = choose|i: int|
            0 <= i < all.len() && (#[trigger] all[i]).slug == slug && all[i].scope == other;
        assert(i < kept.len());
        assert(kept[i].slug == slug && kept[i].scope == other);
    }
    if linked_at(kept, slug, other) {
        let i = choose|i: int|
            0 <= i < kept.len() && (#[trigger] kept[i]).slug == slug && kept[i].scope == other;
        assert(all[i].slug == slug && all[i].scope == other);
    }
}

/// A skill that was unlinked in a scope is not linked there any more, and stays linked in
/// the other scope where it was.
pub proof fn law_unlinking_keeps_the_other_scope(s: Seq<LinkView>, slug: Seq<char>, scope: Scope)
    ensures
        !linked_at(without_link(s, slug, scope), slug, scope),
        linked_at(without_link(s, slug, scope), slug, other_scope(scope)) == linked_at(
            s,
            slug,
            other_scope(scope),
        ),
    decreases s.len(),
{
    reveal(Seq::filter);
    if s.len() > 0 {
        let rest = s.drop_last();
        let x = s.last();
        let other = other_scope(scope);
        law_unlinking_keeps_the_other_scope(rest, slug, scope);
        let a = without_link(rest, slug, scope);
        let b = without_link(s, slug, scope);
        assert(b == (if !(x.slug == slug && x.scope == scope) {
            a.push(x)
        } else {
            a
        }));
        if linked_at(b, slug, scope) {
            let i = choose|i: int|
                0 <= i < b.len() && (#[trigger] b[i]).slug == slug && b[i].scope == scope;
            assert(i < a.len() ==> a[i].slug == slug && a[i].scope == scope);
        }
        if linked_at(s, slug, other) {
            let i = choose|i: int|
                0 <= i < s.len() && (#[trigger] s[i]).slug == slug && s[i].scope == other;
            if i < rest.len() {
                assert(rest[i].slug == slug && rest[i].scope == other);
                let j = choose|j: int|
                    0 <= j < a.len() && (#[trigger] a[j]).slug == slug && a[j].scope == other;
                assert(b[j].slug == slug && b[j].scope == other);
            } else {
                assert(b[b.len() - 1].slug == slug && b[b.len() - 1].scope == other);
            }
        }
        if linked_at(b, slug, other) {
            let j = choose|j: int|
                0 <= j < b.len() && (#[trigger] b[j]).slug == slug && b[j].scope == other;
            if j < a.len() {
                assert(a[j].slug == slug && a[j].scope == other);
                let i = choose|i: int|
                    0 <= i < rest.len() && (#[trigger] rest[i]).slug == slug && rest[i].scope
                        == other;
                assert(s[i].slug == slug && s[i].scope == other);
            } else {
                assert(s[s.len() - 1].slug == slug && s[s.len() - 1].scope == other);
            }
        }
    }
}

} // verus!
