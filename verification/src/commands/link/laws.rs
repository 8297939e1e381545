//! What linking, checking and updating do, skill by skill and agent by agent.

use vstd::prelude::*;
use vstd::utf8::encode_utf8;

use crate::commands::install::installed::{AgentView, Scope};
use crate::commands::install::linked::{without_link, LinkView, LinkedView};
use crate::commands::install::targets::{target_index, target_named, ShimStyle, TargetView};
use crate::commands::link::flow::{relinked, removed_from, updated_of, UnlinkStep};
use crate::commands::link::{
    check_text, content_at, destination, drifted, known_targets, linked_version, no_update_check, notice_json,
    notice_text, other_scope, outcome_json, scope_of, text_files, update_text, OutcomeView, notice_due, notice_for, notices_for, outdated,
    step_outcome, targets_named, written_names, NoticeView, Upstream, WritePlan, WriteStep,
};
use crate::config::{below, LinkScope};
use crate::json::{text_or_null, JsonView};
use crate::picks::{lemma_picked, lemma_picked_contains, positions};
use crate::text::{ascii_lower, trimmed};

verus! {

// ---------------------------------------------------------------------------
// Updating
// ---------------------------------------------------------------------------

proof fn lemma_outdated(
    s: Seq<LinkView>,
    slugs: Seq<Seq<char>>,
    latest: Seq<Option<Seq<char>>>,
    n: int,
    f: spec_fn(int) -> Option<(Seq<char>, Seq<char>)>,
)
    requires
        0 <= n <= slugs.len(),
        n <= latest.len(),
        forall|i: int| #[trigger]
            f(i) == (if latest[i] is Some && drifted(s, slugs[i], latest[i]->0) {
                Some((slugs[i], latest[i]->0))
            } else {
                None
            }),
    ensures
        outdated(s, slugs, latest, n) == positions(n).filter_map(f),
    decreases n,
{
    lemma_picked(n, f);
    if n > 0 {
        lemma_outdated(s, slugs, latest, n - 1, f);
    }
}

/// Exactly the skills of which a link stands at another version than the latest are
/// updated, each to the latest version, in the order in which they are given.
pub proof fn law_all_that_drifted_is_updated(
    s: Seq<LinkView>,
    slugs: Seq<Seq<char>>,
    latest: Seq<Option<Seq<char>>>,
)
    requires
        slugs.len() == latest.len(),
    ensures
        outdated(s, slugs, latest, slugs.len() as int) == positions(slugs.len() as int).filter_map(
            |i: int|
                if latest[i] is Some && (exists|j: int|
                    0 <= j < s.len() && (#[trigger] s[j]).slug == slugs[i] && s[j].version
                        != latest[i]->0) {
                    Some((slugs[i], latest[i]->0))
                } else {
                    None
                },
        ),
{
    let f = |i: int|
        if latest[i] is Some && (exists|j: int|
            0 <= j < s.len() && (#[trigger] s[j]).slug == slugs[i] && s[j].version
                != latest[i]->0) {
            Some((slugs[i], latest[i]->0))
        } else {
            None
        };
    lemma_outdated(s, slugs, latest, slugs.len() as int, f);
}

/// A skill with a link at another version than the latest is among those that are updated.
pub proof fn law_a_drifted_skill_is_updated(
    s: Seq<LinkView>,
    slugs: Seq<Seq<char>>,
    latest: Seq<Option<Seq<char>>>,
    k: int,
    v: Seq<char>,
    j: int,
)
    requires
        slugs.len() == latest.len(),
        0 <= k < slugs.len(),
        latest[k] == Some(v),
        0 <= j < s.len(),
        s[j].slug == slugs[k],
        s[j].version != v,
    ensures
        outdated(s, slugs, latest, slugs.len() as int).contains((slugs[k], v)),
{
    let f = |i: int|
        if latest[i] is Some && drifted(s, slugs[i], latest[i]->0) {
            Some((slugs[i], latest[i]->0))
        } else {
            None
        };
    lemma_outdated(s, slugs, latest, slugs.len() as int, f);
    assert(s[j].slug == slugs[k]);
    assert(f(k) == Some((slugs[k], v)));
    lemma_picked_contains(slugs.len() as int, f, (slugs[k], v));
}

// ---------------------------------------------------------------------------
// Notices
// ---------------------------------------------------------------------------

proof fn lemma_first_link(s: Seq<LinkView>, slug: Seq<char>, from: int, k: int)
    requires
        0 <= from <= k < s.len(),
        s[k].slug == slug,
        forall|i: int| from <= i < k ==> (#[trigger] s[i]).slug != slug,
    ensures
        linked_version(s, slug, from) == Some(s[k].version),
    decreases k - from,
{
    if from < k {
        lemma_first_link(s, slug, from + 1, k);
    }
}

proof fn lemma_no_link(s: Seq<LinkView>, slug: Seq<char>, from: int)
    requires
        0 <= from,
        forall|i: int| from <= i < s.len() ==> (#[trigger] s[i]).slug != slug,
    ensures
        linked_version(s, slug, from) is None,
    decreases s.len() - from,
{
    if from < s.len() {
        lemma_no_link(s, slug, from + 1);
    }
}

/// A notice is due for a skill whose first link stands at another version than the latest,
/// and it tells both versions and who published the skill.
pub proof fn law_notices_tell_of_the_first_link(
    s: Seq<LinkView>,
    slug: Seq<char>,
    latest: Seq<char>,
    username: Option<Seq<char>>,
    team: bool,
    k: int,
)
    requires
        0 <= k < s.len(),
        s[k].slug == slug,
        forall|i: int| 0 <= i < k ==> (#[trigger] s[i]).slug != slug,
    ensures
        notice_due(s, slug, latest, username, team) == (if s[k].version == latest {
            None
        } else {
            Some(
                NoticeView {
                    slug,
                    have: s[k].version,
                    latest,
                    author: match username {
                        Some(u) if u.len() > 0 => u,
                        _ => if team {
                            "your team"@
                        } else {
                            "the author"@
                        },
                    },
                },
            )
        }),
{
    lemma_first_link(s, slug, 0, k);
}

/// No notice is due for a skill that is not linked.
pub proof fn law_no_notice_without_a_link(
    s: Seq<LinkView>,
    slug: Seq<char>,
    latest: Seq<char>,
    username: Option<Seq<char>>,
    team: bool,
)
    requires
        forall|i: int| 0 <= i < s.len() ==> (#[trigger] s[i]).slug != slug,
    ensures
        notice_due(s, slug, latest, username, team) is None,
{
    lemma_no_link(s, slug, 0);
}

proof fn lemma_notices(
    s: Seq<LinkView>,
    slugs: Seq<Seq<char>>,
    ups: Seq<Option<Upstream>>,
    n: int,
    f: spec_fn(int) -> Option<NoticeView>,
)
    requires
        0 <= n <= slugs.len(),
        n <= ups.len(),
        forall|i: int| #[trigger] f(i) == notice_for(s, slugs[i], ups[i]),
    ensures
        notices_for(s, slugs, ups, n) == positions(n).filter_map(f),
    decreases n,
{
    lemma_picked(n, f);
    if n > 0 {
        lemma_notices(s, slugs, ups, n - 1, f);
    }
}

/// Every notice that is due is told, in the order of the skills: one for each skill that
/// was found and published, where one is due.
pub proof fn law_every_due_notice_is_told(
    s: Seq<LinkView>,
    slugs: Seq<Seq<char>>,
    ups: Seq<Option<Upstream>>,
)
    requires
        slugs.len() == ups.len(),
    ensures
        notices_for(s, slugs, ups, slugs.len() as int) == positions(slugs.len() as int).filter_map(
            |i: int|
                match ups[i] {
                    Some(u) => match u.latest {
                        Some(v) => notice_due(
                            s,
                            slugs[i],
                            v@,
                            match u.owner_username {
                                Some(o) => Some(o@),
                                None => None,
                            },
                            u.owner_team,
                        ),
                        None => None,
                    },
                    None => None,
                },
        ),
{
    let f = |i: int|
        match ups[i] {
            Some(u) => match u.latest {
                Some(v) => notice_due(
                    s,
                    slugs[i],
                    v@,
                    match u.owner_username {
                        Some(o) => Some(o@),
                        None => None,
                    },
                    u.owner_team,
                ),
                None => None,
            },
            None => None,
        };
    lemma_notices(s, slugs, ups, slugs.len() as int, f);
}

// ---------------------------------------------------------------------------
// Agents
// ---------------------------------------------------------------------------

proof fn lemma_target_index(all: Seq<TargetView>, name: Seq<char>, from: int)
    requires
        0 <= from,
    ensures
        match target_index(all, name, from) {
            Some(i) => from <= i < all.len() && all[i].name == name && forall|j: int|
                from <= j < i ==> (#[trigger] all[j]).name != name,
            None => forall|j: int| from <= j < all.len() ==> (#[trigger] all[j]).name != name,
        },
    decreases all.len() - from,
{
    if from < all.len() && all[from].name != name {
        lemma_target_index(all, name, from + 1);
    }
}

/// An agent that is found by name is one of the list, and has the name; where none is
/// found, none has it.
pub proof fn law_names_lead_to_their_agents(all: Seq<TargetView>, name: Seq<char>)
    ensures
        match target_named(all, name) {
            Some(t) => t.name == name && all.contains(t),
            None => forall|j: int| 0 <= j < all.len() ==> (#[trigger] all[j]).name != name,
        },
{
    lemma_target_index(all, name, 0);
    if let Some(i) = target_index(all, name, 0) {
        assert(all.contains(all[i]));
    }
}

proof fn lemma_known(all: Seq<TargetView>, entries: Seq<AgentView>, n: int, t: TargetView)
    requires
        0 <= n <= entries.len(),
    ensures
        known_targets(all, entries, n).contains(t) <==> exists|i: int|
            0 <= i < n && target_named(all, (#[trigger] entries[i]).slug) == Some(t),
    decreases n,
{
    if n > 0 {
        lemma_known(all, entries, n - 1, t);
        let was = known_targets(all, entries, n - 1);
        let now = known_targets(all, entries, n);
        let named = target_named(all, entries[n - 1].slug);
        law_names_lead_to_their_agents(all, entries[n - 1].slug);
        if was.contains(t) {
            let k = choose|k: int| 0 <= k < was.len() && was[k] == t;
            assert(now[k] == t);
            let i = choose|i: int|
                0 <= i < n - 1 && target_named(all, (#[trigger] entries[i]).slug) == Some(t);
            assert(entries[i].slug == entries[i].slug);
        }
        if named == Some(t) {
            if crate::commands::link::has_name(was, t.name) {
                let k = choose|k: int| 0 <= k < was.len() && (#[trigger] was[k]).name == t.name;
                assert(was.contains(was[k]));
                lemma_known(all, entries, n - 1, was[k]);
                let i = choose|i: int|
                    0 <= i < n - 1 && target_named(all, (#[trigger] entries[i]).slug) == Some(was[k]);
                law_names_lead_to_their_agents(all, entries[i].slug);
                assert(was[k] == t);
            } else {
                assert(now[was.len() as int] == t);
            }
            assert(entries[n - 1].slug == entries[n - 1].slug);
        }
        if now.contains(t) && !was.contains(t) {
            let k = choose|k: int| 0 <= k < now.len() && now[k] == t;
            if k < was.len() {
                assert(was[k] == t);
            }
            assert(entries[n - 1].slug == entries[n - 1].slug);
        }
    }
}

/// A skill is linked into exactly those agents of the list that the record of installed
/// agents names.
pub proof fn law_every_installed_agent_is_linked_into(
    all: Seq<TargetView>,
    entries: Seq<AgentView>,
    t: TargetView,
)
    ensures
        known_targets(all, entries, entries.len() as int).contains(t) <==> exists|i: int|
            0 <= i < entries.len() && target_named(all, (#[trigger] entries[i]).slug) == Some(t),
{
    lemma_known(all, entries, entries.len() as int, t);
}

proof fn lemma_relinked(
    all: Seq<TargetView>,
    names: Seq<Seq<char>>,
    n: int,
    f: spec_fn(int) -> Option<TargetView>,
)
    requires
        0 <= n <= names.len(),
        forall|i: int| #[trigger] f(i) == target_named(all, names[i]),
    ensures
        targets_named(all, names, n) == positions(n).filter_map(f),
    decreases n,
{
    lemma_picked(n, f);
    if n > 0 {
        lemma_relinked(all, names, n - 1, f);
    }
}

/// A skill is linked again into each of the agents it was linked into that is on the list.
pub proof fn law_every_known_agent_is_linked_into_again(
    all: Seq<TargetView>,
    names: Seq<Seq<char>>,
)
    ensures
        targets_named(all, names, names.len() as int) == positions(names.len() as int).filter_map(
            |i: int| target_named(all, names[i]),
        ),
{
    let f = |i: int| target_named(all, names[i]);
    lemma_relinked(all, names, names.len() as int, f);
}

proof fn lemma_written(steps: Seq<WriteStep>, n: int, f: spec_fn(int) -> Option<Seq<char>>)
    requires
        0 <= n <= steps.len(),
        forall|i: int| #[trigger]
            f(i) == (if (steps[i].plan is Folder || steps[i].plan is Rule || steps[i].plan is Block)
                && steps[i].result is Ok {
                Some(steps[i].target@.name)
            } else {
                None
            }),
    ensures
        written_names(steps, n) == positions(n).filter_map(f),
    decreases n,
{
    lemma_picked(n, f);
    if n > 0 {
        lemma_written(steps, n - 1, f);
    }
}

/// The agents that a skill is recorded for are those for which it was to be written, as a
/// folder, a rule or a block, and was, in order.
pub proof fn law_written_agents_are_recorded(steps: Seq<WriteStep>)
    ensures
        written_names(steps, steps.len() as int) == positions(steps.len() as int).filter_map(
            |i: int|
                if (steps[i].plan is Folder || steps[i].plan is Rule || steps[i].plan is Block)
                    && steps[i].result is Ok {
                    Some(steps[i].target@.name)
                } else {
                    None
                },
        ),
{
    let f = |i: int|
        if (steps[i].plan is Folder || steps[i].plan is Rule || steps[i].plan is Block)
            && steps[i].result is Ok {
            Some(steps[i].target@.name)
        } else {
            None
        };
    lemma_written(steps, steps.len() as int, f);
}

/// What is told of an agent is what became of it: linked where the skill was written, at
/// the place it was written to; skipped, with the reason, where it failed or where there is
/// nothing to write; and rehearsed where nothing was to be written.
pub proof fn law_outcomes_tell_what_became(s: WriteStep)
    ensures
        ({
            let o = step_outcome(s);
            &&& o.agent == s.target@.name
            &&& o.display == s.target@.display
            &&& match s.plan {
                WritePlan::Skip(m) => o.status == "skipped"@ && o.reason == Some(m@) && o.path is None,
                WritePlan::Tell(d) => o.status == "dry_run"@ && o.path == Some(d@) && o.reason is None,
                WritePlan::Folder { dest, files } => o.path == Some(dest@) && told_of(o, s),
                WritePlan::Rule { dest, body } => o.path == Some(dest@) && told_of(o, s),
                WritePlan::Block { file, body } => o.path == Some(file@) && told_of(o, s),
            }
        }),
{
}

/// A writing is told of by its result.
pub open spec fn told_of(o: crate::commands::link::OutcomeView, s: WriteStep) -> bool {
    match s.result {
        Ok(_) => o.status == "linked"@ && o.reason is None,
        Err(e) => o.status == "skipped"@ && o.reason == Some(e@),
    }
}

// ---------------------------------------------------------------------------
// Taking links out, and putting them in again
// ---------------------------------------------------------------------------

proof fn lemma_removed_from(
    steps: Seq<UnlinkStep>,
    n: int,
    f: spec_fn(int) -> Option<(Seq<char>, Seq<char>)>,
)
    requires
        0 <= n <= steps.len(),
        forall|i: int| #[trigger]
            f(i) == (if steps[i].removed && steps[i].root is Some {
                Some((steps[i].agent@, steps[i].root->0@))
            } else {
                None
            }),
    ensures
        removed_from(steps, n) == positions(n).filter_map(f),
    decreases n,
{
    lemma_picked(n, f);
    if n > 0 {
        lemma_removed_from(steps, n - 1, f);
    }
}

/// Every agent from which the skill was removed is told of, with where it was, and no other.
pub proof fn law_every_unlinked_agent_is_told(steps: Seq<UnlinkStep>)
    ensures
        removed_from(steps, steps.len() as int) == positions(steps.len() as int).filter_map(
            |i: int|
                if steps[i].removed && steps[i].root is Some {
                    Some((steps[i].agent@, steps[i].root->0@))
                } else {
                    None
                },
        ),
{
    let f = |i: int|
        if steps[i].removed && steps[i].root is Some {
            Some((steps[i].agent@, steps[i].root->0@))
        } else {
            None
        };
    lemma_removed_from(steps, steps.len() as int, f);
}

proof fn lemma_updated_of(
    due: Seq<(Seq<char>, Seq<char>)>,
    done: Seq<bool>,
    n: int,
    f: spec_fn(int) -> Option<Seq<char>>,
)
    requires
        0 <= n <= due.len(),
        n <= done.len(),
        forall|i: int| #[trigger]
            f(i) == (if done[i] {
                Some(due[i].0 + "@"@ + due[i].1)
            } else {
                None
            }),
    ensures
        updated_of(due, done, n) == positions(n).filter_map(f),
    decreases n,
{
    lemma_picked(n, f);
    if n > 0 {
        lemma_updated_of(due, done, n - 1, f);
    }
}

/// Every skill that was linked again is told of with its version, and no other.
pub proof fn law_every_updated_skill_is_told(due: Seq<(Seq<char>, Seq<char>)>, done: Seq<bool>)
    requires
        due.len() == done.len(),
    ensures
        updated_of(due, done, due.len() as int) == positions(due.len() as int).filter_map(
            |i: int|
                if done[i] {
                    Some(due[i].0 + "@"@ + due[i].1)
                } else {
                    None
                },
        ),
{
    let f = |i: int|
        if done[i] {
            Some(due[i].0 + "@"@ + due[i].1)
        } else {
            None
        };
    lemma_updated_of(due, done, due.len() as int, f);
}

/// A skill that is linked has one link in its scope, with its version and its agents; every
/// other link stays as it is.
pub proof fn law_a_link_is_recorded_in_full(
    r: LinkedView,
    slug: Seq<char>,
    version: Seq<char>,
    scope: Scope,
    agents: Seq<Seq<char>>,
)
    ensures
        ({
            let now = relinked(r, slug, version, scope, agents);
            &&& now.skills == r.skills.filter(
                |e: LinkView| e.slug != slug || e.scope != scope,
            ) + seq![LinkView { slug, version, scope, agents }]
            &&& now.version == r.version
        }),
{
    let p = |e: LinkView| e.slug != slug || e.scope != scope;
    lemma_kept_links(r.skills, slug, scope, p);
    let now = relinked(r, slug, version, scope, agents);
    assert(now.skills =~= r.skills.filter(p) + seq![LinkView { slug, version, scope, agents }]);
}

proof fn lemma_kept_links(
    s: Seq<LinkView>,
    slug: Seq<char>,
    scope: Scope,
    p: spec_fn(LinkView) -> bool,
)
    requires
        forall|e: LinkView| #[trigger] p(e) == (e.slug != slug || e.scope != scope),
    ensures
        without_link(s, slug, scope) == s.filter(p),
    decreases s.len(),
{
    reveal(Seq::filter);
    if s.len() > 0 {
        lemma_kept_links(s.drop_last(), slug, scope, p);
    } else {
        assert(s.filter(p) =~= without_link(s, slug, scope));
    }
}

// ---------------------------------------------------------------------------
// What is linked, and where
// ---------------------------------------------------------------------------

/// What is asked for decides the scope, the home directory first; else the settings do.
pub proof fn law_the_scope_asked_for_decides(local: bool)
    ensures
        scope_of(true, local, LinkScope::Project) == Scope::Home,
        scope_of(false, true, LinkScope::Home) == Scope::Project,
        scope_of(false, false, LinkScope::Home) == Scope::Home,
        scope_of(false, false, LinkScope::Project) == Scope::Project,
        other_scope(Scope::Home) == Scope::Project,
        other_scope(Scope::Project) == Scope::Home,
{
}

proof fn lemma_content(files: Seq<(Seq<char>, Seq<u8>)>, path: Seq<char>, from: int, k: int)
    requires
        0 <= from <= k < files.len(),
        files[k].0 == path,
        forall|i: int| from <= i < k ==> (#[trigger] files[i]).0 != path,
    ensures
        content_at(files, path, from) == Some(files[k].1),
    decreases k - from,
{
    if from < k {
        lemma_content(files, path, from + 1, k);
    }
}

/// What a skill holds at a path is what the first file there holds.
pub proof fn law_the_contents_at_a_path(
    files: Seq<(Seq<char>, Seq<u8>)>,
    path: Seq<char>,
    k: int,
)
    requires
        0 <= k < files.len(),
        files[k].0 == path,
        forall|i: int| 0 <= i < k ==> (#[trigger] files[i]).0 != path,
    ensures
        content_at(files, path, 0) == Some(files[k].1),
{
    lemma_content(files, path, 0, k);
}

/// A path that no file has holds nothing.
pub proof fn law_no_contents_at_other_paths(
    files: Seq<(Seq<char>, Seq<u8>)>,
    path: Seq<char>,
    from: int,
)
    requires
        0 <= from,
        forall|i: int| 0 <= i < files.len() ==> (#[trigger] files[i]).0 != path,
    ensures
        content_at(files, path, from) is None,
    decreases files.len() - from,
{
    if from < files.len() {
        law_no_contents_at_other_paths(files, path, from + 1);
    }
}

/// A skill of texts has its skill file and its description, and its intuition and its tests
/// where they are not blank, each in bytes.
pub proof fn law_texts_become_files(
    skill: Seq<char>,
    meta: Seq<char>,
    intuition: Seq<char>,
    tests: Seq<char>,
)
    ensures
        ({
            let s = text_files(skill, meta, intuition, tests);
            &&& s[0] == ("SKILL.md"@, encode_utf8(skill))
            &&& s[1] == ("meta.knack.yaml"@, encode_utf8(meta))
            &&& trimmed(intuition).len() > 0 ==> s.contains(
                ("intuition.md"@, encode_utf8(intuition)),
            )
            &&& trimmed(tests).len() > 0 ==> s.contains(("tests/basic.yaml"@, encode_utf8(tests)))
            &&& s.len() == 2 + (if trimmed(intuition).len() > 0 {
                1int
            } else {
                0
            }) + (if trimmed(tests).len() > 0 {
                1int
            } else {
                0
            })
        }),
{
    let s = text_files(skill, meta, intuition, tests);
    if trimmed(intuition).len() > 0 {
        assert(s[2] == ("intuition.md"@, encode_utf8(intuition)));
        if trimmed(tests).len() > 0 {
            assert(s[3] == ("tests/basic.yaml"@, encode_utf8(tests)));
        }
    } else if trimmed(tests).len() > 0 {
        assert(s[2] == ("tests/basic.yaml"@, encode_utf8(tests)));
    }
}

/// A skill goes to a folder of its name, to a rule file that is named after it, or into the
/// agent's own file.
pub proof fn law_where_a_skill_goes(root: Seq<char>, slug: Seq<char>)
    ensures
        destination(ShimStyle::NativeSkill, root, slug) == below(root, slug),
        destination(ShimStyle::NativeRule, root, slug) == below(root, "knack-"@ + slug + ".mdc"@),
        destination(ShimStyle::TextBlock, root, slug) == root,
{
}

/// Checking is switched off with `1`, `true` and `yes`, the words in either case of letters.
pub proof fn law_checking_is_switched_off(v: Seq<char>)
    ensures
        no_update_check(Some(v)) <==> {
            let t = trimmed(v);
            t == "1"@ || ascii_lower(t) == ascii_lower("true"@) || ascii_lower(t) == ascii_lower(
                "yes"@,
            )
        },
        !no_update_check(None),
{
}

/// What became of a skill in an agent is told in full, and so is what is due.
pub proof fn law_outcomes_and_notices_are_told_in_full(o: OutcomeView, n: NoticeView)
    ensures
        outcome_json(o) == JsonView::Object(
            seq![
                ("agent"@, JsonView::Text(o.agent)),
                ("path"@, text_or_null(o.path)),
                ("status"@, JsonView::Text(o.status)),
                ("reason"@, text_or_null(o.reason)),
            ],
        ),
        notice_json(n) == JsonView::Object(
            seq![
                ("slug"@, JsonView::Text(n.slug)),
                ("have"@, JsonView::Text(n.have)),
                ("latest"@, JsonView::Text(n.latest)),
                ("author"@, JsonView::Text(n.author)),
            ],
        ),
        notice_text(n) == n.slug + " — have "@ + n.have + ", latest "@ + n.latest + " (by "@
            + n.author + ")"@,
{
}

/// With no links there is nothing to check and nothing to update; with nothing due all are
/// up to date; else each notice and each update has its line.
pub proof fn law_each_notice_and_update_has_its_line(
    checked: nat,
    notices: Seq<NoticeView>,
    updated: Seq<Seq<char>>,
    i: int,
)
    requires
        checked > 0,
    ensures
        check_text(0, notices).len() == 1 && update_text(0, updated).len() == 1,
        notices.len() == 0 ==> check_text(checked, notices).len() == 1,
        notices.len() > 0 ==> check_text(checked, notices).len() == notices.len() + 1,
        0 <= i < notices.len() ==> check_text(checked, notices)[i] == notice_text(notices[i]),
        updated.len() > 0 ==> update_text(checked, updated).len() == updated.len(),
        0 <= i < updated.len() ==> update_text(checked, updated)[i] == "Updated "@ + updated[i],
{
}

} // verus!
