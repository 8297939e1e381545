//! What is recorded, swept and purged, entry by entry.

use vstd::prelude::*;

use crate::commands::install::installed::{
    agent_fields, record_place, scope_name, without_agent, without_entry, AgentView, Scope,
};
use crate::commands::install::linked::{link_fields, without_link, LinkView};
use crate::commands::install::shim::{
    carries_sigil, first_marked, is_own, lemma_removal_shortens, linked_rest, linked_skill,
    own_entries, sigil_in_head, support_files, swept, without_block, RootEntry, SHIM_SIGIL,
};
use crate::commands::install::targets::{
    own_dir, registry, skills_root, target_names, var_value, AnchorView, MachineView, PlaceView,
    ShimStyle, TargetView,
};
use crate::commands::sync::{failures, removals, PurgeStep, Purged, ShimView};
use crate::config::below;
use crate::frontmatter::split_doc;
use crate::json::{text_values, JsonView};
use crate::numbers::decimal;
use crate::picks::{lemma_picked, positions};
use crate::text::{drop_trailing, has_prefix, has_suffix, lines_of, trimmed, CharClass};

verus! {

// ---------------------------------------------------------------------------
// The records
// ---------------------------------------------------------------------------

proof fn lemma_other_entries(
    s: Seq<AgentView>,
    slug: Seq<char>,
    scope: Scope,
    p: spec_fn(AgentView) -> bool,
)
    requires
        forall|e: AgentView| #[trigger] p(e) == (e.slug != slug || e.scope != scope),
    ensures
        without_entry(s, slug, scope) == s.filter(p),
    decreases s.len(),
{
    reveal(Seq::filter);
    if s.len() > 0 {
        lemma_other_entries(s.drop_last(), slug, scope, p);
    } else {
        assert(s.filter(p) =~= without_entry(s, slug, scope));
    }
}

/// Taking out the entry of an agent in a scope leaves every other entry, in its order: those
/// of other agents and of other scopes.
pub proof fn law_other_entries_stay(s: Seq<AgentView>, slug: Seq<char>, scope: Scope)
    ensures
        without_entry(s, slug, scope) == s.filter(
            |e: AgentView| e.slug != slug || e.scope != scope,
        ),
{
    let p = |e: AgentView| e.slug != slug || e.scope != scope;
    lemma_other_entries(s, slug, scope, p);
}

proof fn lemma_other_agents(s: Seq<AgentView>, slug: Seq<char>, p: spec_fn(AgentView) -> bool)
    requires
        forall|e: AgentView| #[trigger] p(e) == (e.slug != slug),
    ensures
        without_agent(s, slug) == s.filter(p),
    decreases s.len(),
{
    reveal(Seq::filter);
    if s.len() > 0 {
        lemma_other_agents(s.drop_last(), slug, p);
    } else {
        assert(s.filter(p) =~= without_agent(s, slug));
    }
}

/// Taking out an agent leaves the entries of every other one, in their order.
pub proof fn law_other_agents_stay(s: Seq<AgentView>, slug: Seq<char>)
    ensures
        without_agent(s, slug) == s.filter(|e: AgentView| e.slug != slug),
{
    let p = |e: AgentView| e.slug != slug;
    lemma_other_agents(s, slug, p);
}

proof fn lemma_other_links(
    s: Seq<LinkView>,
    slug: Seq<char>,
    scope: Scope,
    p: spec_fn(LinkView) -> bool,
)
    requires
        forall|e: LinkView| #[trigger] p(e) == (e.slug != slug || e.scope != scope),
    ensures
        without_link(s, slug, scope) == s.filter(p),
    decreases s.len(),
{
    reveal(Seq::filter);
    if s.len() > 0 {
        lemma_other_links(s.drop_last(), slug, scope, p);
    } else {
        assert(s.filter(p) =~= without_link(s, slug, scope));
    }
}

/// Taking out the link of a skill in a scope leaves every other link, in its order.
pub proof fn law_other_links_stay(s: Seq<LinkView>, slug: Seq<char>, scope: Scope)
    ensures
        without_link(s, slug, scope) == s.filter(|e: LinkView| e.slug != slug || e.scope != scope),
{
    let p = |e: LinkView| e.slug != slug || e.scope != scope;
    lemma_other_links(s, slug, scope, p);
}

/// Each fact of an entry stands under its own key in the record's file.
pub proof fn law_entries_are_kept_in_full(a: AgentView, l: LinkView)
    ensures
        ({
            let m = agent_fields(a);
            &&& m.len() == 3
            &&& m.contains(("slug"@, Some(JsonView::Text(a.slug))))
            &&& m.contains(("scope"@, Some(JsonView::Text(scope_name(a.scope)))))
            &&& m.contains(("path"@, Some(JsonView::Text(a.path))))
        }),
        ({
            let m = link_fields(l);
            &&& m.len() == 4
            &&& m.contains(("slug"@, Some(JsonView::Text(l.slug))))
            &&& m.contains(("version"@, Some(JsonView::Text(l.version))))
            &&& m.contains(("scope"@, Some(JsonView::Text(scope_name(l.scope)))))
            &&& m.contains(("agents"@, Some(JsonView::Array(text_values(l.agents)))))
        }),
        scope_name(Scope::Home) == "home"@,
        scope_name(Scope::Project) == "project"@,
{
    let m = agent_fields(a);
    assert(m[0] == ("slug"@, Some(JsonView::Text(a.slug))));
    assert(m[1] == ("scope"@, Some(JsonView::Text(scope_name(a.scope)))));
    assert(m[2] == ("path"@, Some(JsonView::Text(a.path))));
    let k = link_fields(l);
    assert(k[0] == ("slug"@, Some(JsonView::Text(l.slug))));
    assert(k[1] == ("version"@, Some(JsonView::Text(l.version))));
    assert(k[2] == ("scope"@, Some(JsonView::Text(scope_name(l.scope)))));
    assert(k[3] == ("agents"@, Some(JsonView::Array(text_values(l.agents)))));
}

/// The record stands where the environment says; else below `.knack` in the home directory,
/// and only without one below `knack` in the directory of settings.
pub proof fn law_the_environment_places_the_record(
    env: Seq<char>,
    home: Option<Seq<char>>,
    at: Seq<char>,
    config: Option<Seq<char>>,
    settings: Seq<char>,
    name: Seq<char>,
)
    ensures
        record_place(Some(env), home, config, name) == Some(env),
        record_place(None, Some(at), config, name) == Some(below(below(at, ".knack"@), name)),
        record_place(None, None, Some(settings), name) == Some(
            below(below(settings, "knack"@), name),
        ),
        record_place(None, None, None, name) is None,
{
}

// ---------------------------------------------------------------------------
// What is the library's own
// ---------------------------------------------------------------------------

/// An entry of an agent's directory is the library's own: where each skill has a folder, a
/// folder with the mark; where each skill has a rule file, a file that is called so, with
/// the mark. Elsewhere nothing is.
pub open spec fn marked_as_own(style: ShimStyle, e: RootEntry) -> bool {
    &&& e.text is Some && carries_sigil(e.text->0@)
    &&& style is NativeSkill || style is NativeRule
    &&& style is NativeSkill ==> e.is_dir
    &&& style is NativeRule ==> e.name is Some && (e.name->0@ == "knack.mdc"@ || (has_prefix(
        e.name->0@,
        "knack-"@,
    ) && has_suffix(e.name->0@, ".mdc"@)))
}

proof fn lemma_own(style: ShimStyle, s: Seq<RootEntry>, n: int, f: spec_fn(int) -> Option<int>)
    requires
        0 <= n <= s.len(),
        forall|i: int| #[trigger]
            f(i) == (if marked_as_own(style, s[i]) {
                Some(i)
            } else {
                None
            }),
    ensures
        own_entries(style, s, n) == positions(n).filter_map(f),
    decreases n,
{
    lemma_picked(n, f);
    if n > 0 {
        lemma_own(style, s, n - 1, f);
        assert(is_own(style, s[n - 1]) == marked_as_own(style, s[n - 1]));
    }
}

/// All that is the library's own is swept from an agent's directory, and nothing else.
pub proof fn law_all_own_entries_are_swept(style: ShimStyle, s: Seq<RootEntry>)
    ensures
        own_entries(style, s, s.len() as int) == positions(s.len() as int).filter_map(
            |i: int|
                if marked_as_own(style, s[i]) {
                    Some(i)
                } else {
                    None
                },
        ),
{
    let f = |i: int|
        if marked_as_own(style, s[i]) {
            Some(i)
        } else {
            None
        };
    lemma_own(style, s, s.len() as int, f);
}

/// A text with the mark on a line of its own among the first twelve carries it, with white
/// space round it or none; so does one with the mark on the first line behind its
/// frontmatter. No other text does.
pub proof fn law_the_mark_stands_near_the_top(text: Seq<char>)
    ensures
        carries_sigil(text) <==> {
            let lines = lines_of(text);
            let behind = lines_of(split_doc(text).1);
            ||| exists|i: int|
                0 <= i < lines.len() && i < 12 && trimmed(#[trigger] lines[i])
                    == "<!-- knack:shim — managed; do not edit -->"@
            ||| behind.len() > 0 && trimmed(behind[0])
                == "<!-- knack:shim — managed; do not edit -->"@
        },
{
    let lines = lines_of(text);
    if sigil_in_head(text) {
        let i = choose|i: int|
            0 <= i < 12 && i < lines_of(text).len() && trimmed(#[trigger] lines_of(text)[i])
                == SHIM_SIGIL@;
        assert(trimmed(lines[i]) == SHIM_SIGIL@);
    }
    if exists|i: int|
        0 <= i < lines.len() && i < 12 && trimmed(#[trigger] lines[i])
            == "<!-- knack:shim — managed; do not edit -->"@ {
        let i = choose|i: int|
            0 <= i < lines.len() && i < 12 && trimmed(#[trigger] lines[i])
                == "<!-- knack:shim — managed; do not edit -->"@;
        assert(trimmed(lines_of(text)[i]) == SHIM_SIGIL@);
    }
}

/// Sweeping a text goes on while a marked block can be removed: of what is left none can.
pub proof fn law_no_block_is_left_behind(text: Seq<char>)
    ensures
        match first_marked(swept(text).0) {
            Some(slug) => without_block(swept(text).0, slug) is None,
            None => true,
        },
        swept(text).1 == 0 <==> swept(text).0 == text,
        swept(text).0.len() + swept(text).1 <= text.len(),
    decreases text.len(),
{
    match first_marked(text) {
        None => {},
        Some(slug) => match without_block(text, slug) {
            None => {},
            Some(t) => {
                lemma_removal_shortens(text, slug);
                law_no_block_is_left_behind(t);
            },
        },
    }
}

proof fn lemma_support(
    files: Seq<(String, Vec<u8>)>,
    n: int,
    f: spec_fn(int) -> Option<(Seq<char>, Seq<u8>)>,
)
    requires
        0 <= n <= files.len(),
        forall|i: int| #[trigger]
            f(i) == (if files[i].0@ == "SKILL.md"@ {
                None
            } else {
                Some((files[i].0@, files[i].1@))
            }),
    ensures
        support_files(files, n) == positions(n).filter_map(f),
    decreases n,
{
    lemma_picked(n, f);
    if n > 0 {
        lemma_support(files, n - 1, f);
    }
}

/// All files of a skill but the skill file itself go along with it, each with its contents.
pub proof fn law_all_other_files_go_along(files: Seq<(String, Vec<u8>)>)
    ensures
        support_files(files, files.len() as int) == positions(files.len() as int).filter_map(
            |i: int|
                if files[i].0@ == "SKILL.md"@ {
                    None
                } else {
                    Some((files[i].0@, files[i].1@))
                },
        ),
{
    let f = |i: int|
        if files[i].0@ == "SKILL.md"@ {
            None
        } else {
            Some((files[i].0@, files[i].1@))
        };
    lemma_support(files, files.len() as int, f);
}

/// A linked skill holds its frontmatter, the mark and its whole body, but for line feeds at
/// the body's end, in this order.
pub proof fn law_a_linked_skill_holds_its_body(
    slug: Seq<char>,
    runtime: Seq<char>,
    md: Seq<char>,
) -> (r: (Seq<char>, Seq<char>, Seq<char>))
    ensures
        linked_skill(slug, runtime, md) == split_doc(md).0 + r.0 + SHIM_SIGIL@ + r.1
            + drop_trailing(split_doc(md).1, CharClass::One('\n')) + r.2,
        r.0 == (if split_doc(md).0.len() == 0 {
            ""@
        } else {
            "\n\n"@
        }),
{
    reveal_strlit("");
    let (head, body) = split_doc(md);
    let feed = CharClass::One('\n');
    let pre = "\n"@ + "\n"@ + crate::commands::install::shim::preamble(slug, runtime) + "\n\n"@;
    let post = "\n\n"@ + crate::commands::install::shim::footer() + "\n"@;
    let between = if head.len() == 0 {
        ""@
    } else {
        "\n\n"@
    };
    assert(SHIM_SIGIL@ + "\n"@ + linked_rest(slug, runtime, body) =~= SHIM_SIGIL@ + pre
        + drop_trailing(body, feed) + post);
    assert(linked_skill(slug, runtime, md) =~= head + between + SHIM_SIGIL@ + pre + drop_trailing(
        body,
        feed,
    ) + post);
    (between, pre, post)
}

// ---------------------------------------------------------------------------
// Purging
// ---------------------------------------------------------------------------

proof fn lemma_removals(s: Seq<PurgeStep>, n: int, f: spec_fn(int) -> Option<ShimView>)
    requires
        0 <= n <= s.len(),
        forall|i: int| #[trigger]
            f(i) == (match s[i].purged {
                Purged::Rehearsed => Some(
                    ShimView {
                        agent: s[i].agent@,
                        path: s[i].path@,
                        status: "would_purge"@,
                        reason: None,
                    },
                ),
                Purged::Removed(k) => if k > 0 {
                    Some(
                        ShimView {
                            agent: s[i].agent@,
                            path: s[i].path@,
                            status: "purged_"@ + decimal(k as nat),
                            reason: None,
                        },
                    )
                } else {
                    None
                },
                Purged::Failed(_) => None,
            }),
    ensures
        removals(s, n) == positions(n).filter_map(f),
    decreases n,
{
    lemma_picked(n, f);
    if n > 0 {
        lemma_removals(s, n - 1, f);
    }
}

/// Each agent from which something was removed is told of, with how much; in a rehearsal each
/// agent is.
pub proof fn law_every_removal_is_told(s: Seq<PurgeStep>)
    ensures
        removals(s, s.len() as int) == positions(s.len() as int).filter_map(
            |i: int|
                match s[i].purged {
                    Purged::Rehearsed => Some(
                        ShimView {
                            agent: s[i].agent@,
                            path: s[i].path@,
                            status: "would_purge"@,
                            reason: None,
                        },
                    ),
                    Purged::Removed(k) => if k > 0 {
                        Some(
                            ShimView {
                                agent: s[i].agent@,
                                path: s[i].path@,
                                status: "purged_"@ + decimal(k as nat),
                                reason: None,
                            },
                        )
                    } else {
                        None
                    },
                    Purged::Failed(_) => None,
                },
        ),
{
    let f = |i: int|
        match s[i].purged {
            Purged::Rehearsed => Some(
                ShimView {
                    agent: s[i].agent@,
                    path: s[i].path@,
                    status: "would_purge"@,
                    reason: None,
                },
            ),
            Purged::Removed(k) => if k > 0 {
                Some(
                    ShimView {
                        agent: s[i].agent@,
                        path: s[i].path@,
                        status: "purged_"@ + decimal(k as nat),
                        reason: None,
                    },
                )
            } else {
                None
            },
            Purged::Failed(_) => None,
        };
    lemma_removals(s, s.len() as int, f);
}

proof fn lemma_failures(s: Seq<PurgeStep>, n: int, f: spec_fn(int) -> Option<ShimView>)
    requires
        0 <= n <= s.len(),
        forall|i: int| #[trigger]
            f(i) == (match s[i].purged {
                Purged::Failed(e) => Some(
                    ShimView {
                        agent: s[i].agent@,
                        path: s[i].path@,
                        status: "skipped"@,
                        reason: Some(e@),
                    },
                ),
                _ => None,
            }),
    ensures
        failures(s, n) == positions(n).filter_map(f),
    decreases n,
{
    lemma_picked(n, f);
    if n > 0 {
        lemma_failures(s, n - 1, f);
    }
}

/// Each agent that could not be purged is told of, with the reason.
pub proof fn law_every_failure_is_told(s: Seq<PurgeStep>)
    ensures
        failures(s, s.len() as int) == positions(s.len() as int).filter_map(
            |i: int|
                match s[i].purged {
                    Purged::Failed(e) => Some(
                        ShimView {
                            agent: s[i].agent@,
                            path: s[i].path@,
                            status: "skipped"@,
                            reason: Some(e@),
                        },
                    ),
                    _ => None,
                },
        ),
{
    let f = |i: int|
        match s[i].purged {
            Purged::Failed(e) => Some(
                ShimView {
                    agent: s[i].agent@,
                    path: s[i].path@,
                    status: "skipped"@,
                    reason: Some(e@),
                },
            ),
            _ => None,
        };
    lemma_failures(s, s.len() as int, f);
}

// ---------------------------------------------------------------------------
// The agents
// ---------------------------------------------------------------------------

/// The agents that are known, in the order in which they are looked for.
pub proof fn law_the_agents_that_are_known()
    ensures
        target_names(registry()) == seq![
            "codex"@,
            "cursor"@,
            "windsurf"@,
            "cline"@,
            "continue"@,
            "kiro"@,
            "trae"@,
            "aider"@,
            "gemini"@,
            "opencode"@,
            "factory"@,
            "amp"@,
            "generic"@,
        ],
{
    assert(target_names(registry()) =~= seq![
        "codex"@,
        "cursor"@,
        "windsurf"@,
        "cline"@,
        "continue"@,
        "kiro"@,
        "trae"@,
        "aider"@,
        "gemini"@,
        "opencode"@,
        "factory"@,
        "amp"@,
        "generic"@,
    ]);
}

/// The skills of an agent are put where it looks for them in the scope: below the home
/// directory, the directory of settings, the agent's own one or the project.
pub proof fn law_skills_are_put_where_the_agent_looks(
    t: TargetView,
    m: MachineView,
    rel: Seq<char>,
    dir: Seq<char>,
)
    ensures
        t.home_skills == Some(PlaceView { anchor: AnchorView::Home, rel }) ==> skills_root(
            t,
            Scope::Home,
            m,
        ) == (match m.home {
            Some(h) => Some(below(h, rel)),
            None => None,
        }),
        t.home_skills == Some(PlaceView { anchor: AnchorView::Config, rel }) ==> skills_root(
            t,
            Scope::Home,
            m,
        ) == (match m.config {
            Some(c) => Some(below(c, rel)),
            None => None,
        }),
        t.project_skills == Some(PlaceView { anchor: AnchorView::Cwd, rel }) ==> skills_root(
            t,
            Scope::Project,
            m,
        ) == (match m.cwd {
            Some(c) => Some(below(c, rel)),
            None => None,
        }),
        t.home_skills is None ==> skills_root(t, Scope::Home, m) is None,
        t.project_skills is None ==> skills_root(t, Scope::Project, m) is None,
{
}

/// A directory of the agent's own is where the environment says, else in the home directory.
pub proof fn law_own_directories_are_where_the_environment_says(
    d: Seq<char>,
    home: Option<Seq<char>>,
    rel: Seq<char>,
)
    ensures
        own_dir(Some(d), home, rel) == Some(d),
        own_dir(None, Some(d), rel) == Some(below(d, rel)),
        own_dir(None, None, rel) is None,
{
}

proof fn lemma_var(vars: Seq<(Seq<char>, Seq<char>)>, name: Seq<char>, from: int, k: int)
    requires
        0 <= from <= k < vars.len(),
        vars[k].0 == name,
        forall|i: int| from <= i < k ==> (#[trigger] vars[i]).0 != name,
    ensures
        var_value(vars, name, from) == Some(vars[k].1),
    decreases k - from,
{
    if from < k {
        lemma_var(vars, name, from + 1, k);
    }
}

/// A variable has the value that is given for its name.
pub proof fn law_variables_have_their_values(
    vars: Seq<(Seq<char>, Seq<char>)>,
    name: Seq<char>,
    k: int,
)
    requires
        0 <= k < vars.len(),
        vars[k].0 == name,
        forall|i: int| 0 <= i < k ==> (#[trigger] vars[i]).0 != name,
    ensures
        var_value(vars, name, 0) == Some(vars[k].1),
{
    lemma_var(vars, name, 0, k);
}

} // verus!
