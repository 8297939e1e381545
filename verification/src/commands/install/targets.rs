//! The coding agents that skills can be put into, and where each of them looks.

use vstd::prelude::*;

use crate::commands::install::installed::Scope;
use crate::config::{below, join_path};
use crate::text::{opt_str_view, opt_view, same, slice_views};

verus! {

/// How the notice that `knack` is there is written.
#[derive(Debug, Clone, Copy, PartialEq, Eq, Structural)]
pub enum ConfigStyle {
    /// A block within a file that is someone else's.
    AppendBlock,
    /// A whole file.
    WriteFile,
}

/// How a skill is put before an agent.
#[derive(Debug, Clone, Copy, PartialEq, Eq, Structural)]
pub enum ShimStyle {
    /// A folder for each skill.
    NativeSkill,
    /// A rule file for each skill.
    NativeRule,
    /// A block for each skill, in the agent's context file.
    TextBlock,
    /// Not at all.
    Unsupported,
}

/// Where a path starts.
#[derive(Debug, Clone, Copy)]
pub enum Anchor {
    /// The home directory.
    Home,
    /// The directory of configuration.
    Config,
    /// An agent's own directory: what a variable of the environment says, else a
    /// directory in the home directory.
    Own { var: &'static str, dir: &'static str },
    /// The current directory.
    Cwd,
}

/// Where a path starts, as a mathematical value.
#[verifier::ext_equal]
pub ghost enum AnchorView {
    Home,
    Config,
    Own { var: Seq<char>, dir: Seq<char> },
    Cwd,
}

impl View for Anchor {
    type V = AnchorView;

    open spec fn view(&self) -> AnchorView {
        match self {
            Anchor::Home => AnchorView::Home,
            Anchor::Config => AnchorView::Config,
            Anchor::Own { var, dir } => AnchorView::Own { var: var@, dir: dir@ },
            Anchor::Cwd => AnchorView::Cwd,
        }
    }
}

/// A path from an anchor: that of a directory, or that of a file up to its extension.
#[derive(Debug, Clone, Copy)]
pub struct Place {
    pub anchor: Anchor,
    pub rel: &'static str,
    /// The extension of a file, with its dot; empty for a directory.
    pub ext: &'static str,
}

/// A path from an anchor, as a mathematical value.
#[verifier::ext_equal]
pub ghost struct PlaceView {
    pub anchor: AnchorView,
    pub rel: Seq<char>,
}

impl View for Place {
    type V = PlaceView;

    open spec fn view(&self) -> PlaceView {
        PlaceView { anchor: self.anchor@, rel: self.rel@ + self.ext@ }
    }
}

/// A directory below an anchor.
pub open spec fn dir_at(anchor: AnchorView, rel: Seq<char>) -> PlaceView {
    PlaceView { anchor, rel }
}

/// A file below an anchor.
pub open spec fn file_at(anchor: AnchorView, rel: Seq<char>, ext: Seq<char>) -> PlaceView {
    PlaceView { anchor, rel: rel + ext }
}

/// A directory below an anchor.
fn dir(anchor: Anchor, rel: &'static str) -> (r: Place)
    ensures
        r@ == dir_at(anchor@, rel@),
{
    proof {
        reveal_strlit("");
        assert(rel@ + ""@ =~= rel@);
    }
    Place { anchor, rel, ext: "" }
}

/// A file below an anchor.
fn file(anchor: Anchor, rel: &'static str, ext: &'static str) -> (r: Place)
    ensures
        r@ == file_at(anchor@, rel@, ext@),
{
    Place { anchor, rel, ext }
}

pub open spec fn opt_place_view(o: Option<Place>) -> Option<PlaceView> {
    match o {
        Some(p) => Some(p@),
        None => None,
    }
}

/// A coding agent.
#[derive(Debug)]
pub struct AgentTarget {
    /// What `knack install` calls it.
    pub name: &'static str,
    /// What people call it.
    pub display: &'static str,
    /// The variables of which any shows that it is running.
    pub env_markers: Vec<&'static str>,
    /// The programs of which any shows that it is there.
    pub binary_markers: Vec<&'static str>,
    pub style: ConfigStyle,
    pub shim_style: ShimStyle,
    /// Where the notice is written.
    pub config: Option<Place>,
    /// Where skills are put for every project.
    pub home_skills: Option<Place>,
    /// Where skills are put for one project.
    pub project_skills: Option<Place>,
}

/// A coding agent as a mathematical value.
#[verifier::ext_equal]
pub ghost struct TargetView {
    pub name: Seq<char>,
    pub display: Seq<char>,
    pub env_markers: Seq<Seq<char>>,
    pub binary_markers: Seq<Seq<char>>,
    pub style: ConfigStyle,
    pub shim_style: ShimStyle,
    pub config: Option<PlaceView>,
    pub home_skills: Option<PlaceView>,
    pub project_skills: Option<PlaceView>,
}

impl View for AgentTarget {
    type V = TargetView;

    open spec fn view(&self) -> TargetView {
        TargetView {
            name: self.name@,
            display: self.display@,
            env_markers: slice_views(self.env_markers@),
            binary_markers: slice_views(self.binary_markers@),
            style: self.style,
            shim_style: self.shim_style,
            config: opt_place_view(self.config),
            home_skills: opt_place_view(self.home_skills),
            project_skills: opt_place_view(self.project_skills),
        }
    }
}

pub open spec fn target_views(v: Seq<AgentTarget>) -> Seq<TargetView> {
    Seq::new(v.len(), |i: int| v[i]@)
}

/// The agents that are known by name, the more particular ones first. Not every agent is
/// among them: one more is put before them by the caller that serves it.
pub open spec fn registry() -> Seq<TargetView> {
    seq![
        TargetView {
            name: "codex"@,
            display: "OpenAI Codex CLI"@,
            env_markers: seq!["CODEX_HOME"@],
            binary_markers: seq!["codex"@],
            style: ConfigStyle::AppendBlock,
            shim_style: ShimStyle::NativeSkill,
            config: Some(file_at(AnchorView::Own { var: "CODEX_HOME"@, dir: ".codex"@ }, "AGENTS"@, ".md"@)),
            home_skills: Some(dir_at(AnchorView::Home, ".agents/skills"@)),
            project_skills: Some(dir_at(AnchorView::Cwd, ".agents/skills"@)),
        },
        TargetView {
            name: "cursor"@,
            display: "Cursor"@,
            env_markers: seq!["CURSOR_TRACE_ID"@],
            binary_markers: seq!["cursor"@],
            style: ConfigStyle::WriteFile,
            shim_style: ShimStyle::NativeRule,
            config: Some(file_at(AnchorView::Home, ".cursor/rules/knack"@, ".mdc"@)),
            home_skills: Some(dir_at(AnchorView::Home, ".cursor/rules"@)),
            project_skills: Some(dir_at(AnchorView::Cwd, ".cursor/rules"@)),
        },
        TargetView {
            name: "windsurf"@,
            display: "Windsurf (Cascade)"@,
            env_markers: seq![],
            binary_markers: seq!["windsurf"@],
            style: ConfigStyle::AppendBlock,
            shim_style: ShimStyle::NativeSkill,
            config: Some(file_at(AnchorView::Home, ".codeium/windsurf/memories/global_rules"@, ".md"@)),
            home_skills: Some(dir_at(AnchorView::Home, ".windsurf/skills"@)),
            project_skills: Some(dir_at(AnchorView::Cwd, ".windsurf/skills"@)),
        },
        TargetView {
            name: "cline"@,
            display: "Cline"@,
            env_markers: seq![],
            binary_markers: seq![],
            style: ConfigStyle::AppendBlock,
            shim_style: ShimStyle::NativeSkill,
            config: Some(file_at(AnchorView::Home, ".cline/rules/knack"@, ".md"@)),
            home_skills: Some(dir_at(AnchorView::Home, ".cline/skills"@)),
            project_skills: Some(dir_at(AnchorView::Cwd, ".cline/skills"@)),
        },
        TargetView {
            name: "continue"@,
            display: "Continue.dev"@,
            env_markers: seq![],
            binary_markers: seq![],
            style: ConfigStyle::AppendBlock,
            shim_style: ShimStyle::TextBlock,
            config: Some(file_at(AnchorView::Home, ".continue/rules/knack"@, ".md"@)),
            home_skills: Some(file_at(AnchorView::Home, ".continue/rules/knack"@, ".md"@)),
            project_skills: Some(file_at(AnchorView::Home, ".continue/rules/knack"@, ".md"@)),
        },
        TargetView {
            name: "kiro"@,
            display: "Kiro (AWS)"@,
            env_markers: seq![],
            binary_markers: seq!["kiro"@],
            style: ConfigStyle::AppendBlock,
            shim_style: ShimStyle::NativeSkill,
            config: Some(file_at(AnchorView::Home, ".kiro/steering/AGENTS"@, ".md"@)),
            home_skills: Some(dir_at(AnchorView::Home, ".kiro/skills"@)),
            project_skills: Some(dir_at(AnchorView::Cwd, ".kiro/skills"@)),
        },
        TargetView {
            name: "trae"@,
            display: "Trae (ByteDance)"@,
            env_markers: seq![],
            binary_markers: seq!["trae"@],
            style: ConfigStyle::AppendBlock,
            shim_style: ShimStyle::NativeSkill,
            config: Some(file_at(AnchorView::Home, ".trae/rules/user_rules"@, ".md"@)),
            home_skills: Some(dir_at(AnchorView::Home, ".trae/skills"@)),
            project_skills: Some(dir_at(AnchorView::Cwd, ".trae/skills"@)),
        },
        TargetView {
            name: "aider"@,
            display: "Aider"@,
            env_markers: seq![],
            binary_markers: seq!["aider"@],
            style: ConfigStyle::AppendBlock,
            shim_style: ShimStyle::TextBlock,
            config: Some(file_at(AnchorView::Home, "CONVENTIONS"@, ".md"@)),
            home_skills: Some(file_at(AnchorView::Home, "CONVENTIONS"@, ".md"@)),
            project_skills: Some(file_at(AnchorView::Home, "CONVENTIONS"@, ".md"@)),
        },
        TargetView {
            name: "gemini"@,
            display: "Gemini CLI"@,
            env_markers: seq!["GEMINI_CLI"@],
            binary_markers: seq!["gemini"@],
            style: ConfigStyle::AppendBlock,
            shim_style: ShimStyle::NativeSkill,
            config: Some(file_at(AnchorView::Home, ".gemini/GEMINI"@, ".md"@)),
            home_skills: Some(dir_at(AnchorView::Home, ".gemini/skills"@)),
            project_skills: Some(dir_at(AnchorView::Cwd, ".gemini/skills"@)),
        },
        TargetView {
            name: "opencode"@,
            display: "OpenCode"@,
            env_markers: seq![],
            binary_markers: seq!["opencode"@],
            style: ConfigStyle::AppendBlock,
            shim_style: ShimStyle::NativeSkill,
            config: Some(file_at(AnchorView::Config, "opencode/AGENTS"@, ".md"@)),
            home_skills: Some(dir_at(AnchorView::Config, "opencode/skills"@)),
            project_skills: Some(dir_at(AnchorView::Cwd, ".opencode/skills"@)),
        },
        TargetView {
            name: "factory"@,
            display: "Factory droid"@,
            env_markers: seq!["FACTORY_DROID"@],
            binary_markers: seq!["droid"@],
            style: ConfigStyle::AppendBlock,
            shim_style: ShimStyle::NativeSkill,
            config: Some(file_at(AnchorView::Home, ".factory/AGENTS"@, ".md"@)),
            home_skills: Some(dir_at(AnchorView::Home, ".factory/skills"@)),
            project_skills: Some(dir_at(AnchorView::Cwd, ".factory/skills"@)),
        },
        TargetView {
            name: "amp"@,
            display: "Amp"@,
            env_markers: seq![],
            binary_markers: seq!["amp"@],
            style: ConfigStyle::AppendBlock,
            shim_style: ShimStyle::NativeSkill,
            config: Some(file_at(AnchorView::Config, "agents/AGENTS"@, ".md"@)),
            home_skills: Some(dir_at(AnchorView::Config, "agents/skills"@)),
            project_skills: Some(dir_at(AnchorView::Cwd, ".agents/skills"@)),
        },
        TargetView {
            name: "generic"@,
            display: "Generic AGENTS.md"@,
            env_markers: seq![],
            binary_markers: seq![],
            style: ConfigStyle::AppendBlock,
            shim_style: ShimStyle::Unsupported,
            config: Some(file_at(AnchorView::Config, "agents/AGENTS"@, ".md"@)),
            home_skills: None,
            project_skills: None,
        },
    ]
}

fn codex_target() -> (r: AgentTarget)
    ensures
        r@ == registry()[0],
{
    let r = AgentTarget {
        name: "codex",
        display: "OpenAI Codex CLI",
        env_markers: vec!["CODEX_HOME"],
        binary_markers: vec!["codex"],
        style: ConfigStyle::AppendBlock,
        shim_style: ShimStyle::NativeSkill,
        config: Some(file(Anchor::Own { var: "CODEX_HOME", dir: ".codex" }, "AGENTS", ".md")),
        home_skills: Some(dir(Anchor::Home, ".agents/skills")),
        project_skills: Some(dir(Anchor::Cwd, ".agents/skills")),
    };
    assert(r@.env_markers =~= registry()[0].env_markers);
    assert(r@.binary_markers =~= registry()[0].binary_markers);
    r
}

fn cursor_target() -> (r: AgentTarget)
    ensures
        r@ == registry()[1],
{
    let r = AgentTarget {
        name: "cursor",
        display: "Cursor",
        env_markers: vec!["CURSOR_TRACE_ID"],
        binary_markers: vec!["cursor"],
        style: ConfigStyle::WriteFile,
        shim_style: ShimStyle::NativeRule,
        config: Some(file(Anchor::Home, ".cursor/rules/knack", ".mdc")),
        home_skills: Some(dir(Anchor::Home, ".cursor/rules")),
        project_skills: Some(dir(Anchor::Cwd, ".cursor/rules")),
    };
    assert(r@.env_markers =~= registry()[1].env_markers);
    assert(r@.binary_markers =~= registry()[1].binary_markers);
    r
}

fn windsurf_target() -> (r: AgentTarget)
    ensures
        r@ == registry()[2],
{
    let r = AgentTarget {
        name: "windsurf",
        display: "Windsurf (Cascade)",
        env_markers: Vec::new(),
        binary_markers: vec!["windsurf"],
        style: ConfigStyle::AppendBlock,
        shim_style: ShimStyle::NativeSkill,
        config: Some(file(Anchor::Home, ".codeium/windsurf/memories/global_rules", ".md")),
        home_skills: Some(dir(Anchor::Home, ".windsurf/skills")),
        project_skills: Some(dir(Anchor::Cwd, ".windsurf/skills")),
    };
    assert(r@.env_markers =~= registry()[2].env_markers);
    assert(r@.binary_markers =~= registry()[2].binary_markers);
    r
}

fn cline_target() -> (r: AgentTarget)
    ensures
        r@ == registry()[3],
{
    let r = AgentTarget {
        name: "cline",
        display: "Cline",
        env_markers: Vec::new(),
        binary_markers: Vec::new(),
        style: ConfigStyle::AppendBlock,
        shim_style: ShimStyle::NativeSkill,
        config: Some(file(Anchor::Home, ".cline/rules/knack", ".md")),
        home_skills: Some(dir(Anchor::Home, ".cline/skills")),
        project_skills: Some(dir(Anchor::Cwd, ".cline/skills")),
    };
    assert(r@.env_markers =~= registry()[3].env_markers);
    assert(r@.binary_markers =~= registry()[3].binary_markers);
    r
}

fn continue_dev_target() -> (r: AgentTarget)
    ensures
        r@ == registry()[4],
{
    let r = AgentTarget {
        name: "continue",
        display: "Continue.dev",
        env_markers: Vec::new(),
        binary_markers: Vec::new(),
        style: ConfigStyle::AppendBlock,
        shim_style: ShimStyle::TextBlock,
        config: Some(file(Anchor::Home, ".continue/rules/knack", ".md")),
        home_skills: Some(file(Anchor::Home, ".continue/rules/knack", ".md")),
        project_skills: Some(file(Anchor::Home, ".continue/rules/knack", ".md")),
    };
    assert(r@.env_markers =~= registry()[4].env_markers);
    assert(r@.binary_markers =~= registry()[4].binary_markers);
    r
}

fn kiro_target() -> (r: AgentTarget)
    ensures
        r@ == registry()[5],
{
    let r = AgentTarget {
        name: "kiro",
        display: "Kiro (AWS)",
        env_markers: Vec::new(),
        binary_markers: vec!["kiro"],
        style: ConfigStyle::AppendBlock,
        shim_style: ShimStyle::NativeSkill,
        config: Some(file(Anchor::Home, ".kiro/steering/AGENTS", ".md")),
        home_skills: Some(dir(Anchor::Home, ".kiro/skills")),
        project_skills: Some(dir(Anchor::Cwd, ".kiro/skills")),
    };
    assert(r@.env_markers =~= registry()[5].env_markers);
    assert(r@.binary_markers =~= registry()[5].binary_markers);
    r
}

fn trae_target() -> (r: AgentTarget)
    ensures
        r@ == registry()[6],
{
    let r = AgentTarget {
        name: "trae",
        display: "Trae (ByteDance)",
        env_markers: Vec::new(),
        binary_markers: vec!["trae"],
        style: ConfigStyle::AppendBlock,
        shim_style: ShimStyle::NativeSkill,
        config: Some(file(Anchor::Home, ".trae/rules/user_rules", ".md")),
        home_skills: Some(dir(Anchor::Home, ".trae/skills")),
        project_skills: Some(dir(Anchor::Cwd, ".trae/skills")),
    };
    assert(r@.env_markers =~= registry()[6].env_markers);
    assert(r@.binary_markers =~= registry()[6].binary_markers);
    r
}

fn aider_target() -> (r: AgentTarget)
    ensures
        r@ == registry()[7],
{
    let r = AgentTarget {
        name: "aider",
        display: "Aider",
        env_markers: Vec::new(),
        binary_markers: vec!["aider"],
        style: ConfigStyle::AppendBlock,
        shim_style: ShimStyle::TextBlock,
        config: Some(file(Anchor::Home, "CONVENTIONS", ".md")),
        home_skills: Some(file(Anchor::Home, "CONVENTIONS", ".md")),
        project_skills: Some(file(Anchor::Home, "CONVENTIONS", ".md")),
    };
    assert(r@.env_markers =~= registry()[7].env_markers);
    assert(r@.binary_markers =~= registry()[7].binary_markers);
    r
}

fn gemini_target() -> (r: AgentTarget)
    ensures
        r@ == registry()[8],
{
    let r = AgentTarget {
        name: "gemini",
        display: "Gemini CLI",
        env_markers: vec!["GEMINI_CLI"],
        binary_markers: vec!["gemini"],
        style: ConfigStyle::AppendBlock,
        shim_style: ShimStyle::NativeSkill,
        config: Some(file(Anchor::Home, ".gemini/GEMINI", ".md")),
        home_skills: Some(dir(Anchor::Home, ".gemini/skills")),
        project_skills: Some(dir(Anchor::Cwd, ".gemini/skills")),
    };
    assert(r@.env_markers =~= registry()[8].env_markers);
    assert(r@.binary_markers =~= registry()[8].binary_markers);
    r
}

fn opencode_target() -> (r: AgentTarget)
    ensures
        r@ == registry()[9],
{
    let r = AgentTarget {
        name: "opencode",
        display: "OpenCode",
        env_markers: Vec::new(),
        binary_markers: vec!["opencode"],
        style: ConfigStyle::AppendBlock,
        shim_style: ShimStyle::NativeSkill,
        config: Some(file(Anchor::Config, "opencode/AGENTS", ".md")),
        home_skills: Some(dir(Anchor::Config, "opencode/skills")),
        project_skills: Some(dir(Anchor::Cwd, ".opencode/skills")),
    };
    assert(r@.env_markers =~= registry()[9].env_markers);
    assert(r@.binary_markers =~= registry()[9].binary_markers);
    r
}

fn factory_target() -> (r: AgentTarget)
    ensures
        r@ == registry()[10],
{
    let r = AgentTarget {
        name: "factory",
        display: "Factory droid",
        env_markers: vec!["FACTORY_DROID"],
        binary_markers: vec!["droid"],
        style: ConfigStyle::AppendBlock,
        shim_style: ShimStyle::NativeSkill,
        config: Some(file(Anchor::Home, ".factory/AGENTS", ".md")),
        home_skills: Some(dir(Anchor::Home, ".factory/skills")),
        project_skills: Some(dir(Anchor::Cwd, ".factory/skills")),
    };
    assert(r@.env_markers =~= registry()[10].env_markers);
    assert(r@.binary_markers =~= registry()[10].binary_markers);
    r
}

fn amp_target() -> (r: AgentTarget)
    ensures
        r@ == registry()[11],
{
    let r = AgentTarget {
        name: "amp",
        display: "Amp",
        env_markers: Vec::new(),
        binary_markers: vec!["amp"],
        style: ConfigStyle::AppendBlock,
        shim_style: ShimStyle::NativeSkill,
        config: Some(file(Anchor::Config, "agents/AGENTS", ".md")),
        home_skills: Some(dir(Anchor::Config, "agents/skills")),
        project_skills: Some(dir(Anchor::Cwd, ".agents/skills")),
    };
    assert(r@.env_markers =~= registry()[11].env_markers);
    assert(r@.binary_markers =~= registry()[11].binary_markers);
    r
}

fn generic_target() -> (r: AgentTarget)
    ensures
        r@ == registry()[12],
{
    let r = AgentTarget {
        name: "generic",
        display: "Generic AGENTS.md",
        env_markers: Vec::new(),
        binary_markers: Vec::new(),
        style: ConfigStyle::AppendBlock,
        shim_style: ShimStyle::Unsupported,
        config: Some(file(Anchor::Config, "agents/AGENTS", ".md")),
        home_skills: None,
        project_skills: None,
    };
    assert(r@.env_markers =~= registry()[12].env_markers);
    assert(r@.binary_markers =~= registry()[12].binary_markers);
    r
}

/// The agents that are known.
pub fn targets() -> (r: Vec<AgentTarget>)
    ensures
        target_views(r@) == registry(),
{
    let mut v: Vec<AgentTarget> = Vec::new();
    v.push(codex_target());
    v.push(cursor_target());
    v.push(windsurf_target());
    v.push(cline_target());
    v.push(continue_dev_target());
    v.push(kiro_target());
    v.push(trae_target());
    v.push(aider_target());
    v.push(gemini_target());
    v.push(opencode_target());
    v.push(factory_target());
    v.push(amp_target());
    v.push(generic_target());
    assert(target_views(v@) =~= registry());
    v
}

// ---------------------------------------------------------------------------
// Finding
// ---------------------------------------------------------------------------

/// The position, from `from` on, of the agent with a name.
pub open spec fn target_index(all: Seq<TargetView>, name: Seq<char>, from: int) -> Option<int>
    decreases all.len() - from,
{
    if from < 0 || from >= all.len() {
        None
    } else if all[from].name == name {
        Some(from)
    } else {
        target_index(all, name, from + 1)
    }
}

/// The agent with a name, of a list of agents.
pub open spec fn target_named(all: Seq<TargetView>, name: Seq<char>) -> Option<TargetView> {
    match target_index(all, name, 0) {
        Some(i) => Some(all[i]),
        None => None,
    }
}

pub open spec fn opt_target_view(o: Option<AgentTarget>) -> Option<TargetView> {
    match o {
        Some(t) => Some(t@),
        None => None,
    }
}

fn copy_texts(v: &Vec<&'static str>) -> (r: Vec<&'static str>)
    ensures
        r@ == v@,
{
    let mut out: Vec<&'static str> = Vec::new();
    let mut i: usize = 0;
    while i < v.len()
        invariant
            i <= v.len(),
            out@ == v@.take(i as int),
        decreases v.len() - i,
    {
        out.push(v[i]);
        i += 1;
        assert(out@ =~= v@.take(i as int));
    }
    assert(v@.take(i as int) =~= v@);
    out
}

impl AgentTarget {
    /// The same agent once more.
    pub fn copy(&self) -> (r: AgentTarget)
        ensures
            r@ == self@,
    {
        AgentTarget {
            name: self.name,
            display: self.display,
            env_markers: copy_texts(&self.env_markers),
            binary_markers: copy_texts(&self.binary_markers),
            style: self.style,
            shim_style: self.shim_style,
            config: self.config,
            home_skills: self.home_skills,
            project_skills: self.project_skills,
        }
    }
}

/// The agents of a list once more.
pub fn copy_all(all: &Vec<AgentTarget>) -> (r: Vec<AgentTarget>)
    ensures
        target_views(r@) == target_views(all@),
{
    let mut out: Vec<AgentTarget> = Vec::new();
    let mut i: usize = 0;
    while i < all.len()
        invariant
            i <= all.len(),
            out@.len() == i,
            forall|j: int| 0 <= j < i ==> (#[trigger] out@[j])@ == all@[j]@,
        decreases all.len() - i,
    {
        out.push(all[i].copy());
        i += 1;
    }
    assert(target_views(out@) =~= target_views(all@));
    out
}

/// The agent with a name, of a list of agents.
pub fn find(all: &Vec<AgentTarget>, name: &str) -> (r: Option<AgentTarget>)
    ensures
        opt_target_view(r) == target_named(target_views(all@), name@),
{
    let ghost views = target_views(all@);
    let mut i: usize = 0;
    while i < all.len()
        invariant
            i <= all.len(),
            views == target_views(all@),
            target_index(views, name@, 0) == target_index(views, name@, i as int),
        decreases all.len() - i,
    {
        assert(views[i as int] == all@[i as int]@);
        if same(all[i].name, name) {
            return Some(all[i].copy());
        }
        i += 1;
    }
    None
}

/// The names of the agents of a list.
pub open spec fn target_names(all: Seq<TargetView>) -> Seq<Seq<char>> {
    Seq::new(all.len(), |i: int| all[i].name)
}

/// The names of the agents of a list.
pub fn names(all: &Vec<AgentTarget>) -> (r: Vec<&'static str>)
    ensures
        slice_views(r@) == target_names(target_views(all@)),
{
    let mut out: Vec<&'static str> = Vec::new();
    let mut i: usize = 0;
    while i < all.len()
        invariant
            i <= all.len(),
            out@.len() == i,
            forall|j: int| 0 <= j < i ==> (#[trigger] out@[j])@ == all@[j]@.name,
        decreases all.len() - i,
    {
        out.push(all[i].name);
        i += 1;
    }
    assert(slice_views(out@) =~= target_names(target_views(all@)));
    out
}

// ---------------------------------------------------------------------------
// Paths
// ---------------------------------------------------------------------------

/// The directories that paths start from, as far as they are known.
pub struct Machine<'a> {
    pub home: Option<&'a str>,
    pub config: Option<&'a str>,
    pub cwd: Option<&'a str>,
    /// The variables of the environment, each with its value.
    pub vars: Vec<(&'a str, &'a str)>,
}

/// The directories that paths start from, as a mathematical value.
pub ghost struct MachineView {
    pub home: Option<Seq<char>>,
    pub config: Option<Seq<char>>,
    pub cwd: Option<Seq<char>>,
    pub vars: Seq<(Seq<char>, Seq<char>)>,
}

/// Variables and their values.
pub open spec fn var_views(v: Seq<(&str, &str)>) -> Seq<(Seq<char>, Seq<char>)> {
    Seq::new(v.len(), |i: int| (v[i].0@, v[i].1@))
}

impl<'a> View for Machine<'a> {
    type V = MachineView;

    open spec fn view(&self) -> MachineView {
        MachineView {
            home: opt_str_view(self.home),
            config: opt_str_view(self.config),
            cwd: opt_str_view(self.cwd),
            vars: var_views(self.vars@),
        }
    }
}

/// The value of a variable, from position `from` on, if it is set.
pub open spec fn var_value(
    vars: Seq<(Seq<char>, Seq<char>)>,
    name: Seq<char>,
    from: int,
) -> Option<Seq<char>>
    decreases vars.len() - from,
{
    if from < 0 || from >= vars.len() {
        None
    } else if vars[from].0 == name {
        Some(vars[from].1)
    } else {
        var_value(vars, name, from + 1)
    }
}

/// A directory in the home directory, unless the environment names another one.
pub open spec fn own_dir(env: Option<Seq<char>>, home: Option<Seq<char>>, rel: Seq<char>) -> Option<
    Seq<char>,
> {
    match (env, home) {
        (Some(d), _) => Some(d),
        (None, Some(h)) => Some(below(h, rel)),
        (None, None) => None,
    }
}

/// The directory that an anchor stands for, if it is known.
pub open spec fn anchored(a: AnchorView, m: MachineView) -> Option<Seq<char>> {
    match a {
        AnchorView::Home => m.home,
        AnchorView::Config => m.config,
        AnchorView::Own { var, dir } => own_dir(var_value(m.vars, var, 0), m.home, dir),
        AnchorView::Cwd => m.cwd,
    }
}

/// The path of a place, if its anchor is known.
pub open spec fn place_path(p: PlaceView, m: MachineView) -> Option<Seq<char>> {
    match anchored(p.anchor, m) {
        Some(d) => Some(below(d, p.rel)),
        None => None,
    }
}

/// Where the notice for an agent is written, if anywhere.
pub open spec fn config_place(t: TargetView, m: MachineView) -> Option<Seq<char>> {
    match t.config {
        Some(p) => place_path(p, m),
        None => None,
    }
}

/// Where an agent's skills are put in a scope, if anywhere.
pub open spec fn skills_root(t: TargetView, scope: Scope, m: MachineView) -> Option<Seq<char>> {
    let place = match scope {
        Scope::Home => t.home_skills,
        Scope::Project => t.project_skills,
    };
    match place {
        Some(p) => place_path(p, m),
        None => None,
    }
}

fn find_var<'a>(vars: &Vec<(&'a str, &'a str)>, name: &str) -> (r: Option<&'a str>)
    ensures
        opt_str_view(r) == var_value(var_views(vars@), name@, 0),
{
    let ghost s = var_views(vars@);
    let mut i: usize = 0;
    while i < vars.len()
        invariant
            i <= vars.len(),
            s == var_views(vars@),
            var_value(s, name@, 0) == var_value(s, name@, i as int),
        decreases vars.len() - i,
    {
        assert(s[i as int] == (vars@[i as int].0@, vars@[i as int].1@));
        if same(vars[i].0, name) {
            return Some(vars[i].1);
        }
        i += 1;
    }
    None
}

fn find_own_dir(env: Option<&str>, home: Option<&str>, rel: &str) -> (r: Option<String>)
    ensures
        opt_view(r) == own_dir(opt_str_view(env), opt_str_view(home), rel@),
{
    match (env, home) {
        (Some(d), _) => Some(d.to_owned()),
        (None, Some(h)) => Some(join_path(h, rel)),
        (None, None) => None,
    }
}

impl Place {
    /// The path of the place, if its anchor is known.
    pub fn path(&self, m: &Machine) -> (r: Option<String>)
        ensures
            opt_view(r) == place_path(self@, m@),
    {
        let dir = match self.anchor {
            Anchor::Home => crate::text::opt_owned(m.home),
            Anchor::Config => crate::text::opt_owned(m.config),
            Anchor::Own { var, dir } => find_own_dir(find_var(&m.vars, var), m.home, dir),
            Anchor::Cwd => crate::text::opt_owned(m.cwd),
        };
        match dir {
            Some(d) => {
                let mut rel = self.rel.to_owned();
                rel.append(self.ext);
                Some(join_path(d.as_str(), rel.as_str()))
            },
            None => None,
        }
    }
}

impl AgentTarget {
    /// Where the notice is written, if the machine has a place for it.
    pub fn config_path(&self, m: &Machine) -> (r: Option<String>)
        ensures
            opt_view(r) == config_place(self@, m@),
    {
        match &self.config {
            Some(p) => p.path(m),
            None => None,
        }
    }

    /// Where skills are put in a scope, if anywhere.
    pub fn shim_root(&self, scope: Scope, m: &Machine) -> (r: Option<String>)
        ensures
            opt_view(r) == skills_root(self@, scope, m@),
    {
        let place = match scope {
            Scope::Home => &self.home_skills,
            Scope::Project => &self.project_skills,
        };
        match place {
            Some(p) => p.path(m),
            None => None,
        }
    }
}

// ---------------------------------------------------------------------------
// Laws
// ---------------------------------------------------------------------------

/// No two agents have the same name.
pub proof fn law_names_are_distinct(i: int, j: int)
    requires
        0 <= i < j < registry().len(),
    ensures
        registry()[i].name != registry()[j].name,
{
    reveal_strlit("codex");
    reveal_strlit("cursor");
    reveal_strlit("windsurf");
    reveal_strlit("cline");
    reveal_strlit("continue");
    reveal_strlit("kiro");
    reveal_strlit("trae");
    reveal_strlit("aider");
    reveal_strlit("gemini");
    reveal_strlit("opencode");
    reveal_strlit("factory");
    reveal_strlit("amp");
    reveal_strlit("generic");
    assert("codex"@.len() == 5 && "codex"@[0] == 'c' && "codex"@[1] == 'o');
    assert("cursor"@.len() == 6 && "cursor"@[0] == 'c' && "cursor"@[1] == 'u');
    assert("windsurf"@.len() == 8 && "windsurf"@[0] == 'w' && "windsurf"@[1] == 'i');
    assert("cline"@.len() == 5 && "cline"@[0] == 'c' && "cline"@[1] == 'l');
    assert("continue"@.len() == 8 && "continue"@[0] == 'c' && "continue"@[1] == 'o');
    assert("kiro"@.len() == 4 && "kiro"@[0] == 'k' && "kiro"@[1] == 'i');
    assert("trae"@.len() == 4 && "trae"@[0] == 't' && "trae"@[1] == 'r');
    assert("aider"@.len() == 5 && "aider"@[0] == 'a' && "aider"@[1] == 'i');
    assert("gemini"@.len() == 6 && "gemini"@[0] == 'g' && "gemini"@[1] == 'e');
    assert("opencode"@.len() == 8 && "opencode"@[0] == 'o' && "opencode"@[1] == 'p');
    assert("factory"@.len() == 7 && "factory"@[0] == 'f' && "factory"@[1] == 'a');
    assert("amp"@.len() == 3 && "amp"@[0] == 'a' && "amp"@[1] == 'm');
    assert("generic"@.len() == 7 && "generic"@[0] == 'g' && "generic"@[1] == 'e');
}

/// No two agents of the list have the same name.
pub open spec fn all_distinct(all: Seq<TargetView>) -> bool {
    forall|i: int, j: int|
        0 <= i < j < all.len() ==> (#[trigger] all[i]).name != (#[trigger] all[j]).name
}

/// Each agent is found under its own name.
pub proof fn law_every_target_is_found(i: int)
    requires
        0 <= i < registry().len(),
    ensures
        target_named(registry(), registry()[i].name) == Some(registry()[i]),
{
    assert forall|a: int, b: int| 0 <= a < b < registry().len() implies (
    #[trigger] registry()[a]).name != (#[trigger] registry()[b]).name by {
        law_names_are_distinct(a, b);
    }
    lemma_found_from(registry(), i, 0);
}

/// An agent with a new name that is put before a list is found, and so is each agent of
/// the list still.
pub proof fn law_an_added_target_is_found(all: Seq<TargetView>, t: TargetView, i: int)
    requires
        all_distinct(all),
        0 <= i < all.len(),
        forall|j: int| 0 <= j < all.len() ==> (#[trigger] all[j]).name != t.name,
    ensures
        target_named(seq![t] + all, t.name) == Some(t),
        target_named(seq![t] + all, all[i].name) == Some(all[i]),
        target_names(seq![t] + all) == seq![t.name] + target_names(all),
{
    let more = seq![t] + all;
    assert(more[0] == t);
    assert(forall|j: int| 1 <= j < more.len() ==> #[trigger] more[j] == all[j - 1]);
    lemma_found_from(more, 0, 0);
    assert(more[i + 1] == all[i]);
    lemma_found_from(more, i + 1, 0);
    assert(target_names(more) =~= seq![t.name] + target_names(all));
}

proof fn lemma_found_from(all: Seq<TargetView>, i: int, from: int)
    requires
        all_distinct(all),
        0 <= from <= i < all.len(),
    ensures
        target_index(all, all[i].name, from) == Some(i),
    decreases i - from,
{
    if from < i {
        lemma_found_from(all, i, from + 1);
    }
}

/// On a machine with a home directory and a directory of configuration, the notice for
/// every agent has a place.
pub proof fn law_every_notice_has_a_place(i: int, m: MachineView)
    requires
        0 <= i < registry().len(),
        m.home is Some,
        m.config is Some,
    ensures
        config_place(registry()[i], m) is Some,
{
}

/// Where skills are blocks in a context file, that file is the one that holds the
/// notice, in either scope; where skills are not put at all, there is no place for
/// them.
pub proof fn law_places_fit_the_style(i: int, scope: Scope, m: MachineView)
    requires
        0 <= i < registry().len(),
    ensures
        registry()[i].shim_style == ShimStyle::TextBlock ==> skills_root(registry()[i], scope, m)
            == config_place(registry()[i], m),
        registry()[i].shim_style == ShimStyle::Unsupported <==> registry()[i].home_skills is None,
        registry()[i].shim_style == ShimStyle::Unsupported ==> skills_root(registry()[i], scope, m) is None,
{
}

} // verus!
