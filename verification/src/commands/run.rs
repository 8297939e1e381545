//! `knack run`: the record that a skill is being used.
//!
//! The work itself is the calling agent's. What is kept is which version was used, by
//! whom and on what.

use vstd::prelude::*;

use crate::commands::link::skill_not_found;
use crate::errors::{copy_error, CliError, ErrorView};
use crate::github::workspace::{outcome, read_workspace_auto_push, workspace_auto_push};
use crate::json::{
    forms, json_list, member_views, no_members, text_or_null, text_values, with_member, Json,
    JsonForm, JsonView,
};
use crate::output::{display_path, shown_path};
use crate::slug::{parse_slug_at_version, slug_parts};
use crate::text::{
    concat3, concat4, concat5, cut_last, drop_leading, drop_trailing, has_suffix, opt_owned, opt_str,
    opt_str_view, opt_view, rsplit_once, same, strip_suffix, trim_end, trim_start, views, CharClass,
};
use crate::yaml::{field_result, value_field, yaml_value_field, FieldView, YamlField};

verus! {

/// The arguments of `knack run`.
#[derive(Debug, Clone)]
pub struct RunArgs {
    pub slug: String,
    pub input: Vec<String>,
    pub runtime: Option<String>,
    pub agent_id: Option<String>,
    pub no_exec: bool,
    pub dry: bool,
    pub no_push: bool,
}

/// The tag of the calling agent.
pub fn runtime_tag(runtime: Option<&str>) -> (r: String)
    ensures
        r@ == (match opt_str_view(runtime) {
            Some(t) => t,
            None => "agent"@,
        }),
{
    match runtime {
        Some(t) => t.to_owned(),
        None => "agent".to_owned(),
    }
}

// ---------------------------------------------------------------------------
// Inputs
// ---------------------------------------------------------------------------

/// The last part of a path, if it names something: neither the directory itself nor
/// the one above.
pub open spec fn file_name_of(p: Seq<char>) -> Option<Seq<char>>
    decreases p.len(),
{
    let s = drop_trailing(p, CharClass::One('/'));
    if s.len() >= 2 && s.len() <= p.len() && has_suffix(s, "/."@) {
        file_name_of(s.take(s.len() - 2))
    } else {
        let name = match cut_last(s, "/"@) {
            Some((_, n)) => n,
            None => s,
        };
        if name.len() == 0 || name == "."@ || name == ".."@ {
            None
        } else {
            Some(name)
        }
    }
}

/// The last part of a path, if it names something.
pub fn file_name(path: &str) -> (r: Option<&str>)
    ensures
        opt_str_view(r) == file_name_of(path@),
{
    let mut p = path;
    proof {
        reveal_strlit("/.");
    }
    loop
        invariant
            file_name_of(path@) == file_name_of(p@),
            "/."@.len() == 2,
        decreases p@.len(),
    {
        let s = trim_end(p, CharClass::One('/'));
        proof {
            crate::text::lemma_drop_trailing_is_take(p@, CharClass::One('/'));
            assert(s@.len() <= p@.len());
        }
        match strip_suffix(s, "/.") {
            Some(t) => {
                p = t;
            },
            None => {
                let name = match rsplit_once(s, "/") {
                    Some((_, n)) => n,
                    None => s,
                };
                if name.is_empty() || same(name, ".") || same(name, "..") {
                    return None;
                }
                return Some(name);
            },
        }
    }
}

/// A file that a run reads.
#[derive(Debug)]
pub struct InputFile {
    pub path: String,
}

impl JsonForm for InputFile {
    open spec fn json(&self) -> JsonView {
        JsonView::Object(
            seq![
                ("path"@, JsonView::Text(self.path@)),
                ("filename"@, text_or_null(file_name_of(self.path@))),
            ],
        )
    }

    fn to_json(&self) -> (r: Json) {
        let m = with_member(no_members(), "path", Json::text(self.path.as_str()));
        let m = with_member(m, "filename", Json::opt_text(file_name(self.path.as_str())));
        assert(member_views(m@) =~= self.json()->Object_0);
        Json::object(m)
    }
}

/// A file that a run reads, as JSON.
pub open spec fn input_json(path: Seq<char>) -> JsonView {
    JsonView::Object(
        seq![
            ("path"@, JsonView::Text(path)),
            ("filename"@, text_or_null(file_name_of(path))),
        ],
    )
}

/// The files that a run reads, as the server is told of them: nothing where there
/// are none.
pub open spec fn inputs_json(paths: Seq<Seq<char>>) -> Option<JsonView> {
    if paths.len() == 0 {
        None
    } else {
        Some(
            JsonView::Object(
                seq![
                    (
                        "files"@,
                        JsonView::Array(Seq::new(paths.len(), |i: int| input_json(paths[i]))),
                    ),
                ],
            ),
        )
    }
}

/// The files that a run reads, as the server is told of them.
pub fn inputs_summary(input: &Vec<String>) -> (r: Option<Json>)
    ensures
        match r {
            Some(v) => inputs_json(views(input@)) == Some(v.value()),
            None => inputs_json(views(input@)) is None,
        },
{
    if input.len() == 0 {
        return None;
    }
    let ghost s = views(input@);
    let mut files: Vec<InputFile> = Vec::new();
    let mut i: usize = 0;
    while i < input.len()
        invariant
            i <= input.len(),
            files@.len() == i,
            forall|j: int| 0 <= j < i ==> (#[trigger] files@[j]).path@ == input@[j]@,
        decreases input.len() - i,
    {
        files.push(InputFile { path: input[i].clone() });
        i += 1;
    }
    assert(forms(files@) =~= Seq::new(s.len(), |i: int| input_json(s[i])));
    let m = with_member(no_members(), "files", json_list(&files));
    assert(member_views(m@) =~= inputs_json(s)->0->Object_0);
    Some(Json::object(m))
}

// ---------------------------------------------------------------------------
// Versions
// ---------------------------------------------------------------------------

/// The error for a version that is not there.
pub fn no_such_version(slug: &str, version: &str) -> (r: CliError)
    ensures
        r@ == ErrorView::NotFound("skill `"@ + slug@ + "` has no version `"@ + version@ + "`"@),
{
    CliError::NotFound(concat5("skill `", slug, "` has no version `", version, "`"))
}

/// The error of asking for a version that is not there: it is named. Any other error
/// stays.
pub fn version_lookup_error(slug: &str, version: &str, e: CliError) -> (r: CliError)
    ensures
        if e@ is NotFound {
            r@ == ErrorView::NotFound("skill `"@ + slug@ + "` has no version `"@ + version@ + "`"@)
        } else {
            r == e
        },
{
    match e {
        CliError::NotFound(_) => no_such_version(slug, version),
        e => e,
    }
}

/// The version that a document states, and a first one where it states none.
pub open spec fn meta_version(f: Option<Result<FieldView, Seq<char>>>) -> Seq<char> {
    match f {
        Some(Ok(FieldView::Text(v))) => v,
        _ => "0.0.0"@,
    }
}

/// The version that a document states, by what stands under its key.
pub fn version_in(field: Option<Result<YamlField, String>>) -> (r: String)
    ensures
        r@ == meta_version(
            match field {
                Some(f) => Some(field_result(f)),
                None => None,
            },
        ),
{
    match field {
        Some(Ok(YamlField::Text(v))) => v,
        _ => "0.0.0".to_owned(),
    }
}

/// The version that a skill's file states, and a first one where it states none or
/// cannot be read.
pub fn read_meta_version(meta: Option<&Vec<u8>>) -> (r: String)
    ensures
        r@ == meta_version(
            match meta {
                Some(b) => Some(yaml_value_field(b@, "version"@)),
                None => None,
            },
        ),
{
    match meta {
        Some(b) => version_in(Some(value_field(b.as_slice(), "version"))),
        None => version_in(None),
    }
}

/// The version that a run is recorded under: the one that is asked for, without a
/// `v` before it, else the one that the skill's file states.
pub fn recorded_version(asked: Option<&str>, stated: String) -> (r: String)
    ensures
        r@ == (match opt_str_view(asked) {
            Some(v) => drop_leading(v, CharClass::One('v')),
            None => stated@,
        }),
{
    match asked {
        Some(v) => trim_start(v, CharClass::One('v')).to_owned(),
        None => stated,
    }
}

// ---------------------------------------------------------------------------
// In a repository of one's own
// ---------------------------------------------------------------------------

/// What is recorded of a run.
#[derive(Debug)]
pub struct RunRequest {
    pub slug: String,
    pub version: String,
    pub agent: String,
    pub inputs: Vec<String>,
}

/// What is recorded of a run in a repository: the skill has to be there.
pub fn github_run(
    args: &RunArgs,
    local_path: &str,
    skill_is_dir: bool,
    meta: Option<&Vec<u8>>,
) -> (r: Result<RunRequest, CliError>)
    ensures
        ({
            let (slug, asked) = slug_parts(args.slug@);
            match r {
                Ok(q) => skill_is_dir && q.slug@ == slug && q.version@ == (match asked {
                    Some(v) => drop_leading(v, CharClass::One('v')),
                    None => meta_version(
                        match meta {
                            Some(b) => Some(yaml_value_field(b@, "version"@)),
                            None => None,
                        },
                    ),
                }) && q.agent@ == (match opt_view(args.runtime) {
                    Some(t) => t,
                    None => "agent"@,
                }) && views(q.inputs@) == views(args.input@),
                Err(e) => !skill_is_dir && e@ == ErrorView::NotFound(
                    "skill `"@ + slug + "` not found in "@ + local_path@,
                ),
            }
        }),
{
    let (slug, asked) = parse_slug_at_version(args.slug.as_str());
    if !skill_is_dir {
        return Err(
            CliError::NotFound(
                crate::text::concat4("skill `", slug, "` not found in ", local_path),
            ),
        );
    }
    Ok(
        RunRequest {
            slug: slug.to_owned(),
            version: recorded_version(asked, read_meta_version(meta)),
            agent: runtime_tag(opt_str(&args.runtime)),
            inputs: crate::text::clone_strings(&args.input),
        },
    )
}

/// Whether telemetry is pushed: neither the flag nor the workspace forbids it. A
/// workspace whose file cannot be read as it should is an error. The switch in the
/// environment is looked at when it comes to pushing.
pub open spec fn push_flag(
    no_push: bool,
    workspace: Result<Option<bool>, Seq<char>>,
) -> Result<bool, Seq<char>> {
    if no_push {
        Ok(false)
    } else {
        match workspace {
            Ok(Some(false)) => Ok(false),
            Ok(_) => Ok(true),
            Err(e) => Err(e),
        }
    }
}

/// Whether telemetry is pushed, by what the workspace says.
pub fn push_flag_from(
    no_push: bool,
    workspace: Result<Option<bool>, String>,
) -> (r: Result<bool, String>)
    ensures
        outcome(r) == push_flag(no_push, outcome(workspace)),
{
    if no_push {
        return Ok(false);
    }
    match workspace {
        Ok(Some(b)) => Ok(b),
        Ok(None) => Ok(true),
        Err(e) => Err(e),
    }
}

/// Whether telemetry is pushed, by the text of the workspace's `knack.yaml`, if
/// there is one.
pub fn resolve_push_flag(text: Option<&str>, cli_no_push: bool) -> (r: Result<bool, String>)
    ensures
        outcome(r) == push_flag(cli_no_push, workspace_auto_push(opt_str_view(text))),
{
    push_flag_from(cli_no_push, read_workspace_auto_push(text))
}

/// What is reported of a run that was recorded.
pub open spec fn run_report(id: Seq<char>, q: RunRequest, day_file: Seq<char>) -> JsonView {
    JsonView::Object(
        seq![
            ("run_id"@, JsonView::Text(id)),
            ("slug"@, JsonView::Text(q.slug@)),
            ("version"@, JsonView::Text(q.version@)),
            ("agent"@, JsonView::Text(q.agent@)),
            ("inputs"@, JsonView::Array(text_values(views(q.inputs@)))),
            ("status"@, JsonView::Text("started"@)),
            ("backend"@, JsonView::Text("github"@)),
            ("log_file"@, JsonView::Text(shown_path(day_file))),
        ],
    )
}

/// What is reported of a run that was recorded.
pub fn run_json(run_id: &str, q: &RunRequest, day_file: &str) -> (r: Json)
    ensures
        r.value() == run_report(run_id@, *q, day_file@),
{
    let shown = display_path(day_file);
    let m = with_member(no_members(), "run_id", Json::text(run_id));
    let m = with_member(m, "slug", Json::text(q.slug.as_str()));
    let m = with_member(m, "version", Json::text(q.version.as_str()));
    let m = with_member(m, "agent", Json::text(q.agent.as_str()));
    let m = with_member(m, "inputs", Json::texts(&q.inputs));
    let m = with_member(m, "status", Json::text("started"));
    let m = with_member(m, "backend", Json::text("github"));
    let m = with_member(m, "log_file", Json::Text(shown));
    assert(member_views(m@) =~= run_report(run_id@, *q, day_file@)->Object_0);
    Json::object(m)
}

// ---------------------------------------------------------------------------
// At the server
// ---------------------------------------------------------------------------

/// A skill as the server knows it.
#[derive(Debug)]
pub struct RunSkill {
    pub id: String,
    pub current_version_id: Option<String>,
}

/// What is known while a run is recorded. What was not asked for yet is not there.
#[derive(Debug)]
pub struct RunFacts {
    pub skill: Option<Result<Option<RunSkill>, CliError>>,
    /// The id of the version that was asked for.
    pub version_id: Option<Result<String, CliError>>,
    pub started: Option<Result<(), CliError>>,
}

/// What the server is sent for a run.
#[derive(Debug)]
pub struct RunCreate {
    pub skill_version_id: String,
    pub agent_id: Option<String>,
    pub runtime: String,
    pub inputs_summary: Option<Json>,
}

/// What is done next.
#[derive(Debug)]
pub enum RunAction {
    Fail(CliError),
    FindSkill { slug: String },
    GetVersion { skill_id: String, version: String },
    Start(RunCreate),
    Done,
}

/// What is done next, as a mathematical value.
pub ghost enum RunView {
    Fail(ErrorView),
    FindSkill { slug: Seq<char> },
    GetVersion { skill_id: Seq<char>, version: Seq<char> },
    Start {
        version_id: Seq<char>,
        agent_id: Option<Seq<char>>,
        runtime: Seq<char>,
        inputs: Option<JsonView>,
    },
    Done,
}

impl View for RunAction {
    type V = RunView;

    open spec fn view(&self) -> RunView {
        match *self {
            RunAction::Fail(e) => RunView::Fail(e@),
            RunAction::FindSkill { slug } => RunView::FindSkill { slug: slug@ },
            RunAction::GetVersion { skill_id, version } => RunView::GetVersion {
                skill_id: skill_id@,
                version: version@,
            },
            RunAction::Start(c) => RunView::Start {
                version_id: c.skill_version_id@,
                agent_id: opt_view(c.agent_id),
                runtime: c.runtime@,
                inputs: match c.inputs_summary {
                    Some(j) => Some(j.value()),
                    None => None,
                },
            },
            RunAction::Done => RunView::Done,
        }
    }
}

/// The error of a version that could not be found, or any other.
pub open spec fn version_error(slug: Seq<char>, version: Seq<char>, e: ErrorView) -> ErrorView {
    if e is NotFound {
        ErrorView::NotFound("skill `"@ + slug + "` has no version `"@ + version + "`"@)
    } else {
        e
    }
}

/// The run that is recorded, once the version is known.
pub open spec fn start_next(args: RunArgs, version_id: Seq<char>, f: RunFacts) -> RunView {
    match f.started {
        None => RunView::Start {
            version_id,
            agent_id: opt_view(args.agent_id),
            runtime: match opt_view(args.runtime) {
                Some(t) => t,
                None => "agent"@,
            },
            inputs: inputs_json(views(args.input@)),
        },
        Some(Err(e)) => RunView::Fail(e@),
        Some(Ok(_)) => RunView::Done,
    }
}

/// What is done next while a run is recorded: with the version that is asked for,
/// else with the one that is published.
pub open spec fn run_next(args: RunArgs, f: RunFacts) -> RunView {
    let (slug, wanted) = slug_parts(args.slug@);
    match f.skill {
        None => RunView::FindSkill { slug },
        Some(Err(e)) => RunView::Fail(e@),
        Some(Ok(None)) => RunView::Fail(ErrorView::NotFound("skill `"@ + slug + "` not found"@)),
        Some(Ok(Some(s))) => match wanted {
            Some(v) => match f.version_id {
                None => RunView::GetVersion { skill_id: s.id@, version: v },
                Some(Err(e)) => RunView::Fail(version_error(slug, v, e@)),
                Some(Ok(id)) => start_next(args, id@, f),
            },
            None => match opt_view(s.current_version_id) {
                Some(id) => start_next(args, id, f),
                None => RunView::Fail(
                    ErrorView::NotFound("skill `"@ + slug + "` has no published version"@),
                ),
            },
        },
    }
}

fn start(args: &RunArgs, version_id: &str, f: &RunFacts) -> (r: RunAction)
    ensures
        r@ == start_next(*args, version_id@, *f),
{
    match &f.started {
        None => RunAction::Start(
            RunCreate {
                skill_version_id: version_id.to_owned(),
                agent_id: opt_owned(opt_str(&args.agent_id)),
                runtime: runtime_tag(opt_str(&args.runtime)),
                inputs_summary: inputs_summary(&args.input),
            },
        ),
        Some(Err(e)) => RunAction::Fail(copy_error(e)),
        Some(Ok(_)) => RunAction::Done,
    }
}

/// What is done next while a run is recorded.
pub fn run(args: &RunArgs, f: &RunFacts) -> (r: RunAction)
    ensures
        r@ == run_next(*args, *f),
{
    let (slug, wanted) = parse_slug_at_version(args.slug.as_str());
    match &f.skill {
        None => RunAction::FindSkill { slug: slug.to_owned() },
        Some(Err(e)) => RunAction::Fail(copy_error(e)),
        Some(Ok(None)) => RunAction::Fail(skill_not_found(slug)),
        Some(Ok(Some(s))) => match wanted {
            Some(v) => match &f.version_id {
                None => RunAction::GetVersion { skill_id: s.id.clone(), version: v.to_owned() },
                Some(Err(e)) => RunAction::Fail(version_lookup_error(slug, v, copy_error(e))),
                Some(Ok(id)) => start(args, id.as_str(), f),
            },
            None => match &s.current_version_id {
                Some(id) => start(args, id.as_str(), f),
                None => RunAction::Fail(
                    CliError::NotFound(concat3("skill `", slug, "` has no published version")),
                ),
            },
        },
    }
}

/// What is reported of a run that was recorded at the server.
pub fn started_json(run_id: &str, version_id: &str, runtime: &str) -> (r: Json)
    ensures
        r.value() == JsonView::Object(
            seq![
                ("run_id"@, JsonView::Text(run_id@)),
                ("skill_version_id"@, JsonView::Text(version_id@)),
                ("runtime"@, JsonView::Text(runtime@)),
            ],
        ),
{
    let m = with_member(no_members(), "run_id", Json::text(run_id));
    let m = with_member(m, "skill_version_id", Json::text(version_id));
    let m = with_member(m, "runtime", Json::text(runtime));
    assert(member_views(m@) =~= seq![
        ("run_id"@, JsonView::Text(run_id@)),
        ("skill_version_id"@, JsonView::Text(version_id@)),
        ("runtime"@, JsonView::Text(runtime@)),
    ]);
    Json::object(m)
}

/// What people are told of a run that was recorded at the server.
pub fn started_lines(slug: &str, run_id: &str) -> (r: Vec<String>)
    ensures
        views(r@) == seq![
            "✓ run registered · "@ + run_id@,
            "  next: read ~/.knack/skills/"@ + slug@ + "/SKILL.md and do the work yourself,"@,
            "        then `knack mark "@ + run_id@ + " succeeded` (or `failed --note \"…\"`)."@,
        ],
{
    let mut out: Vec<String> = Vec::new();
    out.push(crate::errors::prefixed("✓ run registered · ", run_id));
    out.push(
        concat3("  next: read ~/.knack/skills/", slug, "/SKILL.md and do the work yourself,"),
    );
    out.push(
        concat3(
            "        then `knack mark ",
            run_id,
            " succeeded` (or `failed --note \"…\"`).",
        ),
    );
    assert(views(out@) =~= seq![
        "✓ run registered · "@ + run_id@,
        "  next: read ~/.knack/skills/"@ + slug@ + "/SKILL.md and do the work yourself,"@,
        "        then `knack mark "@ + run_id@ + " succeeded` (or `failed --note \"…\"`)."@,
    ]);
    out
}

/// What people are told of a run that was recorded in a repository.
pub fn run_lines(slug: &str, run_id: &str, day_file: &str) -> (r: Vec<String>)
    ensures
        views(r@) == seq![
            "✓ "@ + slug@ + " run-id: "@ + run_id@,
            "  recorded to "@ + shown_path(day_file@),
            ""@,
            "close the loop with: knack mark "@ + run_id@
                + " succeeded   (or `failed --reason …`)"@,
        ],
{
    let shown = display_path(day_file);
    let mut out: Vec<String> = Vec::new();
    out.push(concat4("✓ ", slug, " run-id: ", run_id));
    out.push(crate::errors::prefixed("  recorded to ", shown.as_str()));
    out.push("".to_owned());
    out.push(
        concat3(
            "close the loop with: knack mark ",
            run_id,
            " succeeded   (or `failed --reason …`)",
        ),
    );
    assert(views(out@) =~= seq![
        "✓ "@ + slug@ + " run-id: "@ + run_id@,
        "  recorded to "@ + shown_path(day_file@),
        ""@,
        "close the loop with: knack mark "@ + run_id@ + " succeeded   (or `failed --reason …`)"@,
    ]);
    out
}

} // verus!
