//! `knack export`: all skills in a directory.

use vstd::prelude::*;

use crate::api::error::{status_line, status_text};
use crate::config::{below, join_path};
use crate::errors::{message_of, user_error_hint, CliError, ErrorView};
use crate::json::{
    forms, json_list, member_views, no_members, text_or_null, text_values, with_member, Json,
    JsonForm, JsonView,
};
use crate::numbers::{decimal, u64_text, usize_text, zero_pad, zero_padded};
use crate::output::{display_path, shown_path, Told};
use crate::text::{
    concat3, concat4, concat5, concat6, concat7, opt_str_view, opt_view, views,
};
use crate::time::{
    date_of, date_rendered, day_of, render_date, second_of_day, shown_second, time_of_day,
    Timestamp,
};

pub mod laws;

verus! {

/// The seconds that a download may take.
pub const BUNDLE_GET_TIMEOUT_S: u64 = 60;

/// How often a download is tried.
pub const BUNDLE_GET_MAX_ATTEMPTS: u32 = 3;

/// The arguments of `knack export`.
#[derive(Debug, Clone)]
pub struct ExportArgs {
    pub to: Option<String>,
    pub scope: Option<String>,
    pub limit: u32,
    pub force: bool,
}

// ---------------------------------------------------------------------------
// The directory
// ---------------------------------------------------------------------------

/// A moment as it stands in the name of a directory, by its day as text.
pub open spec fn stamp(day: Seq<char>, t: Timestamp) -> Seq<char> {
    day + "T"@ + zero_padded(second_of_day(t) / 3600, 2) + "-"@ + zero_padded(
        second_of_day(t) % 3600 / 60,
        2,
    ) + "-"@ + zero_padded(shown_second(t), 2)
}

/// The directory to export to: the one that is asked for, else one that is named
/// after the moment, so that two exports do not get into each other's way.
pub open spec fn target_dir(to: Option<Seq<char>>, now: Timestamp) -> Option<Seq<char>> {
    match (to, date_rendered(day_of(now))) {
        (Some(d), _) => Some(d),
        (None, Some(day)) => Some("./knack-export-"@ + stamp(day, now)),
        (None, None) => None,
    }
}

/// The directory to export to. There is none only where none is asked for and the
/// moment is on no day of the calendar.
pub fn export_target(to: Option<&str>, now: &Timestamp) -> (r: Option<String>)
    ensures
        opt_view(r) == target_dir(opt_str_view(to), *now),
        to is Some || crate::time::in_calendar(day_of(*now)) ==> r is Some,
{
    let day = render_date(date_of(now));
    match (to, day) {
        (Some(d), _) => Some(d.to_owned()),
        (None, Some(day)) => {
            let (h, m, s) = time_of_day(now);
            let h = zero_pad(h, 2);
            let m = zero_pad(m, 2);
            let s = zero_pad(s, 2);
            let st = concat7(day.as_str(), "T", h.as_str(), "-", m.as_str(), "-", s.as_str());
            Some(crate::errors::prefixed("./knack-export-", st.as_str()))
        },
        (None, None) => None,
    }
}

/// What stands at a path.
#[derive(Debug)]
pub enum PathState {
    Missing,
    NotADirectory,
    Unreadable(String),
    Empty,
    HasEntries,
}

/// Why a path is not safe to write into, if it is not.
pub open spec fn unsafe_reason(s: PathState) -> Option<Seq<char>> {
    match s {
        PathState::Missing => None,
        PathState::NotADirectory => Some("path exists but is not a directory"@),
        PathState::Unreadable(e) => Some("read_dir failed: "@ + e@),
        PathState::Empty => None,
        PathState::HasEntries => Some("directory exists and is not empty"@),
    }
}

/// Why a path is not safe to write into, if it is not.
pub fn nonempty_dir_reason(state: &PathState) -> (r: Option<String>)
    ensures
        opt_view(r) == unsafe_reason(*state),
{
    match state {
        PathState::Missing => None,
        PathState::NotADirectory => Some("path exists but is not a directory".to_owned()),
        PathState::Unreadable(e) => Some(crate::errors::prefixed("read_dir failed: ", e.as_str())),
        PathState::Empty => None,
        PathState::HasEntries => Some("directory exists and is not empty".to_owned()),
    }
}

/// Refuses a directory that holds something already, unless it is forced.
pub fn check_target(target: &str, state: &PathState, force: bool) -> (r: Result<(), CliError>)
    ensures
        match unsafe_reason(*state) {
            Some(reason) => if force {
                r is Ok
            } else {
                r is Err && r->Err_0@ == (ErrorView::User {
                    code: "EXPORT_TARGET_EXISTS"@,
                    message: "refusing to export into `"@ + target@ + "`: "@ + reason,
                    hint: Some("pass `--force` to overwrite, or pick a different `--to <dir>`"@),
                })
            },
            None => r is Ok,
        },
{
    if force {
        return Ok(());
    }
    match nonempty_dir_reason(state) {
        Some(reason) => Err(
            user_error_hint(
                "EXPORT_TARGET_EXISTS",
                concat4("refusing to export into `", target, "`: ", reason.as_str()),
                "pass `--force` to overwrite, or pick a different `--to <dir>`",
            ),
        ),
        None => Ok(()),
    }
}

/// Where a skill is exported to: below its scope, since one slug may be in several.
pub fn skill_dir(target: &str, scope: &str, slug: &str) -> (r: String)
    ensures
        r@ == below(below(target@, scope@), slug@),
{
    let dir = join_path(target, scope);
    join_path(dir.as_str(), slug)
}

// ---------------------------------------------------------------------------
// Downloads
// ---------------------------------------------------------------------------

/// What became of an attempt to download.
#[derive(Debug)]
pub enum FetchOutcome {
    /// An answer with a status.
    Status(u16),
    /// No answer.
    Network(String),
}

/// What is done after an attempt.
#[derive(Debug)]
pub enum FetchStep {
    /// It is a success: read the body.
    Read,
    Fail(String),
    /// Wait for so many seconds, and try again.
    Retry(u64),
}

/// A power of two.
pub open spec fn doubled(n: nat) -> nat
    decreases n,
{
    if n == 0 {
        1
    } else {
        2 * doubled((n - 1) as nat)
    }
}

/// What is told of an attempt that may be tried again.
pub open spec fn attempt_error(o: FetchOutcome, attempt: nat) -> Seq<char> {
    match o {
        FetchOutcome::Status(s) => "R2 GET returned "@ + status_line(s as int) + " (attempt "@ + decimal(
            attempt,
        ) + ")"@,
        FetchOutcome::Network(e) => "network error: "@ + e@ + " (attempt "@ + decimal(attempt) + ")"@,
    }
}

/// What is done after an attempt: a success is read, a refusal is final, and anything
/// else is tried again a little later, twice as long each time, until the last
/// attempt.
pub fn fetch_with_retry(attempt: u32, outcome: &FetchOutcome) -> (r: FetchStep)
    requires
        1 <= attempt <= BUNDLE_GET_MAX_ATTEMPTS,
        (*outcome) matches FetchOutcome::Status(s) ==> 100 <= s <= 999,
    ensures
        match *outcome {
            FetchOutcome::Status(s) => if 200 <= s <= 299 {
                r is Read
            } else if 400 <= s <= 499 {
                r matches FetchStep::Fail(e) && e@ == "R2 GET returned "@ + status_line(s as int)
                    + " (no retry on 4xx)"@
            } else if attempt < BUNDLE_GET_MAX_ATTEMPTS {
                r matches FetchStep::Retry(n) && n == doubled((attempt - 1) as nat)
            } else {
                r matches FetchStep::Fail(e) && e@ == attempt_error(*outcome, attempt as nat)
            },
            FetchOutcome::Network(_) => if attempt < BUNDLE_GET_MAX_ATTEMPTS {
                r matches FetchStep::Retry(n) && n == doubled((attempt - 1) as nat)
            } else {
                r matches FetchStep::Fail(e) && e@ == attempt_error(*outcome, attempt as nat)
            },
        },
{
    let n = u64_text(attempt as u64);
    let error = match outcome {
        FetchOutcome::Status(s) => {
            let line = status_text(*s);
            if 200 <= *s && *s <= 299 {
                return FetchStep::Read;
            }
            if 400 <= *s && *s <= 499 {
                return FetchStep::Fail(
                    concat3("R2 GET returned ", line.as_str(), " (no retry on 4xx)"),
                );
            }
            concat5("R2 GET returned ", line.as_str(), " (attempt ", n.as_str(), ")")
        },
        FetchOutcome::Network(e) => concat5(
            "network error: ",
            e.as_str(),
            " (attempt ",
            n.as_str(),
            ")",
        ),
    };
    if attempt < BUNDLE_GET_MAX_ATTEMPTS {
        proof {
            reveal_with_fuel(doubled, 3);
        }
        FetchStep::Retry(
            if attempt == 1 {
                1
            } else {
                2
            },
        )
    } else {
        FetchStep::Fail(error)
    }
}

/// The waits between attempts double, from one second on.
pub proof fn law_waits_double(attempt: nat)
    requires
        attempt >= 1,
    ensures
        doubled(0) == 1,
        doubled(attempt) == 2 * doubled((attempt - 1) as nat),
{
}

// ---------------------------------------------------------------------------
// Skills
// ---------------------------------------------------------------------------

/// What became of a skill.
#[derive(Debug)]
pub enum SkillOutcome {
    /// It was never published.
    NoVersion,
    /// It was published as texts only.
    NoBundle,
    /// Something failed that is told of as it is: the version, the address of the
    /// bundle, or the download.
    Failed(String),
    MkdirFailed(String),
    UnpackFailed(String),
    /// It was exported in a version.
    Exported(String),
}

/// A skill, and what became of it.
#[derive(Debug)]
pub struct SkillExport {
    pub scope: String,
    pub slug: String,
    pub outcome: SkillOutcome,
}

/// Why a skill was left out, if it was.
pub open spec fn skip_reason(o: SkillOutcome) -> Option<Seq<char>> {
    match o {
        SkillOutcome::NoVersion => Some("no published version"@),
        SkillOutcome::NoBundle => Some("legacy version (no bundle)"@),
        SkillOutcome::Failed(e) => Some(e@),
        SkillOutcome::MkdirFailed(e) => Some("mkdir: "@ + e@),
        SkillOutcome::UnpackFailed(e) => Some("unpack: "@ + e@),
        SkillOutcome::Exported(_) => None,
    }
}

/// What is told of a skill that was exported.
pub open spec fn exported_line(s: SkillExport) -> Seq<char> {
    s.scope@ + "/"@ + s.slug@ + " (v"@ + s.outcome->Exported_0@ + ")"@
}

/// What is told of those of the first `n` that were exported.
pub open spec fn exported_lines(s: Seq<SkillExport>, n: int) -> Seq<Seq<char>>
    decreases n,
{
    if n <= 0 {
        seq![]
    } else if s[n - 1].outcome is Exported {
        exported_lines(s, n - 1).push(exported_line(s[n - 1]))
    } else {
        exported_lines(s, n - 1)
    }
}

/// Those of the first `n` that were left out, each with the reason.
pub open spec fn skipped_skills(s: Seq<SkillExport>, n: int) -> Seq<(Seq<char>, Seq<char>)>
    decreases n,
{
    if n <= 0 {
        seq![]
    } else {
        match skip_reason(s[n - 1].outcome) {
            Some(why) => skipped_skills(s, n - 1).push((s[n - 1].slug@, why)),
            None => skipped_skills(s, n - 1),
        }
    }
}

/// A skill that was left out.
#[derive(Debug)]
pub struct SkippedSkill {
    pub slug: String,
    pub reason: String,
}

pub open spec fn skipped_views(v: Seq<SkippedSkill>) -> Seq<(Seq<char>, Seq<char>)> {
    Seq::new(v.len(), |i: int| (v[i].slug@, v[i].reason@))
}

impl JsonForm for SkippedSkill {
    open spec fn json(&self) -> JsonView {
        JsonView::Object(
            seq![
                ("slug"@, JsonView::Text(self.slug@)),
                ("reason"@, JsonView::Text(self.reason@)),
            ],
        )
    }

    fn to_json(&self) -> (r: Json) {
        let m = with_member(no_members(), "slug", Json::text(self.slug.as_str()));
        let m = with_member(m, "reason", Json::text(self.reason.as_str()));
        assert(member_views(m@) =~= self.json()->Object_0);
        Json::object(m)
    }
}

/// What became of all skills.
#[derive(Debug)]
pub struct ExportReport {
    pub exported: Vec<String>,
    pub skipped: Vec<SkippedSkill>,
}

fn reason_of(o: &SkillOutcome) -> (r: Option<String>)
    ensures
        opt_view(r) == skip_reason(*o),
{
    match o {
        SkillOutcome::NoVersion => Some("no published version".to_owned()),
        SkillOutcome::NoBundle => Some("legacy version (no bundle)".to_owned()),
        SkillOutcome::Failed(e) => Some(e.clone()),
        SkillOutcome::MkdirFailed(e) => Some(crate::errors::prefixed("mkdir: ", e.as_str())),
        SkillOutcome::UnpackFailed(e) => Some(crate::errors::prefixed("unpack: ", e.as_str())),
        SkillOutcome::Exported(_) => None,
    }
}

/// What became of all skills, by what became of each. One that fails does not keep the
/// others from being exported.
pub fn cloud_export(skills: &Vec<SkillExport>) -> (r: ExportReport)
    ensures
        views(r.exported@) == exported_lines(skills@, skills@.len() as int),
        skipped_views(r.skipped@) == skipped_skills(skills@, skills@.len() as int),
        r.exported@.len() + r.skipped@.len() == skills@.len(),
{
    let mut exported: Vec<String> = Vec::new();
    let mut skipped: Vec<SkippedSkill> = Vec::new();
    let mut i: usize = 0;
    assert(views(exported@) =~= seq![]);
    assert(skipped_views(skipped@) =~= seq![]);
    while i < skills.len()
        invariant
            i <= skills.len(),
            views(exported@) == exported_lines(skills@, i as int),
            skipped_views(skipped@) == skipped_skills(skills@, i as int),
            exported@.len() + skipped@.len() == i,
        decreases skills.len() - i,
    {
        let s = &skills[i];
        match &s.outcome {
            SkillOutcome::Exported(v) => {
                let ghost was = views(exported@);
                let mut line = concat5(s.scope.as_str(), "/", s.slug.as_str(), " (v", v.as_str());
                line.append(")");
                exported.push(line);
                assert(views(exported@) =~= was.push(exported_line(skills@[i as int])));
            },
            _ => {
                let ghost was = skipped_views(skipped@);
                match reason_of(&s.outcome) {
                    Some(reason) => {
                        let ghost why = reason@;
                        skipped.push(SkippedSkill { slug: s.slug.clone(), reason });
                        assert(skipped_views(skipped@) =~= was.push((s.slug@, why)));
                    },
                    None => {},
                }
            },
        }
        i += 1;
    }
    ExportReport { exported, skipped }
}

/// What `knack export` reports.
pub open spec fn export_json_of(
    target: Seq<char>,
    e: ExportReport,
    total: nat,
    scope: Option<Seq<char>>,
    more: bool,
) -> JsonView {
    JsonView::Object(
        seq![
            ("backend"@, JsonView::Text("cloud"@)),
            ("target"@, JsonView::Text(target)),
            ("exported"@, JsonView::Array(text_values(views(e.exported@)))),
            ("skipped"@, JsonView::Array(forms(e.skipped@))),
            ("total_seen"@, JsonView::Int(total as int)),
            ("scope_filter"@, text_or_null(scope)),
            ("more_available"@, JsonView::Bool(more)),
        ],
    )
}

/// What `knack export` reports.
pub fn export_json(
    target: &str,
    e: &ExportReport,
    total: usize,
    scope: Option<&str>,
    more: bool,
) -> (r: Json)
    ensures
        r.value() == export_json_of(target@, *e, total as nat, opt_str_view(scope), more),
{
    let m = with_member(no_members(), "backend", Json::text("cloud"));
    let m = with_member(m, "target", Json::text(target));
    let m = with_member(m, "exported", Json::texts(&e.exported));
    let m = with_member(m, "skipped", json_list(&e.skipped));
    let m = with_member(m, "total_seen", Json::Nat(total as u64));
    let m = with_member(m, "scope_filter", Json::opt_text(scope));
    let m = with_member(m, "more_available", Json::Bool(more));
    assert(member_views(m@) =~= export_json_of(
        target@,
        *e,
        total as nat,
        opt_str_view(scope),
        more,
    )->Object_0);
    Json::object(m)
}

/// What people are told of an export.
pub open spec fn export_text(
    target: Seq<char>,
    e: ExportReport,
    total: nat,
    limit: nat,
    more: bool,
) -> Seq<Seq<char>> {
    let done = views(e.exported@);
    let left = skipped_views(e.skipped@);
    let lines = seq![
        "exported "@ + decimal(done.len()) + "/"@ + decimal(total) + " skill(s) to "@ + shown_path(
            target,
        ),
    ] + Seq::new(done.len(), |i: int| "  ✓ "@ + done[i]) + Seq::new(
        left.len(),
        |i: int| "  - "@ + left[i].0 + ": "@ + left[i].1,
    );
    if more {
        lines + seq![
            ""@,
            "note: library exceeded --limit ("@ + decimal(limit)
                + "). Re-run with a higher --limit to capture the rest."@,
        ]
    } else {
        lines
    }
}

/// What people are told of an export.
pub fn export_lines(
    target: &str,
    e: &ExportReport,
    total: usize,
    limit: u32,
    more: bool,
) -> (r: Vec<String>)
    ensures
        views(r@) == export_text(target@, *e, total as nat, limit as nat, more),
{
    let ghost done = views(e.exported@);
    let ghost left = skipped_views(e.skipped@);
    let mut out: Vec<String> = Vec::new();
    let a = usize_text(e.exported.len());
    let b = usize_text(total);
    let dir = display_path(target);
    out.push(concat6("exported ", a.as_str(), "/", b.as_str(), " skill(s) to ", dir.as_str()));
    let ghost first = seq![
        "exported "@ + decimal(done.len()) + "/"@ + decimal(total as nat) + " skill(s) to "@
            + shown_path(target@),
    ];
    assert(views(out@) =~= first + Seq::new(0, |i: int| "  ✓ "@ + done[i]));
    let mut i: usize = 0;
    while i < e.exported.len()
        invariant
            i <= e.exported.len(),
            done == views(e.exported@),
            views(out@) == first + Seq::new(i as nat, |i: int| "  ✓ "@ + done[i]),
        decreases e.exported.len() - i,
    {
        let ghost was = views(out@);
        out.push(crate::errors::prefixed("  ✓ ", e.exported[i].as_str()));
        assert(views(out@) =~= was.push("  ✓ "@ + done[i as int]));
        assert(views(out@) =~= first + Seq::new((i + 1) as nat, |i: int| "  ✓ "@ + done[i]));
        i += 1;
    }
    let ghost second = first + Seq::new(done.len(), |i: int| "  ✓ "@ + done[i]);
    assert(views(out@) =~= second);
    assert(views(out@) =~= second + Seq::new(0, |i: int| "  - "@ + left[i].0 + ": "@ + left[i].1));
    let mut k: usize = 0;
    while k < e.skipped.len()
        invariant
            k <= e.skipped.len(),
            left == skipped_views(e.skipped@),
            views(out@) == second + Seq::new(
                k as nat,
                |i: int| "  - "@ + left[i].0 + ": "@ + left[i].1,
            ),
        decreases e.skipped.len() - k,
    {
        let ghost was = views(out@);
        out.push(
            concat4("  - ", e.skipped[k].slug.as_str(), ": ", e.skipped[k].reason.as_str()),
        );
        assert(views(out@) =~= was.push("  - "@ + left[k as int].0 + ": "@ + left[k as int].1));
        assert(views(out@) =~= second + Seq::new(
            (k + 1) as nat,
            |i: int| "  - "@ + left[i].0 + ": "@ + left[i].1,
        ));
        k += 1;
    }
    if more {
        let ghost was = views(out@);
        let n = u64_text(limit as u64);
        out.push("".to_owned());
        out.push(
            concat3(
                "note: library exceeded --limit (",
                n.as_str(),
                "). Re-run with a higher --limit to capture the rest.",
            ),
        );
        assert(views(out@) =~= was + seq![
            ""@,
            "note: library exceeded --limit ("@ + decimal(limit as nat)
                + "). Re-run with a higher --limit to capture the rest."@,
        ]);
    }
    out
}

/// What is reported where skills are in a repository of one's own.
pub open spec fn pointer_report(local_path: Seq<char>) -> JsonView {
    JsonView::Object(
        seq![
            ("backend"@, JsonView::Text("github"@)),
            ("skills_dir"@, JsonView::Text(below(local_path, "skills"@))),
            (
                "message"@,
                JsonView::Text(
                    "self-host already keeps every skill file in the local clone — copy the skills/ subtree"@,
                ),
            ),
        ],
    )
}

/// What is told where skills are in a repository of one's own: nothing has to be exported.
pub fn github_export_pointer(local_path: &str) -> (r: Told)
    ensures
        r.report.value() == pointer_report(local_path@),
        views(r.lines@) == seq![
            "self-host: your skills live at "@ + shown_path(below(local_path@, "skills"@)),
            "  to export, copy that directory anywhere you want."@,
        ],
{
    let dir = join_path(local_path, "skills");
    let shown = display_path(dir.as_str());
    let m = with_member(no_members(), "backend", Json::text("github"));
    let m = with_member(m, "skills_dir", Json::text(dir.as_str()));
    let m = with_member(
        m,
        "message",
        Json::text(
            "self-host already keeps every skill file in the local clone — copy the skills/ subtree",
        ),
    );
    assert(member_views(m@) =~= pointer_report(local_path@)->Object_0);
    let mut lines: Vec<String> = Vec::new();
    lines.push(crate::errors::prefixed("self-host: your skills live at ", shown.as_str()));
    lines.push("  to export, copy that directory anywhere you want.".to_owned());
    assert(views(lines@) =~= seq![
        "self-host: your skills live at "@ + shown_path(below(local_path@, "skills"@)),
        "  to export, copy that directory anywhere you want."@,
    ]);
    Told { report: Json::object(m), lines }
}

// ---------------------------------------------------------------------------
// One skill
// ---------------------------------------------------------------------------

/// What is known while a skill is exported. What was not asked for yet is not there.
#[derive(Debug)]
pub struct ExportFacts {
    /// The id of the skill.
    pub id: String,
    /// The folder that it goes to.
    pub dir: String,
    /// The version that is published.
    pub current: Option<String>,
    /// The version, and whether there is an archive of it.
    pub version: Option<Result<(String, bool), CliError>>,
    /// The address of the archive.
    pub link: Option<Result<String, CliError>>,
    pub fetched: Option<Result<(), String>>,
    pub folder: Option<Result<(), String>>,
    pub unpacked: Option<Result<(), CliError>>,
}

/// What is done next for a skill.
#[derive(Debug)]
pub enum ExportStep {
    GetVersion { id: String, version: String },
    /// Asks for the address of the archive.
    AskLink { id: String, version: String },
    Fetch { url: String },
    MakeFolder { dir: String },
    /// Puts what was fetched into the folder.
    Unpack { dir: String },
    /// That is all for this skill.
    Finish(SkillOutcome),
}

/// What is done next, as a mathematical value.
pub ghost enum ExportView {
    GetVersion { id: Seq<char>, version: Seq<char> },
    AskLink { id: Seq<char>, version: Seq<char> },
    Fetch { url: Seq<char> },
    MakeFolder { dir: Seq<char> },
    Unpack { dir: Seq<char> },
    Skipped(Seq<char>),
    Exported(Seq<char>),
}

impl View for ExportStep {
    type V = ExportView;

    open spec fn view(&self) -> ExportView {
        match *self {
            ExportStep::GetVersion { id, version } => ExportView::GetVersion {
                id: id@,
                version: version@,
            },
            ExportStep::AskLink { id, version } => ExportView::AskLink {
                id: id@,
                version: version@,
            },
            ExportStep::Fetch { url } => ExportView::Fetch { url: url@ },
            ExportStep::MakeFolder { dir } => ExportView::MakeFolder { dir: dir@ },
            ExportStep::Unpack { dir } => ExportView::Unpack { dir: dir@ },
            ExportStep::Finish(o) => match skip_reason(o) {
                Some(why) => ExportView::Skipped(why),
                None => ExportView::Exported(o->Exported_0@),
            },
        }
    }
}

/// What is done next for a skill: whatever fails is the reason why it is left out.
pub open spec fn export_next(f: ExportFacts) -> ExportView {
    match opt_view(f.current) {
        None => ExportView::Skipped("no published version"@),
        Some(v) => match f.version {
            None => ExportView::GetVersion { id: f.id@, version: v },
            Some(Err(e)) => ExportView::Skipped(message_of(e@)),
            Some(Ok((version, packed))) => if !packed {
                ExportView::Skipped("legacy version (no bundle)"@)
            } else {
                match f.link {
                    None => ExportView::AskLink { id: f.id@, version: version@ },
                    Some(Err(e)) => ExportView::Skipped(message_of(e@)),
                    Some(Ok(url)) => match f.fetched {
                        None => ExportView::Fetch { url: url@ },
                        Some(Err(e)) => ExportView::Skipped(e@),
                        Some(Ok(_)) => match f.folder {
                            None => ExportView::MakeFolder { dir: f.dir@ },
                            Some(Err(e)) => ExportView::Skipped("mkdir: "@ + e@),
                            Some(Ok(_)) => match f.unpacked {
                                None => ExportView::Unpack { dir: f.dir@ },
                                Some(Err(e)) => ExportView::Skipped("unpack: "@ + message_of(e@)),
                                Some(Ok(_)) => ExportView::Exported(version@),
                            },
                        },
                    },
                }
            },
        },
    }
}

/// What is done next for a skill.
pub fn export_skill(f: &ExportFacts) -> (r: ExportStep)
    ensures
        r@ == export_next(*f),
{
    let current = match &f.current {
        Some(v) => v.as_str(),
        None => {
            return ExportStep::Finish(SkillOutcome::NoVersion);
        },
    };
    match &f.version {
        None => ExportStep::GetVersion { id: f.id.clone(), version: current.to_owned() },
        Some(Err(e)) => ExportStep::Finish(SkillOutcome::Failed(e.message())),
        Some(Ok((version, packed))) => {
            if !*packed {
                return ExportStep::Finish(SkillOutcome::NoBundle);
            }
            match &f.link {
                None => ExportStep::AskLink { id: f.id.clone(), version: version.clone() },
                Some(Err(e)) => ExportStep::Finish(SkillOutcome::Failed(e.message())),
                Some(Ok(url)) => match &f.fetched {
                    None => ExportStep::Fetch { url: url.clone() },
                    Some(Err(e)) => ExportStep::Finish(SkillOutcome::Failed(e.clone())),
                    Some(Ok(_)) => match &f.folder {
                        None => ExportStep::MakeFolder { dir: f.dir.clone() },
                        Some(Err(e)) => ExportStep::Finish(SkillOutcome::MkdirFailed(e.clone())),
                        Some(Ok(_)) => match &f.unpacked {
                            None => ExportStep::Unpack { dir: f.dir.clone() },
                            Some(Err(e)) => ExportStep::Finish(
                                SkillOutcome::UnpackFailed(e.message()),
                            ),
                            Some(Ok(_)) => ExportStep::Finish(
                                SkillOutcome::Exported(version.clone()),
                            ),
                        },
                    },
                },
            }
        },
    }
}

} // verus!
