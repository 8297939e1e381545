//! What is done next while a skill is published, by what is known so far.

use vstd::prelude::*;

use crate::api::error::{status_line, status_text};
use crate::commands::link::skill_not_found;
use crate::commands::publish::{
    can_be_raised, dry_run_version, falls_back_to_text, next_cloud_version, next_repo_version, raised_place,
    next_version, no_folder_error, no_skill_error, resolve_github_version, PublishArgs,
};
use crate::commands::sync::{ShimResult, SyncReport};
use crate::errors::{copy_error, prefixed, user_error, CliError, ErrorView};
use crate::json::{
    forms, json_list, lemma_array_value, member_views, no_members, text_or_null, values,
    with_member, Json, JsonView,
};
use crate::numbers::{decimal, usize_text};
use crate::order::TextMap;
use crate::text::{
    concat4, concat5, concat7, find_first, opt_owned, opt_str, opt_str_view, opt_view, push_line,
    take_chars, views,
};

verus! {

// ---------------------------------------------------------------------------
// To the server
// ---------------------------------------------------------------------------

/// A skill as the server knows it.
#[derive(Debug)]
pub struct ServerSkill {
    pub id: String,
    pub current_version_semver: Option<String>,
    pub current_version_id: Option<String>,
}

/// The files of a skill that are sent as text.
#[derive(Debug)]
pub struct VersionTexts {
    pub skill_md: String,
    pub intuition_md: String,
    pub meta_yaml: String,
    pub tests_yaml: String,
}

/// What the server is sent for a new version.
#[derive(Debug)]
pub struct SkillVersionCreate {
    pub version: String,
    pub skill_md: String,
    pub intuition_md: String,
    pub meta_yaml: String,
    pub tests_yaml: String,
    pub parent_version_id: Option<String>,
    pub artifact_ids: Vec<String>,
    pub packed_s3_key: Option<String>,
}

/// What the server is sent for a new version, as a mathematical value.
#[verifier::ext_equal]
pub ghost struct CreateView {
    pub version: Seq<char>,
    pub skill_md: Seq<char>,
    pub intuition_md: Seq<char>,
    pub meta_yaml: Seq<char>,
    pub tests_yaml: Seq<char>,
    pub parent_version_id: Option<Seq<char>>,
    pub artifact_ids: Seq<Seq<char>>,
    pub packed_s3_key: Option<Seq<char>>,
}

impl View for SkillVersionCreate {
    type V = CreateView;

    open spec fn view(&self) -> CreateView {
        CreateView {
            version: self.version@,
            skill_md: self.skill_md@,
            intuition_md: self.intuition_md@,
            meta_yaml: self.meta_yaml@,
            tests_yaml: self.tests_yaml@,
            parent_version_id: opt_view(self.parent_version_id),
            artifact_ids: views(self.artifact_ids@),
            packed_s3_key: opt_view(self.packed_s3_key),
        }
    }
}

/// Where an archive goes.
#[derive(Debug)]
pub struct Presigned {
    /// The address that it is sent to.
    pub upload_url: String,
    /// The key under which it is stored.
    pub s3_key: String,
}

/// What is known while a skill is published. What was not asked for yet is not
/// there.
#[derive(Debug)]
pub struct PublishFacts {
    pub is_dir: bool,
    /// What is wrong with the format of the folder, if anything is.
    pub format: Option<CliError>,
    pub skill: Option<Result<Option<ServerSkill>, CliError>>,
    /// The bytes of the archive.
    pub packed: Option<Result<Vec<u8>, CliError>>,
    pub presigned: Option<Result<Presigned, CliError>>,
    pub uploaded: Option<Result<u16, CliError>>,
    pub created: Option<Result<(), CliError>>,
    pub texts: Option<Result<VersionTexts, CliError>>,
    /// The version that was created from texts.
    pub text_created: Option<Result<(), CliError>>,
}

/// What is done next.
#[derive(Debug)]
pub enum PublishAction {
    Fail(CliError),
    /// The folder is packed, and what would be sent is told.
    DryRun,
    FindSkill { slug: String },
    /// The folder is packed.
    Pack { dir: String },
    /// The server is asked where the archive of the skill goes.
    Presign { skill_id: String },
    Upload { url: String, bytes: Vec<u8> },
    /// The files in the folder are read, since the server takes no archives.
    ReadTexts { dir: String },
    Create { skill_id: String, version: SkillVersionCreate },
    Done,
}

/// What is done next, as a mathematical value.
pub ghost enum ActionView {
    Fail(ErrorView),
    DryRun,
    FindSkill { slug: Seq<char> },
    Pack { dir: Seq<char> },
    Presign { skill_id: Seq<char> },
    Upload { url: Seq<char>, bytes: Seq<u8> },
    ReadTexts { dir: Seq<char> },
    Create { skill_id: Seq<char>, version: CreateView },
    Done,
}

impl View for PublishAction {
    type V = ActionView;

    open spec fn view(&self) -> ActionView {
        match *self {
            PublishAction::Fail(e) => ActionView::Fail(e@),
            PublishAction::DryRun => ActionView::DryRun,
            PublishAction::FindSkill { slug } => ActionView::FindSkill { slug: slug@ },
            PublishAction::Pack { dir } => ActionView::Pack { dir: dir@ },
            PublishAction::Presign { skill_id } => ActionView::Presign { skill_id: skill_id@ },
            PublishAction::Upload { url, bytes } => ActionView::Upload { url: url@, bytes: bytes@ },
            PublishAction::ReadTexts { dir } => ActionView::ReadTexts { dir: dir@ },
            PublishAction::Create { skill_id, version } => ActionView::Create {
                skill_id: skill_id@,
                version: version@,
            },
            PublishAction::Done => ActionView::Done,
        }
    }
}

/// The version that a skill has at the server.
pub open spec fn current_of(s: ServerSkill) -> Seq<char> {
    match opt_view(s.current_version_semver) {
        Some(v) => v,
        None => "0.0.0"@,
    }
}

/// A new version made of an archive: the server reads the texts from it.
pub open spec fn bundle_version(
    version: Seq<char>,
    parent: Option<Seq<char>>,
    key: Seq<char>,
) -> CreateView {
    CreateView {
        version,
        skill_md: ""@,
        intuition_md: ""@,
        meta_yaml: ""@,
        tests_yaml: ""@,
        parent_version_id: parent,
        artifact_ids: seq![],
        packed_s3_key: Some(key),
    }
}

/// A new version made of texts.
pub open spec fn text_version(
    version: Seq<char>,
    parent: Option<Seq<char>>,
    t: VersionTexts,
) -> CreateView {
    CreateView {
        version,
        skill_md: t.skill_md@,
        intuition_md: t.intuition_md@,
        meta_yaml: t.meta_yaml@,
        tests_yaml: t.tests_yaml@,
        parent_version_id: parent,
        artifact_ids: seq![],
        packed_s3_key: None,
    }
}

/// The error for an archive that could not be stored.
pub open spec fn upload_failed(status: int) -> ErrorView {
    ErrorView::Server {
        status,
        code: "BUNDLE_UPLOAD_FAILED"@,
        message: "R2 PUT returned "@ + status_line(status),
    }
}

/// What is published: which skill, from which folder, as which version, after which one.
pub ghost struct PlanView {
    pub skill_id: Seq<char>,
    pub dir: Seq<char>,
    pub version: Seq<char>,
    pub parent: Option<Seq<char>>,
}

/// What is published: which skill, from which folder, as which version, after which one.
#[derive(Debug)]
pub struct PublishPlan<'a> {
    pub skill_id: &'a str,
    pub dir: &'a str,
    pub version: &'a str,
    pub parent: Option<&'a str>,
}

impl<'a> View for PublishPlan<'a> {
    type V = PlanView;

    open spec fn view(&self) -> PlanView {
        PlanView {
            skill_id: self.skill_id@,
            dir: self.dir@,
            version: self.version@,
            parent: opt_str_view(self.parent),
        }
    }
}

/// What is done next with texts.
pub open spec fn text_next(
    f: PublishFacts,
    p: PlanView,
) -> ActionView {
    match f.texts {
        None => ActionView::ReadTexts { dir: p.dir },
        Some(Err(e)) => ActionView::Fail(e@),
        Some(Ok(t)) => match f.text_created {
            None => ActionView::Create {
                skill_id: p.skill_id,
                version: text_version(p.version, p.parent, t),
            },
            Some(Err(e)) => ActionView::Fail(e@),
            Some(Ok(_)) => ActionView::Done,
        },
    }
}

/// What is done next after an archive failed: the texts are sent where the server
/// takes no archives.
pub open spec fn after_bundle(
    f: PublishFacts,
    e: ErrorView,
    p: PlanView,
) -> ActionView {
    if e matches ErrorView::NotFound(m) && find_first(m, "presign-bundle"@) is Some {
        text_next(f, p)
    } else {
        ActionView::Fail(e)
    }
}

/// What is done next with an archive.
pub open spec fn bundle_next(f: PublishFacts, p: PlanView) -> ActionView {
    match f.packed {
        None => ActionView::Pack { dir: p.dir },
        Some(Err(e)) => after_bundle(f, e@, p),
        Some(Ok(bytes)) => match f.presigned {
            None => ActionView::Presign { skill_id: p.skill_id },
            Some(Err(e)) => after_bundle(f, e@, p),
            Some(Ok(place)) => match f.uploaded {
                None => ActionView::Upload { url: place.upload_url@, bytes: bytes@ },
                Some(Err(e)) => after_bundle(f, e@, p),
                Some(Ok(status)) => if 200 <= status <= 299 {
                    match f.created {
                        None => ActionView::Create {
                            skill_id: p.skill_id,
                            version: bundle_version(p.version, p.parent, place.s3_key@),
                        },
                        Some(Err(e)) => after_bundle(f, e@, p),
                        Some(Ok(_)) => ActionView::Done,
                    }
                } else {
                    ActionView::Fail(upload_failed(status as int))
                },
            },
        },
    }
}

/// What is done next.
pub open spec fn publish_next(args: PublishArgs, dir: Seq<char>, f: PublishFacts) -> ActionView {
    if !f.is_dir {
        ActionView::Fail(
            ErrorView::User {
                code: "PUBLISH_NO_FOLDER"@,
                message: "not a directory: "@ + dir,
                hint: Some("pass --from <dir> with a folder containing SKILL.md"@),
            },
        )
    } else if f.format is Some {
        ActionView::Fail(f.format->0@)
    } else if args.dry_run {
        ActionView::DryRun
    } else {
        match f.skill {
            None => ActionView::FindSkill { slug: args.slug@ },
            Some(Err(e)) => ActionView::Fail(e@),
            Some(Ok(None)) => ActionView::Fail(
                ErrorView::NotFound("skill `"@ + args.slug@ + "` not found"@),
            ),
            Some(Ok(Some(s))) => match next_version(
                opt_view(args.as_version),
                args.major,
                args.minor,
                current_of(s),
            ) {
                Err(e) => ActionView::Fail(e),
                Ok(v) => bundle_next(
                    f,
                    PlanView {
                        skill_id: s.id@,
                        dir,
                        version: v,
                        parent: opt_view(s.current_version_id),
                    },
                ),
            },
        }
    }
}

/// A status is one of three digits.
pub open spec fn sound(f: PublishFacts) -> bool {
    f.uploaded matches Some(Ok(status)) ==> 100 <= status <= 999
}

/// The version that the skill has can be raised, where it has to be.
pub open spec fn raisable(args: PublishArgs, f: PublishFacts) -> bool {
    args.as_version is None ==> (f.skill matches Some(Ok(Some(s))) ==> can_be_raised(
        current_of(s),
        raised_place(args.major, args.minor),
    ))
}

fn next_with_texts(f: &PublishFacts, p: &PublishPlan) -> (r: PublishAction)
    ensures
        r@ == text_next(*f, p@),
{
    match &f.texts {
        None => PublishAction::ReadTexts { dir: p.dir.to_owned() },
        Some(Err(e)) => PublishAction::Fail(copy_error(e)),
        Some(Ok(t)) => match &f.text_created {
            None => {
                let version = SkillVersionCreate {
                    version: p.version.to_owned(),
                    skill_md: t.skill_md.clone(),
                    intuition_md: t.intuition_md.clone(),
                    meta_yaml: t.meta_yaml.clone(),
                    tests_yaml: t.tests_yaml.clone(),
                    parent_version_id: opt_owned(p.parent),
                    artifact_ids: Vec::new(),
                    packed_s3_key: None,
                };
                assert(version@ =~= text_version(p@.version, p@.parent, *t));
                PublishAction::Create { skill_id: p.skill_id.to_owned(), version }
            },
            Some(Err(e)) => PublishAction::Fail(copy_error(e)),
            Some(Ok(_)) => PublishAction::Done,
        },
    }
}

fn next_after_bundle(f: &PublishFacts, e: &CliError, p: &PublishPlan) -> (r: PublishAction)
    ensures
        r@ == after_bundle(*f, e@, p@),
{
    if falls_back_to_text(e) {
        next_with_texts(f, p)
    } else {
        PublishAction::Fail(copy_error(e))
    }
}

/// What is done next with an archive.
pub fn try_publish_with_bundle(f: &PublishFacts, p: &PublishPlan) -> (r: PublishAction)
    requires
        sound(*f),
    ensures
        r@ == bundle_next(*f, p@),
{
    let bytes = match &f.packed {
        None => {
            return PublishAction::Pack { dir: p.dir.to_owned() };
        },
        Some(Err(e)) => {
            return next_after_bundle(f, e, p);
        },
        Some(Ok(bytes)) => bytes,
    };
    let place = match &f.presigned {
        None => {
            return PublishAction::Presign { skill_id: p.skill_id.to_owned() };
        },
        Some(Err(e)) => {
            return next_after_bundle(f, e, p);
        },
        Some(Ok(place)) => place,
    };
    let status = match &f.uploaded {
        None => {
            let mut sent: Vec<u8> = Vec::new();
            sent.extend_from_slice(bytes.as_slice());
            assert(sent@ =~= bytes@);
            return PublishAction::Upload { url: place.upload_url.clone(), bytes: sent };
        },
        Some(Err(e)) => {
            return next_after_bundle(f, e, p);
        },
        Some(Ok(status)) => *status,
    };
    if !(200 <= status && status <= 299) {
        let line = status_text(status);
        return PublishAction::Fail(
            CliError::Server {
                status,
                code: "BUNDLE_UPLOAD_FAILED".to_owned(),
                message: prefixed("R2 PUT returned ", line.as_str()),
            },
        );
    }
    match &f.created {
        None => {
            let version = SkillVersionCreate {
                version: p.version.to_owned(),
                skill_md: "".to_owned(),
                intuition_md: "".to_owned(),
                meta_yaml: "".to_owned(),
                tests_yaml: "".to_owned(),
                parent_version_id: opt_owned(p.parent),
                artifact_ids: Vec::new(),
                packed_s3_key: Some(place.s3_key.clone()),
            };
            assert(version@ =~= bundle_version(p@.version, p@.parent, place.s3_key@));
            PublishAction::Create { skill_id: p.skill_id.to_owned(), version }
        },
        Some(Err(e)) => next_after_bundle(f, e, p),
        Some(Ok(_)) => PublishAction::Done,
    }
}

/// What is done next while a skill is published.
pub fn run(args: &PublishArgs, dir: &str, f: &PublishFacts) -> (r: PublishAction)
    requires
        sound(*f),
        raisable(*args, *f),
    ensures
        r@ == publish_next(*args, dir@, *f),
{
    if !f.is_dir {
        return PublishAction::Fail(no_folder_error(dir));
    }
    match &f.format {
        Some(e) => {
            return PublishAction::Fail(copy_error(e));
        },
        None => {},
    }
    if args.dry_run {
        return PublishAction::DryRun;
    }
    match &f.skill {
        None => PublishAction::FindSkill { slug: args.slug.clone() },
        Some(Err(e)) => PublishAction::Fail(copy_error(e)),
        Some(Ok(None)) => PublishAction::Fail(skill_not_found(args.slug.as_str())),
        Some(Ok(Some(s))) => {
            let current = opt_str(&s.current_version_semver);
            match next_cloud_version(args, current) {
                Err(e) => PublishAction::Fail(e),
                Ok(v) => {
                    let p = PublishPlan {
                        skill_id: s.id.as_str(),
                        dir,
                        version: v.as_str(),
                        parent: opt_str(&s.current_version_id),
                    };
                    try_publish_with_bundle(f, &p)
                },
            }
        },
    }
}

/// Nothing leaves the machine of a folder that is malformed, or in a dry run.
pub proof fn law_only_sound_folders_are_sent(args: PublishArgs, dir: Seq<char>, f: PublishFacts)
    ensures
        match publish_next(args, dir, f) {
            ActionView::Fail(_) => true,
            ActionView::DryRun => args.dry_run,
            _ => f.is_dir && f.format is None && !args.dry_run,
        },
{
}

/// What is sent is the archive that was packed, to where the server said.
pub proof fn law_the_packed_archive_is_sent(args: PublishArgs, dir: Seq<char>, f: PublishFacts)
    ensures
        publish_next(args, dir, f) matches ActionView::Upload { url, bytes } ==> (
        f.packed matches Some(Ok(b)) && b@ == bytes) && (f.presigned matches Some(Ok(place))
            && place.upload_url@ == url),
{
}

/// A version is made of an archive only after the archive was stored, and of texts
/// only where the server takes no archives.
pub proof fn law_versions_have_their_files(args: PublishArgs, dir: Seq<char>, f: PublishFacts)
    ensures
        publish_next(args, dir, f) matches ActionView::Create { skill_id, version } ==> {
            &&& (f.skill matches Some(Ok(Some(s))) && s.id@ == skill_id)
            &&& match version.packed_s3_key {
                Some(key) => (f.presigned matches Some(Ok(k)) && k.s3_key@ == key) && (
                f.uploaded matches Some(Ok(status)) && 200 <= status <= 299),
                None => f.texts matches Some(Ok(t)) && version.skill_md == t.skill_md@,
            }
        },
{
}

// ---------------------------------------------------------------------------
// What is told
// ---------------------------------------------------------------------------

/// What became of the agents, as it is reported.
pub open spec fn shims_report(r: SyncReport) -> JsonView {
    JsonView::Object(
        seq![
            ("written"@, JsonView::Array(forms(r.written@))),
            ("up_to_date"@, JsonView::Array(forms(r.up_to_date@))),
            ("removed"@, JsonView::Array(forms(r.removed@))),
            ("skipped"@, JsonView::Array(forms(r.skipped@))),
        ],
    )
}

/// What became of the agents, as it is reported.
pub fn shims_json(r: &SyncReport) -> (j: Json)
    ensures
        j.value() == shims_report(*r),
{
    let m = with_member(no_members(), "written", json_list(&r.written));
    let m = with_member(m, "up_to_date", json_list(&r.up_to_date));
    let m = with_member(m, "removed", json_list(&r.removed));
    let m = with_member(m, "skipped", json_list(&r.skipped));
    assert(member_views(m@) =~= shims_report(*r)->Object_0);
    Json::object(m)
}

/// What is reported of a version that was published.
pub open spec fn published_report(
    slug: Seq<char>,
    skill_id: Seq<char>,
    version: Seq<char>,
    parent: Option<Seq<char>>,
    key: Option<Seq<char>>,
    dir: Seq<char>,
    shims: SyncReport,
) -> JsonView {
    JsonView::Object(
        seq![
            ("slug"@, JsonView::Text(slug)),
            ("skill_id"@, JsonView::Text(skill_id)),
            ("version"@, JsonView::Text(version)),
            ("parent_version_id"@, text_or_null(parent)),
            ("packed_s3_key"@, text_or_null(key)),
            ("from"@, JsonView::Text(dir)),
            ("shims"@, shims_report(shims)),
        ],
    )
}

/// What is reported of a version that was published.
pub fn published_json(
    slug: &str,
    skill: &ServerSkill,
    version: &str,
    key: Option<&str>,
    dir: &str,
    shims: &SyncReport,
) -> (r: Json)
    ensures
        r.value() == published_report(
            slug@,
            skill.id@,
            version@,
            opt_view(skill.current_version_id),
            opt_str_view(key),
            dir@,
            *shims,
        ),
{
    let m = with_member(no_members(), "slug", Json::text(slug));
    let m = with_member(m, "skill_id", Json::text(skill.id.as_str()));
    let m = with_member(m, "version", Json::text(version));
    let m = with_member(
        m,
        "parent_version_id",
        Json::opt_text(opt_str(&skill.current_version_id)),
    );
    let m = with_member(m, "packed_s3_key", Json::opt_text(key));
    let m = with_member(m, "from", Json::text(dir));
    let m = with_member(m, "shims", shims_json(shims));
    assert(member_views(m@) =~= published_report(
        slug@,
        skill.id@,
        version@,
        opt_view(skill.current_version_id),
        opt_str_view(key),
        dir@,
        *shims,
    )->Object_0);
    Json::object(m)
}

/// What people are told of the agents that were written to.
pub open spec fn shim_lines(s: Seq<ShimResult>) -> Seq<Seq<char>> {
    Seq::new(s.len(), |i: int| "  ↪ "@ + s[i].agent@ + " shim → "@ + s[i].path@)
}

/// Tells people of the agents that were written to.
pub fn push_shims(out: &mut Vec<String>, shims: &Vec<ShimResult>)
    ensures
        views(final(out)@) == views(old(out)@) + shim_lines(shims@),
{
    let ghost start = views(out@);
    let mut i: usize = 0;
    assert(views(out@) =~= start + shim_lines(shims@.take(0)));
    while i < shims.len()
        invariant
            i <= shims.len(),
            views(out@) == start + shim_lines(shims@.take(i as int)),
        decreases shims.len() - i,
    {
        push_line(
            out,
            concat4("  ↪ ", shims[i].agent.as_str(), " shim → ", shims[i].path.as_str()),
        );
        i += 1;
        assert(views(out@) =~= start + shim_lines(shims@.take(i as int)));
    }
    assert(shims@.take(i as int) =~= shims@);
}

/// What people are told of a version that was published.
pub fn published_lines(slug: &str, version: &str, shims: &SyncReport) -> (r: Vec<String>)
    ensures
        views(r@) == seq!["✓ "@ + slug@ + "@"@ + version@ + " published"@] + shim_lines(
            shims.written@,
        ),
{
    let mut out: Vec<String> = Vec::new();
    push_line(&mut out, concat5("✓ ", slug, "@", version, " published"));
    assert(views(out@) =~= seq!["✓ "@ + slug@ + "@"@ + version@ + " published"@]);
    push_shims(&mut out, &shims.written);
    out
}

/// A packed file and its hash, as it is reported.
pub open spec fn packed_file(f: (Seq<char>, Seq<char>)) -> JsonView {
    JsonView::Object(seq![("path"@, JsonView::Text(f.0)), ("sha256"@, JsonView::Text(f.1))])
}

/// The packed files, each with its hash.
pub open spec fn file_views(m: TextMap<String>) -> Seq<(Seq<char>, Seq<char>)> {
    Seq::new(m.entries@.len(), |i: int| (m.entries@[i].0@, m.entries@[i].1@))
}

fn files_json(files: &TextMap<String>) -> (r: Json)
    ensures
        r.value() == JsonView::Array(
            Seq::new(file_views(*files).len(), |i: int| packed_file(file_views(*files)[i])),
        ),
{
    let mut a: Vec<Json> = Vec::new();
    let mut i: usize = 0;
    while i < files.entries.len()
        invariant
            i <= files.entries.len(),
            a@.len() == i,
            forall|j: int|
                0 <= j < i ==> (#[trigger] a@[j]).value() == packed_file(
                    (files.entries@[j].0@, files.entries@[j].1@),
                ),
        decreases files.entries.len() - i,
    {
        let m = with_member(no_members(), "path", Json::text(files.entries[i].0.as_str()));
        let m = with_member(m, "sha256", Json::text(files.entries[i].1.as_str()));
        assert(member_views(m@) =~= packed_file(
            (files.entries@[i as int].0@, files.entries@[i as int].1@),
        )->Object_0);
        a.push(Json::object(m));
        i += 1;
    }
    proof {
        lemma_array_value(a);
        assert(values(a@) =~= Seq::new(
            file_views(*files).len(),
            |i: int| packed_file(file_views(*files)[i]),
        ));
    }
    Json::Array(a)
}

/// The version that a dry run names.
pub open spec fn version_named(as_version: Option<Seq<char>>) -> Seq<char> {
    match as_version {
        Some(v) => v,
        None => "(server-assigned)"@,
    }
}

/// What is reported of a dry run.
pub open spec fn dry_run_report(
    args: PublishArgs,
    dir: Seq<char>,
    sha256: Seq<char>,
    size: nat,
    files: Seq<(Seq<char>, Seq<char>)>,
) -> JsonView {
    JsonView::Object(
        seq![
            ("dry_run"@, JsonView::Bool(true)),
            ("slug"@, JsonView::Text(args.slug@)),
            ("from"@, JsonView::Text(dir)),
            ("target_version"@, JsonView::Text(version_named(opt_view(args.as_version)))),
            ("tarball_sha256"@, JsonView::Text(sha256)),
            ("tarball_size"@, JsonView::Int(size as int)),
            (
                "files"@,
                JsonView::Array(Seq::new(files.len(), |i: int| packed_file(files[i]))),
            ),
        ],
    )
}

/// What is reported of a dry run.
pub fn dry_run(
    args: &PublishArgs,
    dir: &str,
    sha256: &str,
    size: usize,
    files: &TextMap<String>,
) -> (r: Json)
    ensures
        r.value() == dry_run_report(*args, dir@, sha256@, size as nat, file_views(*files)),
{
    let version = dry_run_version(opt_str(&args.as_version));
    let m = with_member(no_members(), "dry_run", Json::Bool(true));
    let m = with_member(m, "slug", Json::text(args.slug.as_str()));
    let m = with_member(m, "from", Json::text(dir));
    let m = with_member(m, "target_version", Json::text(version.as_str()));
    let m = with_member(m, "tarball_sha256", Json::text(sha256));
    let m = with_member(m, "tarball_size", Json::Nat(size as u64));
    let m = with_member(m, "files", files_json(files));
    assert(member_views(m@) =~= dry_run_report(
        *args,
        dir@,
        sha256@,
        size as nat,
        file_views(*files),
    )->Object_0);
    Json::object(m)
}

/// What people are told of a packed file.
pub open spec fn packed_line(f: (Seq<char>, Seq<char>)) -> Seq<char> {
    "  "@ + crate::text::head(f.1, 12) + "  "@ + f.0
}

/// What people are told of a dry run.
pub open spec fn dry_run_text(
    args: PublishArgs,
    sha256: Seq<char>,
    size: nat,
    files: Seq<(Seq<char>, Seq<char>)>,
) -> Seq<Seq<char>> {
    seq![
        "✓ dry-run ok — "@ + decimal(files.len()) + " files, "@ + decimal(size) + " bytes, sha256 "@
            + sha256,
        "would publish "@ + args.slug@ + " → version "@ + version_named(opt_view(args.as_version)),
    ] + Seq::new(files.len(), |i: int| packed_line(files[i]))
}

/// What people are told of a dry run.
pub fn dry_run_lines(
    args: &PublishArgs,
    sha256: &str,
    size: usize,
    files: &TextMap<String>,
) -> (r: Vec<String>)
    ensures
        views(r@) == dry_run_text(*args, sha256@, size as nat, file_views(*files)),
{
    let ghost f = file_views(*files);
    let n = usize_text(files.entries.len());
    let bytes = usize_text(size);
    let version = dry_run_version(opt_str(&args.as_version));
    let mut out: Vec<String> = Vec::new();
    let mut first = concat5("✓ dry-run ok — ", n.as_str(), " files, ", bytes.as_str(), " bytes, sha256 ");
    first.append(sha256);
    push_line(&mut out, first);
    push_line(
        &mut out,
        concat4("would publish ", args.slug.as_str(), " → version ", version.as_str()),
    );
    let ghost start = views(out@);
    let mut i: usize = 0;
    assert(start + Seq::new(0, |j: int| packed_line(f[j])) =~= start);
    while i < files.entries.len()
        invariant
            i <= files.entries.len(),
            f == file_views(*files),
            views(out@) == start + Seq::new(i as nat, |j: int| packed_line(f[j])),
        decreases files.entries.len() - i,
    {
        let hash = take_chars(files.entries[i].1.as_str(), 12);
        push_line(&mut out, concat4("  ", hash, "  ", files.entries[i].0.as_str()));
        i += 1;
        assert(views(out@) =~= start + Seq::new(i as nat, |j: int| packed_line(f[j])));
    }
    assert(views(out@) =~= dry_run_text(*args, sha256@, size as nat, f));
    out
}

// ---------------------------------------------------------------------------
// To a repository
// ---------------------------------------------------------------------------

/// What is known while a skill is published to a repository.
#[derive(Debug)]
pub struct RepoFacts {
    pub is_dir: bool,
    /// What is wrong with the format of the folder, if anything is.
    pub format: Option<CliError>,
    /// The version that the skill's file states.
    pub current: Result<String, CliError>,
    /// The next version was written to the skill's file.
    pub updated: Option<Result<(), String>>,
    /// The skill was committed, tagged and pushed.
    pub published: Option<Result<(), String>>,
}

/// What is done next while a skill is published to a repository.
#[derive(Debug)]
pub enum RepoAction {
    Fail(CliError),
    /// The version that would be published is told.
    DryRun(String),
    /// The version is written to the skill's file: before the commit, so that the
    /// file and the tag agree.
    UpdateMeta(String),
    Publish(String),
    Done(String),
}

/// What is done next, as a mathematical value.
pub ghost enum RepoActionView {
    Fail(ErrorView),
    DryRun(Seq<char>),
    UpdateMeta(Seq<char>),
    Publish(Seq<char>),
    Done(Seq<char>),
}

impl View for RepoAction {
    type V = RepoActionView;

    open spec fn view(&self) -> RepoActionView {
        match *self {
            RepoAction::Fail(e) => RepoActionView::Fail(e@),
            RepoAction::DryRun(v) => RepoActionView::DryRun(v@),
            RepoAction::UpdateMeta(v) => RepoActionView::UpdateMeta(v@),
            RepoAction::Publish(v) => RepoActionView::Publish(v@),
            RepoAction::Done(v) => RepoActionView::Done(v@),
        }
    }
}

/// What is done next, once the version is known.
pub open spec fn repo_next_with(dry_run: bool, f: RepoFacts, version: Seq<char>) -> RepoActionView {
    if dry_run {
        RepoActionView::DryRun(version)
    } else {
        match f.updated {
            None => RepoActionView::UpdateMeta(version),
            Some(Err(e)) => RepoActionView::Fail(
                ErrorView::Internal("update meta.knack.yaml: "@ + e@),
            ),
            Some(Ok(_)) => match f.published {
                None => RepoActionView::Publish(version),
                Some(Err(e)) => RepoActionView::Fail(
                    ErrorView::User {
                        code: "GH_PUBLISH_FAILED"@,
                        message: "github publish failed: "@ + e@,
                        hint: None,
                    },
                ),
                Some(Ok(_)) => RepoActionView::Done(version),
            },
        }
    }
}

/// What is done next while a skill is published to a repository. A version that was
/// asked for needs none in the skill's file.
pub open spec fn repo_next(args: PublishArgs, dir: Seq<char>, f: RepoFacts) -> RepoActionView {
    if !f.is_dir {
        RepoActionView::Fail(
            ErrorView::User {
                code: "PUBLISH_NO_FOLDER"@,
                message: "no skill at "@ + dir,
                hint: Some("run `knack create "@ + args.slug@ + "` first"@),
            },
        )
    } else if f.format is Some {
        RepoActionView::Fail(f.format->0@)
    } else if args.as_version is None && f.current is Err {
        RepoActionView::Fail(f.current->Err_0@)
    } else {
        match next_repo_version(
            opt_view(args.as_version),
            args.major,
            args.minor,
            args.patch,
            stated(f),
        ) {
            Err(e) => RepoActionView::Fail(e),
            Ok(v) => repo_next_with(args.dry_run, f, v),
        }
    }
}

/// The version that the skill's file states.
pub open spec fn stated(f: RepoFacts) -> Seq<char> {
    match f.current {
        Ok(v) => v@,
        Err(_) => "0.0.0"@,
    }
}

fn next_with(dry_run: bool, f: &RepoFacts, version: String) -> (r: RepoAction)
    ensures
        r@ == repo_next_with(dry_run, *f, version@),
{
    if dry_run {
        return RepoAction::DryRun(version);
    }
    match &f.updated {
        None => RepoAction::UpdateMeta(version),
        Some(Err(e)) => RepoAction::Fail(
            CliError::Internal(prefixed("update meta.knack.yaml: ", e.as_str())),
        ),
        Some(Ok(_)) => match &f.published {
            None => RepoAction::Publish(version),
            Some(Err(e)) => RepoAction::Fail(
                user_error("GH_PUBLISH_FAILED", prefixed("github publish failed: ", e.as_str())),
            ),
            Some(Ok(_)) => RepoAction::Done(version),
        },
    }
}

/// What is done next while a skill is published to a repository.
pub fn github_publish(args: &PublishArgs, dir: &str, f: &RepoFacts) -> (r: RepoAction)
    requires
        args.as_version is None ==> can_be_raised(
            stated(*f),
            raised_place(args.major, args.minor),
        ),
    ensures
        r@ == repo_next(*args, dir@, *f),
{
    if !f.is_dir {
        return RepoAction::Fail(no_skill_error(dir, args.slug.as_str()));
    }
    match &f.format {
        Some(e) => {
            return RepoAction::Fail(copy_error(e));
        },
        None => {},
    }
    let current = match &f.current {
        Ok(v) => v.as_str(),
        Err(e) => {
            if args.as_version.is_none() {
                return RepoAction::Fail(copy_error(e));
            }
            "0.0.0"
        },
    };
    match resolve_github_version(args, current) {
        Err(e) => RepoAction::Fail(e),
        Ok(v) => next_with(args.dry_run, f, v),
    }
}

/// The skill's file states the version before that version is committed.
pub proof fn law_file_and_tag_agree(args: PublishArgs, dir: Seq<char>, f: RepoFacts)
    ensures
        repo_next(args, dir, f) is Publish ==> f.updated matches Some(Ok(_)),
        repo_next(args, dir, f) is Done ==> f.updated matches Some(Ok(_)),
        args.dry_run ==> !(repo_next(args, dir, f) is UpdateMeta || repo_next(args, dir, f) is Publish),
{
}

/// What is reported of a dry run in a repository.
pub fn repo_dry_run(slug: &str, version: &str, owner: &str, repo: &str) -> (r: Json)
    ensures
        r.value() == JsonView::Object(
            seq![
                ("slug"@, JsonView::Text(slug@)),
                ("version"@, JsonView::Text(version@)),
                ("dry_run"@, JsonView::Bool(true)),
                ("owner"@, JsonView::Text(owner@)),
                ("repo"@, JsonView::Text(repo@)),
            ],
        ),
{
    let m = with_member(no_members(), "slug", Json::text(slug));
    let m = with_member(m, "version", Json::text(version));
    let m = with_member(m, "dry_run", Json::Bool(true));
    let m = with_member(m, "owner", Json::text(owner));
    let m = with_member(m, "repo", Json::text(repo));
    assert(member_views(m@) =~= seq![
        ("slug"@, JsonView::Text(slug@)),
        ("version"@, JsonView::Text(version@)),
        ("dry_run"@, JsonView::Bool(true)),
        ("owner"@, JsonView::Text(owner@)),
        ("repo"@, JsonView::Text(repo@)),
    ]);
    Json::object(m)
}

/// What people are told of a dry run in a repository.
pub fn repo_dry_run_lines(slug: &str, version: &str, owner: &str, repo: &str) -> (r: Vec<String>)
    ensures
        views(r@) == seq![
            "✓ dry-run: would publish "@ + slug@ + "@v"@ + version@,
            "  → github.com/"@ + owner@ + "/"@ + repo@ + " (tag "@ + slug@ + "/v"@ + version@ + ")"@,
        ],
{
    let mut out: Vec<String> = Vec::new();
    out.push(concat4("✓ dry-run: would publish ", slug, "@v", version));
    let mut line = concat7("  → github.com/", owner, "/", repo, " (tag ", slug, "/v");
    line.append(version);
    line.append(")");
    out.push(line);
    assert(views(out@) =~= seq![
        "✓ dry-run: would publish "@ + slug@ + "@v"@ + version@,
        "  → github.com/"@ + owner@ + "/"@ + repo@ + " (tag "@ + slug@ + "/v"@ + version@ + ")"@,
    ]);
    out
}

/// What is reported of a skill that was published to a repository.
pub fn repo_published(slug: &str, version: &str, url: &str) -> (r: Json)
    ensures
        r.value() == JsonView::Object(
            seq![
                ("slug"@, JsonView::Text(slug@)),
                ("version"@, JsonView::Text(version@)),
                ("url"@, JsonView::Text(url@)),
                ("backend"@, JsonView::Text("github"@)),
            ],
        ),
{
    let m = with_member(no_members(), "slug", Json::text(slug));
    let m = with_member(m, "version", Json::text(version));
    let m = with_member(m, "url", Json::text(url));
    let m = with_member(m, "backend", Json::text("github"));
    assert(member_views(m@) =~= seq![
        ("slug"@, JsonView::Text(slug@)),
        ("version"@, JsonView::Text(version@)),
        ("url"@, JsonView::Text(url@)),
        ("backend"@, JsonView::Text("github"@)),
    ]);
    Json::object(m)
}

/// What people are told of a skill that was published to a repository.
pub fn repo_published_lines(slug: &str, version: &str, url: &str) -> (r: Vec<String>)
    ensures
        views(r@) == seq!["✓ "@ + slug@ + "@v"@ + version@, "  → "@ + url@],
{
    let mut out: Vec<String> = Vec::new();
    out.push(crate::text::concat4("✓ ", slug, "@v", version));
    out.push(crate::errors::prefixed("  → ", url));
    assert(views(out@) =~= seq!["✓ "@ + slug@ + "@v"@ + version@, "  → "@ + url@]);
    out
}

} // verus!
