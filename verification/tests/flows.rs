use knack::api::auth::{
    create_cli_token, CreateCliTokenResponse, DeviceAuthStart, DevicePollResponse, Me, PollStatus,
};
use knack::api::marketplace::search;
use knack::api::request::url;
use knack::api::session::{
    after_first_answer, current_access_token, current_is_jwt, renewed, AfterAnswer, StoredCredential,
};
use knack::api::teams::{looks_like_uuid, resolve, Team};
use knack::commands::auth::{
    effective_expiry, finalize_login_to_pat, github_refresh_noop, login, login_json, logout, poll_interval,
    refresh, resolve_status_source, AfterMint, BearerSource, LoginStep, RefreshStep, Revocation,
};
use knack::commands::create::{self, CreateAction, CreateArgs, CreateFacts, CreatedSkill};
use knack::commands::debug::{any_tls, connectivity, hosts_to_try, ProbeResult, ProbeStage};
use knack::commands::export::{
    check_target, cloud_export, export_skill, export_target, fetch_with_retry, ExportFacts,
    ExportStep, FetchOutcome, FetchStep, PathState, SkillExport, SkillOutcome,
};
use knack::commands::feedback::{resolve_body, short_id, unread_note, ThreadSummary};
use knack::commands::fetch::{FetchAction, FetchFacts, NamedSkill, ServerVersion};
use knack::commands::folder::{
    assign_to_folder_stub, mv_plan, reparent_target, sync_folder_delete_local, sync_folder_rename_local, Folder,
    FoldersIndex, MvArgs, MvPlan, ReparentArgs, ReparentTo,
};
use knack::commands::fork::{self, ForkAction, ForkArgs, ForkFacts};
use knack::commands::info::{slice_playbook, unknown_note};
use knack::commands::install::installed::{AgentEntry, Scope};
use knack::commands::install::linked::LinkedSkill;
use knack::commands::install::targets::{
    find, names, targets, AgentTarget, Anchor, ConfigStyle, Machine, Place, ShimStyle,
};
use knack::commands::interview::{
    advance, load_session, resolve_target, save, save_session, start, Phase, SaveArgs,
};
use knack::commands::link::{
    check_updates, linked_slugs, materialize, plan_write, precedence_warning, resolve_scope,
    resolve_targets, update_all, write_skill_to_targets, Materialized, Upstream, WritePlan, WriteStep,
};
use knack::commands::publish::flow::{
    self, github_publish, Presigned, PublishAction, PublishFacts, RepoAction, RepoFacts, ServerSkill,
    VersionTexts,
};
use knack::commands::publish::{current_version, PublishArgs};
use knack::commands::pull::{self, pull_lines, pull_source, PullArgs, PullSource};
use knack::commands::rate::{self, RateAction, RateArgs, RateFacts, RateStep};
use knack::commands::run::{self, inputs_summary, RunAction, RunArgs, RunFacts, RunSkill};
use knack::commands::search::found_line;
use knack::commands::sync::{emit_report, purge_all, PurgeStep, Purged, SyncReport};
use knack::commands::uninstall::{self, confirm, UninstallArgs, UninstallStep};
use knack::config::LinkScope;
use knack::errors::CliError;
use knack::frontmatter::SkillFrontmatter;
use knack::github::bootstrap::{scaffold, Visibility};
use knack::json::Json;
use knack::output::OutputMode;
use knack::time::Timestamp;

fn s(t: &str) -> String {
    t.to_string()
}

fn net() -> CliError {
    CliError::Network(s("down"))
}

// Publishing

fn publish_args() -> PublishArgs {
    PublishArgs {
        slug: s("demo"),
        from: None,
        as_version: None,
        major: false,
        minor: true,
        patch: false,
        dry_run: false,
    }
}

fn facts() -> PublishFacts {
    PublishFacts {
        is_dir: true,
        format: None,
        skill: None,
        packed: None,
        presigned: None,
        uploaded: None,
        created: None,
        texts: None,
        text_created: None,
    }
}

fn server_skill() -> Option<Result<Option<ServerSkill>, CliError>> {
    Some(Ok(Some(ServerSkill {
        id: s("id"),
        current_version_semver: Some(s("1.2.3")),
        current_version_id: Some(s("v")),
    })))
}

#[test]
fn a_skill_is_published_with_its_archive() {
    let args = publish_args();
    let mut f = facts();
    assert!(matches!(flow::run(&args, "/d", &f), PublishAction::FindSkill { slug } if slug == "demo"));
    f.skill = server_skill();
    assert!(matches!(flow::run(&args, "/d", &f), PublishAction::Pack { dir } if dir == "/d"));
    f.packed = Some(Ok(b"zip".to_vec()));
    assert!(matches!(flow::run(&args, "/d", &f), PublishAction::Presign { skill_id } if skill_id == "id"));
    f.presigned = Some(Ok(Presigned { upload_url: s("https://put"), s3_key: s("key") }));
    assert!(matches!(
        flow::run(&args, "/d", &f),
        PublishAction::Upload { url, bytes } if url == "https://put" && bytes == b"zip"
    ));
    f.uploaded = Some(Ok(200));
    match flow::run(&args, "/d", &f) {
        PublishAction::Create { skill_id, version: c } => {
            assert_eq!(skill_id, "id");
            assert_eq!(c.version, "1.3.0");
            assert_eq!(c.packed_s3_key.as_deref(), Some("key"));
            assert_eq!(c.parent_version_id.as_deref(), Some("v"));
            assert!(c.skill_md.is_empty());
        }
        other => panic!("{:?}", other),
    }
    f.created = Some(Ok(()));
    assert!(matches!(flow::run(&args, "/d", &f), PublishAction::Done));
    f.uploaded = Some(Ok(503));
    match flow::run(&args, "/d", &f) {
        PublishAction::Fail(e) => {
            assert_eq!(e.message(), "server error (503): R2 PUT returned 503 Service Unavailable");
        }
        other => panic!("{:?}", other),
    }
}

#[test]
fn a_server_without_archives_gets_texts() {
    let args = publish_args();
    let mut f = facts();
    f.skill = server_skill();
    f.packed = Some(Ok(b"zip".to_vec()));
    f.presigned = Some(Err(CliError::NotFound(s("no route presign-bundle"))));
    assert!(matches!(flow::run(&args, "/d", &f), PublishAction::ReadTexts { dir } if dir == "/d"));
    f.texts = Some(Ok(VersionTexts {
        skill_md: s("# x"),
        intuition_md: s(""),
        meta_yaml: s("m"),
        tests_yaml: s("t"),
    }));
    match flow::run(&args, "/d", &f) {
        PublishAction::Create { version: c, .. } => {
            assert_eq!(c.skill_md, "# x");
            assert!(c.packed_s3_key.is_none());
        }
        other => panic!("{:?}", other),
    }
    f.presigned = Some(Err(net()));
    assert!(matches!(flow::run(&args, "/d", &f), PublishAction::Fail(CliError::Network(_))));
}

#[test]
fn nothing_is_sent_of_a_malformed_folder() {
    let args = publish_args();
    let mut f = facts();
    f.is_dir = false;
    match flow::run(&args, "/d", &f) {
        PublishAction::Fail(e) => assert_eq!(e.code(), "PUBLISH_NO_FOLDER"),
        other => panic!("{:?}", other),
    }
    f.is_dir = true;
    f.format = Some(CliError::Internal(s("bad")));
    assert!(matches!(flow::run(&args, "/d", &f), PublishAction::Fail(_)));
    f.format = None;
    let dry = PublishArgs { dry_run: true, ..publish_args() };
    assert!(matches!(flow::run(&dry, "/d", &f), PublishAction::DryRun));
    f.skill = Some(Ok(None));
    match flow::run(&args, "/d", &f) {
        PublishAction::Fail(e) => assert_eq!(e.message(), "not found: skill `demo` not found"),
        other => panic!("{:?}", other),
    }
}

#[test]
fn a_repository_has_the_version_before_the_tag() {
    let args = PublishArgs { minor: false, ..publish_args() };
    let mut f = RepoFacts {
        is_dir: true,
        format: None,
        current: Ok(s("0.0.0")),
        updated: None,
        published: None,
    };
    assert!(matches!(github_publish(&args, "/d", &f), RepoAction::UpdateMeta(v) if v == "0.1.0"));
    f.updated = Some(Ok(()));
    assert!(matches!(github_publish(&args, "/d", &f), RepoAction::Publish(v) if v == "0.1.0"));
    f.published = Some(Err(s("no push")));
    match github_publish(&args, "/d", &f) {
        RepoAction::Fail(e) => assert_eq!(e.message(), "github publish failed: no push"),
        other => panic!("{:?}", other),
    }
    f.is_dir = false;
    assert!(matches!(github_publish(&args, "/d", &f), RepoAction::Fail(_)));
    assert_eq!(current_version(Some(&b"version: 2.0.0\n".to_vec())).unwrap(), "2.0.0");
    assert_eq!(current_version(None).unwrap(), "0.0.0");
    assert_eq!(current_version(Some(&b"a: [".to_vec())).err().unwrap().code(), "META_INVALID");
}

// Pulling and copying

fn fetch_facts() -> FetchFacts {
    FetchFacts {
        version: None,
        folder: None,
        link: None,
        answered: None,
        unpacked: None,
        written: None,
    }
}

fn version(packed: bool) -> ServerVersion {
    ServerVersion {
        version: s("1.0.0"),
        packed,
        skill_md: s("# x"),
        intuition_md: s(" "),
        meta_yaml: s("m"),
        tests_yaml: s("t"),
    }
}

fn named(current: Option<&str>) -> NamedSkill {
    NamedSkill { id: s("id"), slug: s("demo"), current_version_semver: current.map(|c| s(c)) }
}

#[test]
fn a_skill_is_pulled_with_its_archive_or_its_texts() {
    let args = PullArgs { slug_at_version: s("demo@2.0.0"), target: None, global: false };
    let mut f = fetch_facts();
    assert!(matches!(pull::run(&args, &None, &f), FetchAction::FindSkill { slug } if slug == "demo"));
    let skill = Some(Ok(Some(named(None))));
    assert!(matches!(pull::run(&args, &skill, &f), FetchAction::GetVersion { skill_id, version } if skill_id == "id" && version == "2.0.0"));
    let bare = PullArgs { slug_at_version: s("demo"), ..args.clone() };
    match pull::run(&bare, &skill, &f) {
        FetchAction::Fail(e) => {
            assert_eq!(e.message(), "not found: skill `demo` has no published version");
        }
        other => panic!("{:?}", other),
    }
    f.version = Some(Ok(version(true)));
    assert!(matches!(pull::run(&args, &skill, &f), FetchAction::MakeFolder));
    f.folder = Some(Ok(()));
    assert!(matches!(pull::run(&args, &skill, &f), FetchAction::AskLink { skill_id, .. } if skill_id == "id"));
    f.link = Some(Ok(s("u")));
    assert!(matches!(pull::run(&args, &skill, &f), FetchAction::Download { .. }));
    f.answered = Some(Ok(404));
    match pull::run(&args, &skill, &f) {
        FetchAction::Fail(e) => assert!(e.message().ends_with("R2 GET returned 404 Not Found")),
        other => panic!("{:?}", other),
    }
    f.answered = Some(Ok(200));
    assert!(matches!(pull::run(&args, &skill, &f), FetchAction::Unpack));
    f.unpacked = Some(Ok(()));
    assert!(matches!(pull::run(&args, &skill, &f), FetchAction::Done));
    f.version = Some(Ok(version(false)));
    assert!(matches!(pull::run(&args, &skill, &f), FetchAction::WriteTexts));
    assert_eq!(
        pull_lines("demo", "1", "/d", &SyncReport::default()),
        vec![s("✓ demo@1 → /d")]
    );
}

#[test]
fn a_handle_names_someones_repository() {
    assert!(matches!(pull_source("@o/x"), Ok(PullSource::External(e)) if e.slug == "x"));
    assert!(matches!(
        pull_source("x@1"),
        Ok(PullSource::Own { slug, version }) if slug == "x" && version.as_deref() == Some("1")
    ));
    assert_eq!(pull_source("@o").err().unwrap().code(), "INVALID_EXTERNAL_SPEC");
}

#[test]
fn a_copy_is_made_before_it_is_fetched() {
    let args = ForkArgs {
        handle_slug: s("@a/x"),
        slug: Some(s("y")),
        name: None,
        target: None,
        global: false,
    };
    let mut f = ForkFacts { handle: None, source: None, forked: None, fetch: fetch_facts() };
    match fork::run(&args, &f, "@knack/api") {
        ForkAction::Fetch(FetchAction::Fail(e)) => {
            assert_eq!(e.code(), "INVALID_HANDLE");
            assert_eq!(e.hint(), Some("example: `knack fork @knack/api`"));
        }
        other => panic!("{:?}", other),
    }
    f.handle = Some((s("a"), s("x")));
    assert!(matches!(fork::run(&args, &f, "@knack/api"), ForkAction::FindSource { author, slug } if author == "a" && slug == "x"));
    f.source = Some(Ok(s("sid")));
    assert!(matches!(
        fork::run(&args, &f, "@knack/api"),
        ForkAction::Fork { source_id, copy } if source_id == "sid" && copy.slug.as_deref() == Some("y")
    ));
    f.forked = Some(Ok(named(None)));
    assert!(matches!(fork::run(&args, &f, "@knack/api"), ForkAction::Fetch(FetchAction::MakeFolder)));
    f.fetch.folder = Some(Ok(()));
    assert!(matches!(
        fork::run(&args, &f, "@knack/api"),
        ForkAction::Fetch(FetchAction::GetVersion { version, .. }) if version == "0.1.0"
    ));
}

// Making, running and rating

fn create_args() -> CreateArgs {
    CreateArgs {
        slug: s("demo"),
        name: s("Demo"),
        description: None,
        scope: s("personal"),
        team_id: None,
        scaffold: None,
        no_scaffold: false,
        global: false,
    }
}

#[test]
fn a_skill_is_made_and_its_folder_written() {
    let args = create_args();
    let mut f = CreateFacts { created: None, email: None, has_content: false, written: None };
    assert!(matches!(create::run(&args, "/d", &f), CreateAction::Post(b) if b.slug == "demo"));
    f.created = Some(Ok(CreatedSkill {
        id: s("id"),
        slug: s("demo"),
        scope: s("personal"),
        name: s("Demo"),
    }));
    assert!(matches!(create::run(&args, "/d", &f), CreateAction::AskMe));
    f.email = Some(Ok(s("u@e.x")));
    match create::run(&args, "/d", &f) {
        CreateAction::Write(files) => {
            assert!(files[0].content.contains("Demo — describe what it does in one line."));
        }
        other => panic!("{:?}", other),
    }
    f.has_content = true;
    assert!(matches!(create::run(&args, "/d", &f), CreateAction::Fail(_)));
    f.written = Some(Ok(()));
    assert!(matches!(create::run(&args, "/d", &f), CreateAction::Done));
    let bare = CreateArgs { no_scaffold: true, ..create_args() };
    assert!(matches!(create::run(&bare, "/d", &f), CreateAction::Done));
    let bad = CreateArgs { slug: s("No"), ..create_args() };
    match create::run(&bad, "/d", &f) {
        CreateAction::Fail(e) => assert_eq!(e.code(), "CREATE_BAD_SLUG"),
        other => panic!("{:?}", other),
    }
}

#[test]
fn fresh_ids_differ() {
    let ids = |files: Vec<knack::github::bootstrap::NewFile>| files[1].content.clone();
    let a = ids(create::github_create(&create_args(), "o", "/d", false).unwrap());
    let b = ids(create::github_create(&create_args(), "o", "/d", false).unwrap());
    assert_ne!(a, b);
    assert!(a.starts_with("id: "));
    assert_eq!(
        create::github_create(&create_args(), "o", "/d", true).err().unwrap().code(),
        "SKILL_EXISTS"
    );
}

#[test]
fn a_run_is_recorded_for_a_version() {
    let args = RunArgs {
        slug: s("demo@1.0.0"),
        input: vec![s("in/a.txt")],
        runtime: None,
        agent_id: None,
        no_exec: false,
        dry: false,
        no_push: false,
    };
    let mut f = RunFacts { skill: None, version_id: None, started: None };
    assert!(matches!(run::run(&args, &f), RunAction::FindSkill { slug } if slug == "demo"));
    f.skill = Some(Ok(Some(RunSkill { id: s("id"), current_version_id: None })));
    assert!(matches!(run::run(&args, &f), RunAction::GetVersion { skill_id, version } if skill_id == "id" && version == "1.0.0"));
    f.version_id = Some(Err(CliError::NotFound(s("x"))));
    match run::run(&args, &f) {
        RunAction::Fail(e) => {
            assert_eq!(e.message(), "not found: skill `demo` has no version `1.0.0`");
        }
        other => panic!("{:?}", other),
    }
    f.version_id = Some(Ok(s("vid")));
    match run::run(&args, &f) {
        RunAction::Start(c) => {
            assert_eq!(c.skill_version_id, "vid");
            assert_eq!(c.runtime, "agent");
            assert!(c.inputs_summary.is_some());
        }
        other => panic!("{:?}", other),
    }
    f.started = Some(Ok(()));
    assert!(matches!(run::run(&args, &f), RunAction::Done));
    let j = inputs_summary(&vec![s("in/a.txt")]).unwrap();
    match j.get("files") {
        Some(Json::Array(a)) => assert_eq!(a[0].get_str("filename"), Some("a.txt")),
        _ => panic!("no list"),
    }
}

#[test]
fn stars_are_given_or_taken_back() {
    let args = RateArgs { slug: s("demo"), stars: Some(4), review: None, clear: false };
    let mut f = RateFacts { skill: None, done: None };
    assert!(matches!(rate::run(&args, &f), RateStep::FindSkill(slug) if slug == "demo"));
    f.skill = Some(Ok(Some(s("id"))));
    assert!(matches!(
        rate::run(&args, &f),
        RateStep::Send(id, RateAction::Rate { stars: 4, .. }) if id == "id"
    ));
    let none = RateArgs { stars: None, ..args.clone() };
    match rate::run(&none, &f) {
        RateStep::Fail(e) => assert_eq!(e.code(), "RATE_NO_STARS"),
        other => panic!("{:?}", other),
    }
    let clear = RateArgs { clear: true, ..none };
    assert!(matches!(rate::run(&clear, &f), RateStep::Send(_, RateAction::Clear)));
}

// Exporting

#[test]
fn an_export_tells_of_every_skill() {
    let mut f = ExportFacts {
        id: s("id"),
        dir: s("/d/personal/a"),
        current: None,
        version: None,
        link: None,
        fetched: None,
        folder: None,
        unpacked: None,
    };
    assert!(matches!(export_skill(&f), ExportStep::Finish(SkillOutcome::NoVersion)));
    f.current = Some(s("1.0.0"));
    assert!(matches!(export_skill(&f), ExportStep::GetVersion { id, version } if id == "id" && version == "1.0.0"));
    f.version = Some(Ok((s("1.0.0"), true)));
    assert!(matches!(export_skill(&f), ExportStep::AskLink { id, .. } if id == "id"));
    f.link = Some(Ok(s("https://get")));
    assert!(matches!(export_skill(&f), ExportStep::Fetch { url } if url == "https://get"));
    f.fetched = Some(Err(s("slow")));
    assert!(matches!(export_skill(&f), ExportStep::Finish(SkillOutcome::Failed(e)) if e == "slow"));
    f.fetched = Some(Ok(()));
    assert!(matches!(export_skill(&f), ExportStep::MakeFolder { dir } if dir == "/d/personal/a"));
    f.folder = Some(Ok(()));
    f.unpacked = Some(Ok(()));
    assert!(matches!(export_skill(&f), ExportStep::Finish(SkillOutcome::Exported(_))));
    let skills = vec![
        SkillExport { scope: s("personal"), slug: s("a"), outcome: SkillOutcome::Exported(s("1")) },
        SkillExport { scope: s("team"), slug: s("b"), outcome: SkillOutcome::NoBundle },
        SkillExport {
            scope: s("team"),
            slug: s("c"),
            outcome: SkillOutcome::UnpackFailed(s("bad")),
        },
    ];
    let report = cloud_export(&skills);
    assert_eq!(report.exported, vec![s("personal/a (v1)")]);
    assert_eq!(report.skipped.len(), 2);
    assert_eq!(report.skipped[1].reason, "unpack: bad");
}

#[test]
fn downloads_are_tried_again_but_not_where_they_are_refused() {
    assert!(matches!(fetch_with_retry(1, &FetchOutcome::Status(200)), FetchStep::Read));
    assert!(matches!(fetch_with_retry(1, &FetchOutcome::Status(503)), FetchStep::Retry(1)));
    assert!(matches!(fetch_with_retry(2, &FetchOutcome::Network(s("x"))), FetchStep::Retry(2)));
    match fetch_with_retry(3, &FetchOutcome::Network(s("x"))) {
        FetchStep::Fail(e) => assert_eq!(e, "network error: x (attempt 3)"),
        other => panic!("{:?}", other),
    }
    match fetch_with_retry(1, &FetchOutcome::Status(403)) {
        FetchStep::Fail(e) => assert_eq!(e, "R2 GET returned 403 Forbidden (no retry on 4xx)"),
        other => panic!("{:?}", other),
    }
    assert!(check_target("/d", &PathState::HasEntries, false).is_err());
    assert!(check_target("/d", &PathState::HasEntries, true).is_ok());
    assert_eq!(
        export_target(None, &Timestamp { secs: 1_777_636_800, nanos: 0 }).as_deref(),
        Some("./knack-export-2026-05-01T12-00-00")
    );
}

// Signing in

fn device() -> DeviceAuthStart {
    DeviceAuthStart {
        device_code: s("d"),
        user_code: s("u"),
        verification_uri: s("https://v"),
        expires_in: 10,
        interval: 0,
    }
}

fn answer(status: PollStatus, token: Option<&str>) -> DevicePollResponse {
    DevicePollResponse {
        status,
        access_token: token.map(|t| s(t)),
        refresh_token: None,
        expires_in: None,
    }
}

fn pat() -> CreateCliTokenResponse {
    CreateCliTokenResponse {
        id: s("tid"),
        name: s("label"),
        plaintext: s("secret"),
        prefix: s("knk_ab"),
        created_at: Timestamp { secs: 0, nanos: 0 },
        expires_at: Some(Timestamp { secs: 9, nanos: 5 }),
        scopes: vec![],
    }
}

fn me() -> Me {
    Me {
        id: s("uid"),
        email: s("u@e.x"),
        name: None,
        plan: s("free"),
        auth_method: s("pat"),
    }
}

#[test]
fn signing_in_waits_for_an_approval() {
    let start = device();
    assert_eq!(poll_interval(&start), 1);
    assert!(matches!(login(&start, 59, None), LoginStep::Poll));
    assert!(matches!(login(&start, 60, None), LoginStep::Fail(_)));
    let pending = answer(PollStatus::AuthorizationPending, None);
    assert!(matches!(login(&start, 1, Some(Ok(&pending))), LoginStep::Ask));
    let slow = answer(PollStatus::SlowDown, None);
    assert!(matches!(login(&start, 1, Some(Ok(&slow))), LoginStep::AskLater));
    let empty = answer(PollStatus::Approved, Some(""));
    match login(&start, 1, Some(Ok(&empty))) {
        LoginStep::Fail(e) => {
            assert_eq!(e.message(), "authentication failed: server omitted access token");
        }
        other => panic!("{:?}", other),
    }
    let yes = answer(PollStatus::Approved, Some("jwt"));
    assert!(matches!(login(&start, 1, Some(Ok(&yes))), LoginStep::Mint(t) if t == "jwt"));
    assert!(matches!(login(&start, 1, Some(Err(net()))), LoginStep::Fail(_)));
    assert_eq!(effective_expiry(None, false), Some(90));
    assert_eq!(effective_expiry(Some(5), true), None);
}

#[test]
fn a_token_that_cannot_be_used_is_revoked() {
    match finalize_login_to_pat(&pat(), Ok(&me())) {
        AfterMint::Keep(c) => {
            assert_eq!(c.token, "secret");
            assert!(c.refresh_token.is_none());
            assert_eq!(c.expires_at, Some(9));
        }
        other => panic!("{:?}", other),
    }
    assert!(matches!(finalize_login_to_pat(&pat(), Err(net())), AfterMint::Revoke(id, _) if id == "tid"));
    let j = login_json(&me(), "default", &pat());
    assert_eq!(j.get_str("token_prefix"), Some("knk_ab"));
    assert_eq!(j.get_str("expires_at"), Some("1970-01-01T00:00:09.000000005Z"));
}

fn credential(token: &str, id: Option<&str>, refresh: Option<&str>) -> StoredCredential {
    StoredCredential {
        token: s(token),
        token_id: id.map(|i| s(i)),
        prefix: None,
        refresh_token: refresh.map(|r| s(r)),
        expires_at: None,
        label: None,
        user_id: None,
        email: None,
    }
}

#[test]
fn signing_out_gives_up_what_is_kept() {
    assert!(matches!(logout(None), Revocation::Nothing));
    let token = credential("knk_x", Some("id"), None);
    assert!(matches!(logout(Some(&token)), Revocation::Token(t) if t == "id"));
    let session = credential("jwt", None, Some("r"));
    assert!(matches!(logout(Some(&session)), Revocation::Session(t) if t == "r"));
    assert!(matches!(refresh(Some(&session)), RefreshStep::Ask));
    assert!(matches!(github_refresh_noop().get("refreshed"), Some(Json::Bool(false))));
    let new = renewed(&session, s("jwt2"), s("r2"), 60, 100);
    assert_eq!(new.token, "jwt2");
    assert_eq!(new.refresh_token.as_deref(), Some("r2"));
}

#[test]
fn the_token_that_is_given_wins() {
    assert_eq!(current_access_token(Some("a"), Some("b"), None).as_deref(), Some("a"));
    assert_eq!(current_access_token(None, Some("b"), Some("c")).as_deref(), Some("b"));
    assert!(current_is_jwt(Some("eyJ.a.b"), None, None));
    assert!(matches!(after_first_answer(200, false, true), AfterAnswer::Read));
    assert!(matches!(after_first_answer(401, false, true), AfterAnswer::Renew));
    assert!(matches!(after_first_answer(401, false, false), AfterAnswer::Fail));
    let info = resolve_status_source(None, None, Some("eyJ.a.b"), 0).unwrap();
    assert_eq!(info.source, BearerSource::KeyringJwt);
    assert!(resolve_status_source(None, None, None, 0).is_none());
}

#[test]
fn requests_are_built() {
    assert_eq!(url("https://h", "/p"), "https://h/p");
    let r = create_cli_token("n", Some(3), false, &vec![]);
    assert_eq!(r.method, "POST");
    assert_eq!(r.body.unwrap().get("expires_in_days").unwrap().as_i64(), Some(3));
    let r = search(Some("close"), "top", 5);
    assert!(r.query.iter().any(|q| q.0 == "limit" && q.1 == "5"));
    assert!(looks_like_uuid("123e4567-e89b-12d3-a456-426614174000"));
    assert!(!looks_like_uuid("acme"));
    let teams = vec![Team { id: s("1"), name: s("Acme"), slug: s("acme"), plan: s("p") }];
    assert_eq!(resolve(&teams, "acme").unwrap().id, "1");
    assert!(resolve(&teams, "nope").is_err());
}

// Uninstalling

#[test]
fn nothing_is_removed_unasked() {
    let args = UninstallArgs {
        keep_auth: true,
        purge_workspaces: false,
        yes: false,
        print: false,
        script: false,
    };
    let human = OutputMode::human();
    assert_eq!(uninstall::run(&args, human, None), UninstallStep::AskFirst);
    assert_eq!(uninstall::run(&args, human, Some(false)), UninstallStep::Abort);
    assert_eq!(uninstall::run(&args, human, Some(true)), UninstallStep::Remove { auth: false });
    let print = UninstallArgs { print: true, ..args.clone() };
    assert_eq!(uninstall::run(&print, human, None), UninstallStep::Rehearse);
    let script = UninstallArgs { script: true, ..args };
    assert_eq!(uninstall::run(&script, human, None), UninstallStep::TellScript);
    assert!(confirm(" YES\n"));
    assert!(!confirm("\n"));
}

// Linking

fn link(slug: &str, version: &str, scope: Scope) -> LinkedSkill {
    LinkedSkill { slug: s(slug), version: s(version), scope, agents: vec![s("codex")] }
}

#[test]
fn drifted_links_are_told_of_and_updated() {
    let linked = vec![link("b", "1", Scope::Home), link("a", "1", Scope::Project)];
    let slugs = linked_slugs(&linked);
    assert_eq!(slugs, vec![s("a"), s("b")]);
    let up = |v: &str| {
        Some(Upstream { latest: Some(s(v)), owner_username: Some(s("me")), owner_team: false })
    };
    let notices = check_updates(false, &linked, &slugs, &vec![up("1"), up("2")]);
    assert_eq!(notices.len(), 1);
    assert_eq!(notices[0].slug, "b");
    assert_eq!(notices[0].latest, "2");
    assert!(check_updates(true, &linked, &slugs, &vec![up("1"), up("2")]).is_empty());
    assert_eq!(
        update_all(&linked, &slugs, &vec![Some(s("1")), Some(s("2"))]),
        vec![(s("b"), s("2"))]
    );
    assert!(update_all(&linked, &slugs, &vec![None, None]).is_empty());
    assert!(precedence_warning(&linked, "zzz", Scope::Home).is_none());
    assert_eq!(resolve_scope(false, false, LinkScope::Project), Scope::Project);
    assert_eq!(resolve_scope(true, false, LinkScope::Project), Scope::Home);
}

fn material() -> Materialized {
    match materialize("demo", &version(false), None) {
        Ok(m) => m,
        Err(e) => panic!("{:?}", e),
    }
}

#[test]
fn a_version_is_put_together_from_its_texts_or_files() {
    let m = material();
    let paths: Vec<&str> = m.files.iter().map(|f| f.0.as_str()).collect();
    assert_eq!(paths, vec!["SKILL.md", "meta.knack.yaml", "tests/basic.yaml"]);
    let files = vec![(s("SKILL.md"), vec![b'#', 0xff])];
    let m = match materialize("demo", &version(true), Some(files)) {
        Ok(m) => m,
        Err(e) => panic!("{:?}", e),
    };
    assert_eq!(m.skill_md, "#\u{fffd}");
    match materialize("demo", &version(true), Some(vec![])) {
        Ok(_) => panic!("made"),
        Err(e) => assert_eq!(e.message(), "bundle for `demo` has no SKILL.md"),
    }
}

#[test]
fn agents_are_found_and_written_to() {
    let all = targets();
    assert!(names(&all).contains(&"cursor"));
    assert!(find(&all, "nobody").is_none());
    let installed = vec![
        AgentEntry { slug: s("codex"), scope: Scope::Home, path: s("/p") },
        AgentEntry { slug: s("codex"), scope: Scope::Project, path: s("/q") },
    ];
    assert_eq!(resolve_targets(&all, None, &installed).unwrap().len(), 1);
    assert!(resolve_targets(&all, Some("nobody"), &installed).is_err());
    let m = Machine { home: Some("/h"), config: None, cwd: Some("/w"), vars: vec![] };
    let t = find(&targets(), "codex").unwrap();
    assert_eq!(t.config_path(&m).as_deref(), Some("/h/.codex/AGENTS.md"));
    assert_eq!(t.shim_root(Scope::Project, &m).as_deref(), Some("/w/.agents/skills"));
    let root = t.shim_root(Scope::Home, &m);
    let fm = SkillFrontmatter::default();
    let plan = plan_write(&material(), &fm, &t, root, false);
    match &plan {
        WritePlan::Folder { dest, files } => {
            assert_eq!(dest, "/h/.agents/skills/demo");
            assert!(files.iter().any(|f| f.0 == "SKILL.md"));
        }
        other => panic!("{:?}", other),
    }
    let steps = vec![WriteStep { target: t, plan, root_existed: false, result: Ok(()) }];
    let r = write_skill_to_targets(&steps);
    assert_eq!(r.written_agents, vec![s("codex")]);
    assert!(r.created_top_level_dir);
    assert_eq!(r.outcomes[0].status, "linked");
}

#[test]
fn every_notice_has_a_place() {
    let m = Machine { home: Some("/h"), config: Some("/c"), cwd: None, vars: vec![] };
    let all = targets();
    assert!(all.iter().all(|t| t.config_path(&m).is_some()));
    let at = |name: &str| find(&all, name).unwrap().config_path(&m).unwrap();
    assert!(at("windsurf").starts_with("/h/.codeium/windsurf/memories/global_"));
    assert!(at("trae").starts_with("/h/.trae/rules/user_") && at("trae").ends_with(".md"));
}

fn added() -> AgentTarget {
    let own = Anchor::Own { var: "ROBOT_DIR", dir: ".robot" };
    AgentTarget {
        name: "robot",
        display: "Robot",
        env_markers: vec!["ROBOT"],
        binary_markers: vec!["robot"],
        style: ConfigStyle::AppendBlock,
        shim_style: ShimStyle::NativeSkill,
        config: Some(Place { anchor: own, rel: "ROBOT", ext: ".md" }),
        home_skills: Some(Place { anchor: own, rel: "skills", ext: "" }),
        project_skills: Some(Place { anchor: Anchor::Cwd, rel: ".robot/skills", ext: "" }),
    }
}

#[test]
fn an_agent_that_is_added_is_found() {
    let mut all = targets();
    all.insert(0, added());
    assert_eq!(names(&all)[0], "robot");
    let t = find(&all, "robot").unwrap();
    let mut m = Machine { home: Some("/h"), config: None, cwd: Some("/w"), vars: vec![] };
    assert_eq!(t.config_path(&m).as_deref(), Some("/h/.robot/ROBOT.md"));
    m.vars = vec![("OTHER", "/x"), ("ROBOT_DIR", "/r")];
    assert_eq!(t.config_path(&m).as_deref(), Some("/r/ROBOT.md"));
    assert_eq!(t.shim_root(Scope::Home, &m).as_deref(), Some("/r/skills"));
    assert_eq!(t.shim_root(Scope::Project, &m).as_deref(), Some("/w/.robot/skills"));
    let installed = vec![AgentEntry { slug: s("robot"), scope: Scope::Home, path: s("/p") }];
    assert_eq!(resolve_targets(&all, None, &installed).unwrap()[0].name, "robot");
    assert_eq!(resolve_targets(&all, Some("robot"), &vec![]).unwrap().len(), 1);
    let none = resolve_targets(&targets(), None, &installed).err().unwrap();
    assert_eq!(none.code(), "NO_AGENTS_INSTALLED");
}

#[test]
fn purging_tells_of_every_agent() {
    let steps = vec![
        PurgeStep { agent: s("a"), path: s("/a"), purged: Purged::Removed(2) },
        PurgeStep { agent: s("b"), path: s("/b"), purged: Purged::Failed(s("denied")) },
    ];
    let r = purge_all(&steps);
    assert_eq!(r.removed.len(), 1);
    assert_eq!(r.skipped.len(), 1);
    assert!(!emit_report(&r, false).is_empty());
}

// Folders, interviews, feedback and the rest

fn folder(id: &str, name: &str) -> Folder {
    Folder {
        id: s(id),
        name: s(name),
        scope: s("personal"),
        owner_team_id: None,
        parent_folder_id: None,
        skill_count: 0,
    }
}

#[test]
fn folders_come_and_go() {
    let mut idx = FoldersIndex { folders: vec![] };
    assert!(assign_to_folder_stub(&mut idx, &folder("1", "a")));
    assert!(!assign_to_folder_stub(&mut idx, &folder("1", "a")));
    assert!(sync_folder_rename_local(&mut idx, "1", "b"));
    assert_eq!(idx.folders[0].name, "b");
    assert!(sync_folder_delete_local(&mut idx, "1"));
    assert!(idx.folders.is_empty());
    assert!(!sync_folder_delete_local(&mut idx, "1"));
    let args = ReparentArgs {
        id_or_name: s("x"),
        new_parent: None,
        root: true,
        scope: None,
        team_id: None,
    };
    assert!(matches!(reparent_target(&args), Ok(ReparentTo::Root)));
    let none = ReparentArgs { root: false, ..args.clone() };
    assert!(reparent_target(&none).is_err());
    let mv_args = MvArgs {
        slug: s("demo"),
        folder_name: None,
        unfiled: true,
        scope: None,
        team_id: None,
    };
    let place = knack::commands::folder::SkillPlace {
        id: s("7"),
        slug: s("demo"),
        scope: s("personal"),
        owner_team_id: None,
    };
    assert!(matches!(mv_plan(&mv_args, Some(&place)), Ok(MvPlan::Unfile)));
    assert!(mv_plan(&mv_args, None).is_err());
}

#[test]
fn an_interview_goes_through_its_phases_and_reads_back() {
    let mut session = start();
    assert_eq!(session.id.len(), 36);
    assert_eq!(session.phase, Phase::Genesis);
    let args = SaveArgs { session: session.id.clone(), phase: Phase::Genesis, data: s("{\"a\":1}") };
    session = match save(session, &args) {
        Ok(x) => x,
        Err(e) => panic!("{:?}", e),
    };
    for p in [Phase::Artifacts, Phase::Intuition, Phase::Compile, Phase::Refine, Phase::Publish] {
        assert_eq!(advance(&mut session).unwrap(), p);
    }
    assert_eq!(advance(&mut session).err().unwrap().code(), "ALREADY_AT_LAST_PHASE");
    let text = save_session(&session);
    let back = match load_session(&session.id, Some(&text.into_bytes())) {
        Ok(b) => b,
        Err(e) => panic!("{:?}", e),
    };
    assert_eq!(back.id, session.id);
    assert_eq!(back.phase, Phase::Publish);
    assert_eq!(back.data.get("genesis").unwrap().get("a").unwrap().as_u64(), Some(1));
    let bad = SaveArgs { session: s("x"), phase: Phase::Refine, data: s("{") };
    assert_eq!(save(start(), &bad).err().unwrap().code(), "INVALID_JSON");
    assert_eq!(load_session("x", None).err().unwrap().message(), "not found: session x not found");
    assert_eq!(load_session("x", Some(&b"{".to_vec())).err().unwrap().code(), "STATE_CORRUPT");
    assert_eq!(resolve_target(None, "/w/skills"), "/w/skills/knack-interview");
}

#[test]
fn unknown_topics_are_told_of() {
    let text = "intro\n=== PART FOUR: PUBLISHING ===\nbody\n";
    let slice = match slice_playbook(text, &vec![s("publishing"), s("bogus")]) {
        Ok(x) => x,
        Err(e) => panic!("{:?}", e),
    };
    assert_eq!(slice.resolved, vec![s("publishing")]);
    assert_eq!(slice.unknown, vec![s("bogus")]);
    assert!(slice.body.ends_with("=== PART FOUR: PUBLISHING ===\nbody"));
    assert!(unknown_note(&slice.unknown)
        .starts_with("knack info: ignoring unknown section(s) [\"bogus\"] — valid: overview, "));
    match slice_playbook(text, &vec![s("bo\"gus")]) {
        Ok(_) => panic!("sliced"),
        Err(e) => assert_eq!(e.message(), "no known playbook section in [\"bo\\\"gus\"]"),
    }
}

#[test]
fn feedback_is_read_and_summed_up() {
    assert_eq!(resolve_body("hello", Ok("")).unwrap(), "hello");
    assert_eq!(resolve_body("-", Ok("from stdin\n")).unwrap(), "from stdin");
    assert_eq!(short_id("0123456789"), "01234567");
    let t = ThreadSummary {
        id: s("1"),
        subject: s("x"),
        status: s("open"),
        has_unread_admin_replies: true,
        message_count: 1,
        updated_at: Timestamp { secs: 0, nanos: 0 },
    };
    assert!(unread_note(&vec![t]).is_some());
    assert!(unread_note(&vec![]).is_none());
}

#[test]
fn hosts_fall_back_to_the_known_ones() {
    let (hosts, source) = hosts_to_try(None, "https://api.getknack.ai/");
    assert_eq!(hosts[0].host, "api.getknack.ai");
    assert!(!source.is_empty());
    let probe = |stage: ProbeStage, label: &str, status: Option<u16>| ProbeResult {
        host: s("h"),
        purpose: s("p"),
        stage,
        label: s(label),
        http_status: status,
        detail: None,
    };
    assert!(any_tls(&vec![probe(ProbeStage::Tls, "tls", None)]));
    assert!(!any_tls(&vec![probe(ProbeStage::Unreached, "dns", None)]));
    assert!(!any_tls(&vec![]));
    let told = connectivity(
        "fallback",
        &vec![probe(ProbeStage::Reached, "ok", Some(204)), probe(ProbeStage::Tls, "tls", None)],
    );
    assert_eq!(told.lines.len(), 13);
    assert_eq!(told.lines[0], "(couldn't fetch the host list from the API — probing locally");
    assert!(told.lines[3].starts_with("  OK (HTTP 204)  h "));
    assert!(told.lines[4].starts_with("  tls            h "));
    assert_eq!(told.lines[10], "    knack --cacert /path/to/corp-ca.pem auth login");
    let fine = connectivity("api", &vec![probe(ProbeStage::Unreached, "timeout", None)]);
    assert_eq!(fine.lines.len(), 3);
    assert_eq!((fine.lines[0].as_str(), fine.lines[2].as_str()), ("", ""));
}

#[test]
fn a_repository_is_scaffolded_without_overwriting() {
    let all = scaffold("o", "r", &vec![]);
    assert!(!all.is_empty());
    let first = all[0].path.clone();
    let rest = scaffold("o", "r", &vec![first.clone()]);
    assert_eq!(rest.len(), all.len() - 1);
    assert!(rest.iter().all(|f| f.path != first));
    assert_eq!(Visibility::Public.gh_flag(), "--public");
}

#[test]
fn found_skills_are_cut_to_their_columns() {
    let line = found_line("a", "demo", "A name that is rather long indeed", "★", "d");
    assert_eq!(line, "  @a/demo                 A name that is rather l… ★  d");
}
