use knack::api::auth::{DeviceAuthStart, DevicePollResponse, Me, PollStatus};
use knack::api::client::{
    send_empty, send_json, try_refresh, Answer, RefreshAnswer, RefreshResp, RefreshTokens,
    SendFacts, SendStep,
};
use knack::api::error::map_api_error_bytes;
use knack::api::session::{has_feedback_notice, seconds_left, StoredCredential};
use knack::commands::auth::{
    github_login_lines, github_status_lines, login_lines, login_poll, login_start_lines,
    opening_lines, refreshed, GhAuthProbe, Minted, PollStep,
};
use knack::commands::create::github_created;
use knack::commands::feedback::{open_lines, reply, Thread};
use knack::commands::folder::flow::{
    create, delete, mv, rename, reparent, FolderAction, FolderFacts, LocalChange,
};
use knack::commands::folder::{
    CreateArgs, DeleteArgs, Folder, MvArgs, RenameArgs, ReparentArgs, SkillPlace,
};
use knack::commands::fork::fork_lines;
use knack::commands::init::{backend_question, bootstrap_lines, bootstrapped_lines, repo_question};
use knack::commands::install::installed::Scope;
use knack::commands::install::linked::{LinkedRecord, LinkedSkill};
use knack::commands::install::targets::{find, targets};
use knack::commands::interview::{
    advance, advanced, resume, saved, session_with, started, status_lines, Phase,
};
use knack::commands::link::flow::{relink_to_latest, run_link, run_unlink, updated, UnlinkStep};
use knack::commands::link::{write_skill_to_targets, Materialized, WritePlan, WriteStep};
use knack::commands::mark::{bulk, bulk_lines, cloud_mark_single};
use knack::commands::publish::flow::repo_published_lines;
use knack::commands::pull::github::{github_pull, FileFault, GithubPullFacts, GithubPullStep};
use knack::commands::pull::PullArgs;
use knack::commands::rate::{cleared_line, rated, Rated};
use knack::commands::run::run_lines;
use knack::commands::search::{found, FoundSkill};
use knack::commands::validate::clean_line;
use knack::errors::CliError;
use knack::commands::diff::{diff_request, DiffArgs};
use knack::commands::info_chunks::{slugs, toc};
use knack::commands::install::installed;
use knack::commands::install::linked;
use knack::commands::install::shim::{
    file_carries_sigil, remove_linked_skill, remove_skill_block, render_linked_skill,
    text_block_end, text_block_start, upsert_skill_block, FileChange,
};
use knack::commands::run::read_meta_version;
use knack::github::aggregate::{group_time_buckets, scan_snapshots, TrendInterval};
use knack::github::external::{pull_external, ExternalSpec};
use knack::github::bootstrap::{
    bootstrap_repo, is_clone_of, scaffold, BootstrapOpts, Visibility,
};
use knack::github::git::{fresh_target, resolve_remote, RemoteFacts, ResolvedRemotes};
use knack::github::runs::{
    day_entry, event_line, find_run, mark_run, started_event, RunSnapshot,
};
use knack::github::workspace::read_workspace_auto_push;
use knack::json::Json;
use knack::time::Timestamp;
use knack::tls::{bundle_warning, BundleRead};
use knack::types::SkillFile;

fn s(t: &str) -> String {
    t.to_string()
}

fn net() -> CliError {
    CliError::Network(s("down"))
}

// Folders

fn nothing() -> FolderFacts {
    FolderFacts {
        skill: None,
        folder: None,
        parent: None,
        made: None,
        changed: None,
        deleted: None,
        filed: None,
    }
}

fn folder(id: &str, scope: &str, team: Option<&str>) -> Folder {
    Folder {
        id: s(id),
        name: s("ops"),
        scope: s(scope),
        owner_team_id: team.map(|t| s(t)),
        parent_folder_id: None,
        skill_count: 0,
    }
}

fn mv_args(folder: Option<&str>, unfiled: bool) -> MvArgs {
    MvArgs {
        slug: s("demo"),
        folder_name: folder.map(|f| s(f)),
        unfiled,
        scope: None,
        team_id: None,
    }
}

fn place(scope: &str, team: Option<&str>) -> SkillPlace {
    SkillPlace {
        id: s("7"),
        slug: s("demo"),
        scope: s(scope),
        owner_team_id: team.map(|t| s(t)),
    }
}

#[test]
fn a_skill_is_filed_where_it_belongs() {
    let args = mv_args(Some("ops"), false);
    let mut f = nothing();
    assert!(matches!(mv(&args, &f), FolderAction::FindSkill { slug } if slug == "demo"));
    f.skill = Some(Ok(Some(place("team", Some("t1")))));
    match mv(&args, &f) {
        FolderAction::FindFolder { name, scope, team_id } => {
            assert_eq!(name, "ops");
            assert_eq!(scope.as_deref(), Some("team"));
            assert_eq!(team_id.as_deref(), Some("t1"));
        }
        other => panic!("{:?}", other),
    }
    f.folder = Some(Err(CliError::NotFound(s("ops"))));
    match mv(&args, &f) {
        FolderAction::Make { name, team_id, parent_id, note } => {
            assert_eq!(name, "ops");
            assert_eq!(team_id.as_deref(), Some("t1"));
            assert_eq!(parent_id, None);
            assert_eq!(note.as_deref(), Some("creating folder `ops`…"));
        }
        other => panic!("{:?}", other),
    }
    f.made = Some(Ok(folder("9", "team", Some("t1"))));
    match mv(&args, &f) {
        FolderAction::File { skill_id, folder_id } => {
            assert_eq!(skill_id, "7");
            assert_eq!(folder_id.as_deref(), Some("9"));
        }
        other => panic!("{:?}", other),
    }
    f.filed = Some(Ok(s("demo")));
    match mv(&args, &f) {
        FolderAction::Done { local: LocalChange::File { slug, folder }, told } => {
            assert_eq!(slug, "demo");
            assert_eq!(folder.id, "9");
            assert_eq!(told.report.get_str("folder_name"), Some("ops"));
            assert_eq!(told.lines, vec![s("✓ demo → ops")]);
        }
        other => panic!("{:?}", other),
    }
    f.filed = Some(Err(net()));
    assert!(matches!(mv(&args, &f), FolderAction::Fail(CliError::Network(_))));
}

#[test]
fn a_skill_is_taken_out_of_its_folder() {
    let args = mv_args(None, true);
    let mut f = nothing();
    f.skill = Some(Ok(Some(place("personal", None))));
    assert!(matches!(mv(&args, &f), FolderAction::File { folder_id: None, .. }));
    f.filed = Some(Ok(s("demo")));
    match mv(&args, &f) {
        FolderAction::Done { local: LocalChange::Unfile { slug }, told } => {
            assert_eq!(slug, "demo");
            assert!(matches!(told.report.get("folder_id"), Some(Json::Null)));
            assert_eq!(told.lines, vec![s("✓ demo is now unfiled")]);
        }
        other => panic!("{:?}", other),
    }
    let none = mv_args(None, false);
    match mv(&none, &f) {
        FolderAction::Fail(e) => assert_eq!(e.code(), "MISSING_FOLDER"),
        other => panic!("{:?}", other),
    }
    f.skill = Some(Ok(None));
    assert!(matches!(mv(&args, &f), FolderAction::Fail(CliError::NotFound(m)) if m == "skill `demo` not found"));
}

#[test]
fn folders_are_made_renamed_moved_and_deleted() {
    let c = CreateArgs { name: s("new"), team_id: None, parent: Some(s("ops")) };
    let mut f = nothing();
    match create(&c, &f) {
        FolderAction::FindParent { name, scope, .. } => {
            assert_eq!(name, "ops");
            assert_eq!(scope.as_deref(), Some("personal"));
        }
        other => panic!("{:?}", other),
    }
    f.parent = Some(Ok(folder("1", "personal", None)));
    assert!(matches!(create(&c, &f), FolderAction::Make { parent_id: Some(p), .. } if p == "1"));
    f.made = Some(Ok(folder("2", "personal", None)));
    match create(&c, &f) {
        FolderAction::Done { local: LocalChange::Add(x), told } => {
            assert_eq!(x.id, "2");
            assert_eq!(told.lines, vec![s("✓ created folder ops (id: 2, scope: personal)")]);
        }
        other => panic!("{:?}", other),
    }

    let n = RenameArgs { id_or_name: s("ops"), new_name: s("dev"), scope: None, team_id: None };
    let mut f = nothing();
    assert!(matches!(rename(&n, &f), FolderAction::FindFolder { .. }));
    f.folder = Some(Ok(folder("1", "personal", None)));
    assert!(matches!(rename(&n, &f), FolderAction::Rename { id, name } if id == "1" && name == "dev"));
    f.changed = Some(Ok(folder("1", "personal", None)));
    assert!(matches!(
        rename(&n, &f),
        FolderAction::Done { local: LocalChange::Rename { .. }, told } if told.lines == vec![s("✓ renamed → ops")]
    ));

    let p = ReparentArgs {
        id_or_name: s("ops"),
        new_parent: Some(s("top")),
        root: false,
        scope: None,
        team_id: None,
    };
    let mut f = nothing();
    f.folder = Some(Ok(folder("1", "team", Some("t"))));
    match reparent(&p, &f) {
        FolderAction::FindParent { name, scope, team_id } => {
            assert_eq!(name, "top");
            assert_eq!(scope.as_deref(), Some("team"));
            assert_eq!(team_id.as_deref(), Some("t"));
        }
        other => panic!("{:?}", other),
    }
    f.parent = Some(Ok(folder("5", "team", Some("t"))));
    assert!(matches!(reparent(&p, &f), FolderAction::Reparent { parent_id: Some(x), .. } if x == "5"));
    f.changed = Some(Ok(folder("1", "team", Some("t"))));
    assert!(matches!(
        reparent(&p, &f),
        FolderAction::Done { local: LocalChange::Nothing, told } if told.lines == vec![s("✓ promoted ops to root")]
    ));

    let d = DeleteArgs { id_or_name: s("ops"), scope: None, team_id: None };
    let mut f = nothing();
    f.folder = Some(Ok(folder("1", "personal", None)));
    assert!(matches!(delete(&d, &f), FolderAction::Delete { id } if id == "1"));
    f.deleted = Some(Ok(()));
    match delete(&d, &f) {
        FolderAction::Done { local: LocalChange::Remove { id }, told } => {
            assert_eq!(id, "1");
            assert_eq!(told.report.get_str("status"), Some("deleted"));
        }
        other => panic!("{:?}", other),
    }
}

// Requests

fn answer(status: u16, body: &str) -> Option<Result<Answer, CliError>> {
    Some(Ok(Answer { status, body: Ok(body.as_bytes().to_vec()) }))
}

#[test]
fn a_request_is_asked_once_more_at_most() {
    let mut f = SendFacts { given: false, renewable: true, first: None, renewed: None, second: None };
    assert!(matches!(send_json(&f), SendStep::Ask));
    f.first = answer(200, "");
    assert!(matches!(send_json(&f), SendStep::Read(b) if b == b"null"));
    assert!(matches!(send_empty(&f), SendStep::Read(b) if b.is_empty()));
    f.first = answer(401, "{}");
    assert!(matches!(send_json(&f), SendStep::Renew));
    f.renewed = Some(false);
    assert!(matches!(send_json(&f), SendStep::Fail(CliError::AuthFailed(_))));
    f.renewed = Some(true);
    assert!(matches!(send_json(&f), SendStep::AskAgain));
    f.second = answer(200, "{\"a\":1}");
    assert!(matches!(send_json(&f), SendStep::Read(b) if b == b"{\"a\":1}"));
    assert!(matches!(send_empty(&f), SendStep::Read(b) if b.is_empty()));
    f.second = answer(401, "");
    assert!(matches!(send_json(&f), SendStep::Fail(_)));
    f.given = true;
    f.renewed = None;
    f.second = None;
    assert!(matches!(send_json(&f), SendStep::Fail(_)));
    f.first = Some(Err(net()));
    assert!(matches!(send_json(&f), SendStep::Fail(CliError::Network(_))));
}

#[test]
fn long_bodies_are_told_of_by_their_start() {
    let long = "é".repeat(300);
    let envelope = format!(
        "{{\"error\":{{\"code\":\"NOT_FOUND\",\"message\":\"x{}\"}}}}",
        long
    );
    let told = map_api_error_bytes(404, Some(&envelope.into_bytes()));
    assert!(matches!(told, CliError::NotFound(m) if m.starts_with("xé")));
    let odd = format!("x{}", long).into_bytes();
    match map_api_error_bytes(500, Some(&odd)) {
        CliError::Server { message, .. } => assert_eq!(
            message,
            format!("server returned 500 Internal Server Error: x{}…", "é".repeat(249))
        ),
        other => panic!("{:?}", other),
    }
    match map_api_error_bytes(500, Some(&long.into_bytes())) {
        CliError::Server { message, .. } => assert!(message.ends_with(&format!(" {}…", "é".repeat(250)))),
        other => panic!("{:?}", other),
    }
}

fn session() -> StoredCredential {
    StoredCredential {
        token: s("jwt"),
        token_id: None,
        prefix: None,
        refresh_token: Some(s("r")),
        expires_at: None,
        label: None,
        user_id: Some(s("u")),
        email: None,
    }
}

#[test]
fn a_session_is_renewed() {
    let kept = Some(session());
    match try_refresh(&kept, None, 100) {
        RefreshTokens::Ask(q) => {
            assert_eq!(q.path, "/auth/refresh");
            assert!(!q.authenticated);
            assert_eq!(q.body.unwrap().get_str("refresh_token"), Some("r"));
        }
        _ => panic!("a question is due"),
    }
    assert!(matches!(
        try_refresh(&kept, Some(Ok(RefreshAnswer::Refused)), 100),
        RefreshTokens::GiveUp
    ));
    let new = RefreshResp { access_token: s("a"), refresh_token: s("b"), expires_in: 60 };
    match try_refresh(&kept, Some(Ok(RefreshAnswer::Granted(Ok(new)))), 100) {
        RefreshTokens::Keep(c) => {
            assert_eq!(c.token, "a");
            assert_eq!(c.refresh_token.as_deref(), Some("b"));
            assert_eq!(c.expires_at, Some(160));
            assert_eq!(c.user_id.as_deref(), Some("u"));
            assert_eq!(seconds_left(&Some(c), 150).unwrap(), 10);
        }
        _ => panic!("a credential is due"),
    }
    let pat = Some(StoredCredential { token: s("knack_pat_x"), ..session() });
    assert!(matches!(try_refresh(&pat, None, 0), RefreshTokens::Fail(CliError::AuthRequired)));
    assert!(has_feedback_notice("deprecated_cli, feedback"));
    assert!(!has_feedback_notice("feedbacks"));
}

// Links

fn skill() -> Materialized {
    Materialized { slug: s("demo"), version: s("0.2.0"), files: vec![], skill_md: s("# demo") }
}

fn record() -> LinkedRecord {
    LinkedRecord {
        version: 1,
        skills: vec![
            LinkedSkill {
                slug: s("demo"),
                version: s("0.1.0"),
                scope: Scope::Home,
                agents: vec![s("cursor")],
            },
        ],
        updated_at: None,
    }
}

fn write_step(result: Result<(), String>) -> WriteStep {
    WriteStep {
        target: find(&targets(), "cursor").unwrap(),
        plan: WritePlan::Rule { dest: s("/w/demo.mdc"), body: s("x") },
        root_existed: true,
        result,
    }
}

#[test]
fn what_was_written_is_recorded() {
    let mut rec = record();
    let written = write_skill_to_targets(&vec![write_step(Ok(()))]);
    let done = run_link(&mut rec, &skill(), Scope::Project, false, &written, "Robot");
    assert!(done.recorded);
    assert_eq!(rec.skills.len(), 2);
    assert_eq!(rec.skills[1].version, "0.2.0");
    assert!(done.told.report.get_str("precedence_note").unwrap().starts_with("note: `demo`"));
    assert_eq!(done.told.lines.len(), 2);
    assert!(done.restart.is_none());

    let mut made = write_step(Ok(()));
    made.root_existed = false;
    made.plan = WritePlan::Folder { dest: s("/w/demo"), files: vec![] };
    let fresh = write_skill_to_targets(&vec![made]);
    let done = run_link(&mut record(), &skill(), Scope::Project, false, &fresh, "Robot");
    assert!(done.restart.unwrap().contains("restart the agent (e.g. Robot) so it watches"));

    let mut rec = record();
    let failed = write_skill_to_targets(&vec![write_step(Err(s("disk full")))]);
    let done = run_link(&mut rec, &skill(), Scope::Project, false, &failed, "Robot");
    assert!(!done.recorded);
    assert_eq!(rec.skills.len(), 1);
    assert_eq!(done.told.lines.len(), 1);
    assert!(!relink_to_latest(&mut rec, &skill(), Scope::Home, &failed));
    assert!(relink_to_latest(&mut rec, &skill(), Scope::Home, &written));
    assert_eq!(rec.skills[0].version, "0.2.0");
}

#[test]
fn unlinking_tells_where_a_skill_was() {
    let mut rec = record();
    let steps = vec![
        UnlinkStep { agent: "cursor", root: Some(s("/r")), removed: true },
        UnlinkStep { agent: "codex", root: None, removed: false },
    ];
    let t = run_unlink(&mut rec, "demo", Scope::Home, &steps);
    assert!(rec.skills.is_empty());
    assert_eq!(t.lines, vec![s("Unlinked cursor → /r")]);
    let t = run_unlink(&mut rec, "demo", Scope::Home, &vec![]);
    assert!(t.lines[0].starts_with("Nothing to unlink: `demo`"));
    let due = vec![(s("a"), s("1.0.0")), (s("b"), s("2.0.0"))];
    assert_eq!(updated(&due, &vec![false, true]), vec![s("b@2.0.0")]);
}

// Pulling

#[test]
fn a_pull_writes_every_file() {
    let args = PullArgs { slug_at_version: s("demo@0.1.0"), target: None, global: false };
    let mut f = GithubPullFacts { pulled: None, folder: None, written: vec![] };
    match github_pull(&args, "/w", &f) {
        GithubPullStep::PullOwn { slug, version } => {
            assert_eq!(slug, "demo");
            assert_eq!(version.as_deref(), Some("0.1.0"));
        }
        other => panic!("{:?}", other),
    }
    f.pulled = Some(Err(s("no such tag")));
    assert!(matches!(
        github_pull(&args, "/w", &f),
        GithubPullStep::Fail(CliError::NotFound(m)) if m == "github pull: no such tag"
    ));
    let spec = ExternalSpec { owner: s("o"), repo: s("r"), slug: s("demo"), version: None };
    let files = vec![
        SkillFile { path: s("SKILL.md"), bytes: b"# demo".to_vec() },
        SkillFile { path: s("meta.knack.yaml"), bytes: b"version: 0.1.0".to_vec() },
    ];
    let package = pull_external(&spec, "HEAD", files, Timestamp { secs: 0, nanos: 0 });
    f.pulled = Some(package);
    assert!(matches!(github_pull(&args, "/w", &f), GithubPullStep::MakeFolder(d) if d == "/w/demo"));
    f.folder = Some(Ok(()));
    assert!(matches!(
        github_pull(&args, "/w", &f),
        GithubPullStep::WriteFile { index: 0, dest } if dest == "/w/demo/SKILL.md"
    ));
    f.written.push(Ok(()));
    f.written.push(Err(FileFault::File { error: s("full") }));
    assert!(matches!(
        github_pull(&args, "/w", &f),
        GithubPullStep::Fail(CliError::Internal(m)) if m == "write /w/demo/meta.knack.yaml: full"
    ));
    f.written[1] = Ok(());
    match github_pull(&args, "/w", &f) {
        GithubPullStep::Done(t) => {
            assert_eq!(t.report.get_str("target"), Some("/w/demo"));
            assert_eq!(t.lines, vec![s("✓ demo v0.1.0 → /w/demo"), s("  (2 files)")]);
        }
        other => panic!("{:?}", other),
    }
}

// Signing in

fn poll_answer(status: PollStatus, token: Option<&str>) -> Result<DevicePollResponse, CliError> {
    Ok(DevicePollResponse {
        status,
        access_token: token.map(|t| s(t)),
        refresh_token: None,
        expires_in: None,
    })
}

#[test]
fn a_single_question_is_answered() {
    match login_poll(poll_answer(PollStatus::AuthorizationPending, None), None) {
        PollStep::Done(t) => {
            assert_eq!(t.report.get_str("status"), Some("authorization_pending"));
            assert!(matches!(t.report.get("approved"), Some(Json::Bool(false))));
        }
        other => panic!("{:?}", other),
    }
    let approved = || poll_answer(PollStatus::Approved, Some("a"));
    assert!(matches!(login_poll(approved(), None), PollStep::Mint(t) if t == "a"));
    let minted = Minted { email: s("e"), prefix: s("p") };
    match login_poll(approved(), Some(Ok(minted))) {
        PollStep::Done(t) => {
            assert_eq!(t.report.get_str("email"), Some("e"));
            assert_eq!(t.report.get_str("token_prefix"), Some("p"));
        }
        other => panic!("{:?}", other),
    }
    assert!(matches!(
        login_poll(poll_answer(PollStatus::Approved, Some("")), None),
        PollStep::Fail(CliError::AuthFailed(_))
    ));
    assert!(matches!(login_poll(Err(net()), None), PollStep::Fail(CliError::Network(_))));
}

#[test]
fn people_are_told_how_to_sign_in() {
    let start = DeviceAuthStart {
        device_code: s("d"),
        user_code: s("U-1"),
        verification_uri: s("https://x"),
        expires_in: 600,
        interval: 5,
    };
    assert_eq!(opening_lines(&start)[0], "Opening https://x ...");
    assert_eq!(
        login_start_lines(&start)[2],
        "Then run: knack auth login --poll d (repeat until approved)"
    );
    let me = Me {
        id: s("1"),
        email: s("a@b"),
        name: None,
        plan: s("free"),
        auth_method: s("pat"),
    };
    assert_eq!(
        login_lines(&me)[0],
        "✓ logged in as a@b (free). Token saved to ~/.knack/auth.json."
    );
    assert_eq!(refreshed(90_000).lines, vec![s("✓ refreshed, token valid for 1d 1h")]);
    let gh = GhAuthProbe::Authenticated { user: s("ann") };
    assert_eq!(github_login_lines(&gh).len(), 5);
    assert_eq!(github_login_lines(&GhAuthProbe::NotInstalled).len(), 6);
    let lines = github_status_lines("o", "r", "/p", false, None);
    assert_eq!(lines[2], "local clone: /p  (missing)");
    assert_eq!(lines[3], "gh user:     (not signed in via gh; run `gh auth login`)");
}

// What people are told

#[test]
fn interviews_are_told_of() {
    let mut session = session_with(s("x1"));
    let t = started(&session, "/d", ".agents/skills");
    assert_eq!(t.lines[0], "knack interview: session x1 started (phase: genesis)");
    assert_eq!(t.lines[2], "the agent should load .agents/skills/knack-interview/SKILL.md to begin");
    assert_eq!(t.report.get_str("skill_dir"), Some("/d"));
    assert!(advance(&mut session).is_ok());
    assert_eq!(advanced(&session).lines, vec![s("knack interview: advanced to artifacts for x1")]);
    assert_eq!(
        resume(&session, "/d").lines,
        vec![s("knack interview: resumed session x1 (phase: artifacts)")]
    );
    assert_eq!(
        saved(&session, Phase::Genesis).lines,
        vec![s("knack interview: saved phase genesis for x1")]
    );
    assert_eq!(status_lines(&session)[2], "data:    {}");
}

#[test]
fn marks_runs_and_skills_are_told_of() {
    let marks = bulk(&vec![s("a"), s("b")], &vec![Ok(()), Err(s("gone"))]);
    assert_eq!(
        bulk_lines("failed", &marks),
        vec![s("marked 1 run(s) failed"), s("  ! b: gone")]
    );
    let t = cloud_mark_single("a", "succeeded", None, 2);
    assert_eq!(t.report.get("marks_count").unwrap().as_u64(), Some(2));
    assert_eq!(t.lines, vec![s("✓ marked a succeeded")]);
    let lines = run_lines("demo", "id", "a\\b.jsonl");
    assert_eq!(lines[0], "✓ demo run-id: id");
    assert_eq!(lines[1], "  recorded to a/b.jsonl");
    assert_eq!(repo_published_lines("demo", "1.0.0", "u"), vec![s("✓ demo@v1.0.0"), s("  → u")]);
    assert_eq!(github_created("demo", "/w/demo").lines[2], "next: edit /w/demo/SKILL.md");
    assert_eq!(clean_line("d"), "✓ d validates cleanly");
    assert_eq!(
        fork_lines("ann", "demo", None, "mine"),
        vec![
            s("✓ forked @ann/demo → @me/mine  drafts/mine/"),
            s("  edit then `knack publish mine` when ready"),
        ]
    );
    assert_eq!(cleared_line("demo"), "✓ cleared your rating for demo");
    let x = Rated {
        stars: 4,
        review: None,
        average: Json::Float(s("4.5")),
        average_text: s("4.50"),
        count: 2,
    };
    assert_eq!(
        rated("demo", &x).lines,
        vec![s("✓ demo rated 4★ — community avg now 4.50 over 2 rating(s)")]
    );
}

#[test]
fn searches_and_conversations_are_told_of() {
    assert_eq!(found(None, "top", &vec![], None).lines, vec![s("(no matches)")]);
    let hit = FoundSkill {
        author: s("ann"),
        slug: s("demo"),
        id: s("1"),
        name: s("Demo"),
        description: s("d"),
        current_version_semver: None,
        average: Json::Null,
        stars: s("—"),
        ratings_count: 0,
        runs_count: 3,
        downloads_count: 4,
    };
    let t = found(Some("de"), "top", &vec![hit], None);
    assert!(t.lines[0].starts_with("  @ann/demo "));
    match t.report.get("items") {
        Some(Json::Array(a)) => assert_eq!(a[0].get_str("slug"), Some("@ann/demo")),
        other => panic!("{:?}", other),
    }
    let thread = Thread {
        id: s("t1"),
        subject: s("hi"),
        status: s("open"),
        run_id: None,
        skill_id: None,
        messages: vec![],
    };
    assert_eq!(open_lines(&thread)[1], "  subject: hi");
    assert_eq!(reply(&thread).lines, vec![s("✓ reply sent to thread t1")]);
}

#[test]
fn questions_and_warnings_are_put() {
    assert_eq!(backend_question().last().unwrap(), "pick one [1/2]: ");
    assert_eq!(repo_question().last().unwrap(), "repo name: ");
    assert_eq!(bootstrap_lines("o", "r", "/p")[1], "→ bootstrapping github.com/o/r");
    assert_eq!(bootstrapped_lines(false, "u", "/p")[0], "✓ using existing u");
    assert_eq!(bundle_warning("/c", &BundleRead::Certificates(2)), None);
    assert_eq!(
        bundle_warning("/c", &BundleRead::Certificates(0)).unwrap(),
        "knack: warning: no PEM certificates found in CA bundle /c"
    );
    assert_eq!(
        bundle_warning("/c", &BundleRead::Unread(s("gone"))).unwrap(),
        "knack: warning: ignoring CA bundle /c (read failed: gone)"
    );
}

// Statistics

#[test]
fn a_series_has_no_gaps_and_weeks_start_on_mondays() {
    // The fourth of January 2024 was a Thursday, and the first a Monday.
    let monday: i64 = 738_886;
    let week = TrendInterval::Week;
    assert_eq!(week.period_start(monday + 3), monday);
    assert_eq!(week.period_end(monday), monday + 6);
    let points = group_time_buckets(&vec![], week, &[], monday + 3, monday + 16);
    assert_eq!(points.len(), 3);
    assert_eq!(points[0].bucket_start, monday);
    for i in 1..points.len() {
        assert_eq!(points[i].bucket_start, points[i - 1].bucket_end + 1);
    }
    assert!(points[2].bucket_end >= monday + 16);
    assert_eq!(points[1].buckets.len(), 1);
    assert_eq!(points[1].buckets[0].total, 0);
}

#[test]
fn the_newest_run_comes_first_and_skills_are_kept_apart() {
    let at = |secs: i64| Timestamp { secs, nanos: 0 };
    let line = |id: &str, slug: &str, secs: i64| {
        event_line(&started_event(id, slug, "0.1.0", None, &vec![], at(secs))).unwrap()
    };
    let days = vec![vec![line("a", "x", 10), line("b", "y", 20), line("c", "x", 30)]];
    let runs = scan_snapshots(&days, Some("x"));
    let ids: Vec<&str> = runs.iter().map(|r| r.run_id.as_str()).collect();
    assert_eq!(ids, vec!["c", "a"]);
    assert_eq!(scan_snapshots(&days, None).len(), 3);
}

#[test]
fn a_repository_without_remotes_is_pushed_to_origin_main() {
    let none = RemoteFacts {
        env_name: None,
        env_branch: None,
        listing: Some("\n"),
        symbolic: None,
        url: None,
        gh: None,
    };
    let t = fresh_target(&none);
    assert_eq!((t.remote.as_str(), t.branch.as_str()), ("origin", "main"));
    let named = RemoteFacts { env_name: Some("fork"), env_branch: Some("dev"), ..none };
    let t = fresh_target(&named);
    assert_eq!((t.remote.as_str(), t.branch.as_str()), ("fork", "dev"));
}

#[test]
fn the_latest_mark_is_the_state_of_a_run() {
    let at = |secs: i64| Timestamp { secs, nanos: 0 };
    let start = started_event("r", "x", "0.1.0", None, &vec![], at(100));
    let mark = |found: Option<RunSnapshot>, status: &str, note: Option<&str>, secs: i64| {
        match mark_run(found, "/repo", "r", status, note, &vec![s(status)], at(secs)) {
            Ok(m) => m,
            Err(e) => panic!("{e}"),
        }
    };
    let day = |text: &str| text.lines().map(|l| l.to_string()).collect::<Vec<String>>();
    let mut first = day_entry(&start).unwrap();
    let found = find_run(&vec![day(&first)], &vec![], "r");
    let failed = mark(found, "failed", Some("why"), 200);
    first.push_str(&failed.entry.unwrap());
    assert_eq!(first.lines().count(), 2);
    let found = find_run(&vec![day(&first)], &vec![], "r");
    let done = mark(found, "succeeded", None, 90_000);
    let second = done.entry.unwrap();
    assert_eq!(second.lines().count(), 1);
    for days in [
        vec![day(&second), day(&first)],
        vec![day(&first), day(&second)],
    ] {
        let s = find_run(&days, &vec![], "r").unwrap();
        assert_eq!(s.status, "succeeded");
        assert_eq!(s.completed_at, Some(at(90_000)));
        assert_eq!(s.note.as_deref(), Some("why"));
        assert_eq!(s.started_at, Some(at(100)));
        assert_eq!(s.duration_ms, done.snapshot.duration_ms);
        let mut oldest_first = days;
        oldest_first.reverse();
        let all = scan_snapshots(&oldest_first, Some("x"));
        assert_eq!(all.len(), 1);
        assert_eq!(all[0].status, s.status);
        assert_eq!(all[0].completed_at, s.completed_at);
        assert_eq!(all[0].outputs, s.outputs);
    }
    let s = find_run(&vec![day(&second), day(&first)], &vec![], "r").unwrap();
    assert_eq!(s.outputs, vec!["failed".to_string()]);
    assert!(mark_run(None, "/repo", "r", "failed", None, &vec![], at(1)).is_err());
}

#[test]
fn setting_up_again_adds_what_is_missing() {
    let opts = BootstrapOpts {
        owner: s("o"),
        repo: s("r"),
        visibility: Visibility::Private,
        local_path: s("/c"),
        author_name: s("n"),
        author_email: s("e"),
    };
    assert!(is_clone_of(Some("git@github.com:o/r.git\n"), "o", "r"));
    assert!(!is_clone_of(Some("https://github.com/o/other"), "o", "r"));
    assert!(!is_clone_of(None, "o", "r"));
    let again = bootstrap_repo(&opts, true, true, true).unwrap();
    assert!(!again.created_repo);
    assert_eq!(again.local_path, "/c");
    assert_eq!(again.https_url, "https://github.com/o/r");
    assert!(bootstrap_repo(&opts, true, true, false).unwrap_err().starts_with("o/r already exists"));
    assert!(bootstrap_repo(&opts, false, true, false).unwrap().created_repo);
    let left = scaffold("o", "r", &vec![s("README.md")]);
    assert_eq!(left.len(), 4);
    assert!(left.iter().all(|f| f.path != "README.md"));
}

#[test]
fn a_linked_skill_with_a_long_head_is_recognised() {
    let fields: String = (0..40).map(|i| format!("field{i}: x\n")).collect();
    let md = format!("---\n{fields}---\n\n# Body\n");
    let linked = render_linked_skill("demo", "codex", &md);
    assert!(file_carries_sigil(&linked));
    assert_eq!(
        remove_linked_skill("/r", "demo", Some(&linked)).as_deref(),
        Some("/r/demo")
    );
    assert_eq!(remove_linked_skill("/r", "demo", None), None);
    assert!(!file_carries_sigil(&md));
}

#[test]
fn entries_stand_once_and_can_be_taken_out() {
    let text = "# mine\n";
    let one = upsert_skill_block(text, "demo", "- demo", "<!-- end -->").unwrap();
    let two = upsert_skill_block(&one, "demo", "- other", "<!-- end -->").unwrap();
    for t in [&one, &two] {
        assert_eq!(t.matches(&text_block_start("demo")).count(), 1);
        assert_eq!(t.matches(&text_block_end("demo")).count(), 1);
        assert!(matches!(remove_skill_block(t, "demo"), FileChange::Write(x) if x == text));
    }
    let only = upsert_skill_block("", "demo", "- demo", "<!-- end -->").unwrap();
    assert!(matches!(remove_skill_block(&only, "demo"), FileChange::Delete));
    assert!(matches!(remove_skill_block(text, "demo"), FileChange::Unchanged));
}

#[test]
fn targets_are_resolved_once() {
    let mut known = ResolvedRemotes::new();
    let facts = |branch: Option<&'static str>| RemoteFacts {
        env_name: None,
        env_branch: branch,
        listing: None,
        symbolic: None,
        url: None,
        gh: None,
    };
    assert_eq!(resolve_remote(&mut known, "/a", &facts(Some("dev"))).branch, "dev");
    assert_eq!(resolve_remote(&mut known, "/a", &facts(None)).branch, "dev");
    assert_eq!(resolve_remote(&mut known, "/b", &facts(None)).branch, "main");
}

#[test]
fn records_are_read_in_both_forms_and_faults_are_told() {
    let plain = "{\"version\":1,\"agents\":[{\"slug\":\"codex\",\"scope\":\"home\",\"path\":\"/p\"}]}";
    let places = "[1,[[\"codex\",\"home\",\"/p\"]]]";
    for text in [plain, places] {
        let rec = installed::load("/r", Some(text)).unwrap();
        assert_eq!(rec.agents.len(), 1);
        assert_eq!(rec.agents[0].path, "/p");
        assert!(rec.updated_at.is_none());
    }
    assert_eq!(installed::load("/r", Some("[1,[],null,4]")).unwrap_err(), "\"/r\": not a record");
    let links = linked::load("/l", Some("[1,[[\"x\",\"1.0.0\",\"home\"]]]")).unwrap();
    assert_eq!(links.skills[0].version, "1.0.0");
    assert!(linked::load("/l", Some("{")).unwrap_err().starts_with("\"/l\": "));
    let bad = DiffArgs { left: s("a"), right: s("b@1") };
    assert_eq!(diff_request(&bad).err().unwrap().code(), "USER_ERROR");
    assert_eq!(
        read_workspace_auto_push(Some("auto_push: 3\n")).unwrap_err(),
        "auto_push: expected a boolean"
    );
    assert_eq!(read_meta_version(Some(&b"version: !x \"1.2.3\"\n".to_vec())), "1.2.3");
}

#[test]
fn the_table_of_contents_has_a_line_for_each_section() {
    let text = toc();
    let lines: Vec<&str> = text.lines().collect();
    let names = slugs();
    assert_eq!(lines.len(), names.len() + 4);
    for (i, name) in names.iter().enumerate() {
        let front = format!("  {name} ");
        let at: Vec<usize> =
            (0..lines.len()).filter(|k| lines[*k].starts_with(&front)).collect();
        assert_eq!(at, vec![i + 2]);
    }
}
