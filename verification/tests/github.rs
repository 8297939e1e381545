use knack::github::aggregate::{
    build_bucket, build_overview, detect_regression, group_buckets, group_time_buckets,
    normalize_note, percentile, scan_snapshots, StatsBucket, TrendInterval,
};
use knack::github::external;
use knack::github::external::{
    contents_url, entry_step, list_failed, parse_spec, pull_external, read_entries, version_tag,
    walk_contents, ContentsEntry, EntryStep, Work,
};
use knack::github::git::{
    list_remotes, parse_github_owner_repo, resolve_default_branch, resolve_remote_name, RemoteTarget,
};
use knack::github::runs::{
    commit_and_push_event, commit_of, day_file, event_line, file_of_day, find_run, finalize_duration, mark_run,
    merge_event, parse_event_line, recent_days, start_run, started_event, CommitFacts, CommitStep, CommittedEvent,
    GitOutcome, RunSnapshot, DEFAULT_LOOKBACK_DAYS,
};
use knack::github::workspace::{read_workspace_auto_push, PushPolicy};
use knack::json::Json;
use knack::order::TextMap;
use knack::time::Timestamp;
use knack::types::SkillFile;

const NOON: i64 = 1_777_636_800;

fn at(secs: i64) -> Timestamp {
    Timestamp { secs, nanos: 0 }
}

fn snap_full(
    version: &str,
    agent: &str,
    status: &str,
    ms: Option<u64>,
    note: Option<&str>,
) -> RunSnapshot {
    RunSnapshot {
        run_id: format!("{}-{}-{}", version, agent, status),
        skill: Some("triage".to_string()),
        version: Some(version.to_string()),
        agent: Some(agent.to_string()),
        inputs: vec![],
        outputs: vec![],
        status: status.to_string(),
        note: note.map(|s| s.to_string()),
        started_at: Some(at(NOON)),
        completed_at: ms.map(|_| at(NOON)),
        duration_ms: ms,
    }
}

fn snap(version: &str, status: &str, ms: Option<u64>, note: Option<&str>) -> RunSnapshot {
    snap_full(version, "terminal-agent", status, ms, note)
}

fn version_key(v: &str) -> TextMap<Option<String>> {
    let mut m: TextMap<Option<String>> = TextMap::new();
    m.insert("version".to_string(), Some(v.to_string()));
    m
}

fn refs(rows: &Vec<RunSnapshot>) -> Vec<&RunSnapshot> {
    rows.iter().collect()
}

fn rate(b: &StatsBucket) -> f64 {
    let r = b.success_rate.unwrap();
    r.succeeded as f64 / r.marked as f64
}

fn at_version<'a>(groups: &'a Vec<StatsBucket>, v: &str) -> &'a StatsBucket {
    groups
        .iter()
        .find(|b| b.key.get("version").unwrap().as_deref() == Some(v))
        .unwrap()
}

#[test]
fn bucket_counts_and_rate() {
    let rows = vec![
        snap("0.1.0", "succeeded", Some(100), None),
        snap("0.1.0", "succeeded", Some(200), None),
        snap("0.1.0", "failed", Some(300), Some("timeout")),
        snap("0.1.0", "started", None, None),
    ];
    let b = build_bucket(version_key("0.1.0"), &refs(&rows));
    assert_eq!(b.total, 4);
    assert_eq!(b.succeeded, 2);
    assert_eq!(b.failed, 1);
    assert_eq!(b.unmarked, 1);
    assert!((rate(&b) - 2.0 / 3.0).abs() < 1e-9);
    assert_eq!(b.top_notes.len(), 1);
    assert_eq!(b.top_notes[0].note, "timeout");
    assert_eq!(b.top_notes[0].count, 1);
    assert_eq!(b.p50_ms, Some(200));
    assert!(b.last_run_at.is_some());
    assert_eq!(b.key.get("version").unwrap().as_deref(), Some("0.1.0"));
}

#[test]
fn legacy_aborted_status_rolls_into_failed() {
    let rows = vec![
        snap("0.1.0", "aborted", Some(500), Some("user killed it")),
        snap("0.1.0", "succeeded", Some(100), None),
    ];
    let b = build_bucket(version_key("0.1.0"), &refs(&rows));
    assert_eq!(b.failed, 1);
    assert_eq!(b.succeeded, 1);
    assert!((rate(&b) - 0.5).abs() < 1e-9);
    assert_eq!(b.top_notes[0].note, "user killed it");
}

#[test]
fn bucket_no_marked_runs_returns_no_rate() {
    let rows = vec![snap("0.2.0", "started", None, None)];
    let b = build_bucket(version_key("0.2.0"), &refs(&rows));
    assert!(b.success_rate.is_none());
}

#[test]
fn group_buckets_by_version_splits_cohorts() {
    let rows = vec![
        snap("0.1.0", "succeeded", Some(100), None),
        snap("0.1.0", "failed", Some(200), Some("a")),
        snap("0.2.0", "succeeded", Some(50), None),
    ];
    let groups = group_buckets(&rows, &["version"]);
    assert_eq!(groups.len(), 2);
    let v010 = at_version(&groups, "0.1.0");
    let v020 = at_version(&groups, "0.2.0");
    assert_eq!(v010.total, 2);
    assert_eq!(v020.total, 1);
    assert_eq!(v020.succeeded, 1);
}

#[test]
fn group_buckets_cross_tab_version_and_agent() {
    let rows = vec![
        snap_full("0.1.4", "terminal-agent", "succeeded", Some(100), None),
        snap_full("0.1.4", "terminal-agent", "succeeded", Some(120), None),
        snap_full("0.1.4", "cursor", "failed", Some(900), Some("schema")),
        snap_full("0.1.3", "terminal-agent", "succeeded", Some(200), None),
    ];
    let groups = group_buckets(&rows, &["version", "agent"]);
    assert_eq!(groups.len(), 3);
    let cohort = groups
        .iter()
        .find(|b| {
            b.key.get("version").unwrap().as_deref() == Some("0.1.4")
                && b.key.get("agent").unwrap().as_deref() == Some("terminal-agent")
        })
        .unwrap();
    assert_eq!(cohort.total, 2);
    assert_eq!(cohort.succeeded, 2);
    assert!(cohort.key.contains_key("version"));
    assert!(cohort.key.contains_key("agent"));
}

#[test]
fn group_buckets_no_dimensions_returns_one_overall_bucket() {
    let rows = vec![
        snap("0.1.0", "succeeded", Some(100), None),
        snap("0.2.0", "failed", Some(200), Some("x")),
    ];
    let groups = group_buckets(&rows, &[]);
    assert_eq!(groups.len(), 1);
    assert!(groups[0].key.len() == 0);
    assert_eq!(groups[0].total, 2);
    assert_eq!(groups[0].succeeded, 1);
    assert_eq!(groups[0].failed, 1);
}

#[test]
fn top_notes_orders_by_count_then_text() {
    let rows = vec![
        snap("0.1.0", "failed", Some(100), Some("timeout")),
        snap("0.1.0", "failed", Some(100), Some("timeout")),
        snap("0.1.0", "failed", Some(100), Some("oom")),
        snap("0.1.0", "failed", Some(100), Some("oom")),
        snap("0.1.0", "failed", Some(100), Some("schema")),
    ];
    let b = build_bucket(version_key("0.1.0"), &refs(&rows));
    assert_eq!(b.top_notes.len(), 3);
    assert_eq!(b.top_notes[0].note, "oom");
    assert_eq!(b.top_notes[1].note, "timeout");
    assert_eq!(b.top_notes[2].note, "schema");
}

#[test]
fn top_notes_collapses_cosmetic_variants() {
    let rows = vec![
        snap("0.1.0", "failed", Some(100), Some("Edge case BROKE")),
        snap("0.1.0", "failed", Some(100), Some("edge case broke ")),
        snap("0.1.0", "failed", Some(100), Some("edge case broke.")),
    ];
    let b = build_bucket(version_key("0.1.0"), &refs(&rows));
    assert_eq!(b.top_notes.len(), 1);
    assert_eq!(b.top_notes[0].count, 3);
    assert_eq!(b.top_notes[0].note, "Edge case BROKE");
}

#[test]
fn notes_are_compared_in_small_letters() {
    assert_eq!(normalize_note("  ÉCHEC   du Réseau.. "), "échec du réseau");
}

#[test]
fn percentiles_take_the_nearest_rank() {
    assert_eq!(percentile(&vec![], 50), None);
    assert_eq!(percentile(&vec![7], 95), Some(7));
    assert_eq!(percentile(&vec![100, 200, 300], 50), Some(200));
}

#[test]
fn counts_of_a_bucket_add_up() {
    let rows = vec![
        snap("1", "succeeded", None, None),
        snap("1", "failed", None, None),
        snap("1", "aborted", None, None),
        snap("1", "started", None, None),
        snap("2", "started", None, None),
    ];
    let groups = group_buckets(&rows, &["version"]);
    let mut total = 0;
    for b in &groups {
        assert_eq!(b.total, b.succeeded + b.failed + b.unmarked);
        total += b.total;
    }
    assert_eq!(total, 5);
}

#[test]
fn a_trend_has_every_slice() {
    let rows = vec![snap("0.1.0", "succeeded", Some(10), None)];
    let days = group_time_buckets(&rows, TrendInterval::Day, &[], 739_736, 739_738);
    assert_eq!(days.len(), 3);
    assert!(days[0].buckets.iter().all(|b| b.total == 0));
    assert_eq!(days[1].bucket_start, 739_737);
    assert_eq!(days[1].buckets[0].total, 1);
    let weeks = group_time_buckets(&rows, TrendInterval::Week, &[], 739_763, 739_767);
    assert_eq!(weeks.len(), 1);
    assert_eq!(weeks[0].bucket_start, 739_761);
    assert_eq!(weeks[0].bucket_end, 739_767);
}

#[test]
fn intervals_are_named() {
    assert_eq!(TrendInterval::from_str("weekly"), Ok(TrendInterval::Week));
    assert_eq!(TrendInterval::from_str("d"), Ok(TrendInterval::Day));
    assert_eq!(
        TrendInterval::from_str("year"),
        Err("unknown interval `year` (try: day, week)".to_string())
    );
}

#[test]
fn a_worse_version_is_a_regression() {
    let rows = vec![
        snap("0.1.0", "succeeded", Some(1), None),
        snap("0.2.0", "succeeded", Some(1), None),
        snap("0.2.0", "failed", Some(1), None),
    ];
    let groups = group_buckets(&rows, &["version"]);
    let r = detect_regression(&groups).unwrap();
    assert_eq!(r.current_version, "0.2.0");
    assert_eq!(r.prior_version, "0.1.0");
    let drop = r.delta_success_rate.numerator as f64 / r.delta_success_rate.denominator as f64;
    assert!((drop - 0.5).abs() < 1e-9);
    let o = build_overview("triage", &rows);
    assert_eq!(o.current_version.as_deref(), Some("0.2.0"));
    assert!(o.regression.is_some());
    assert!(!o.stale);
    assert!(build_overview("triage", &vec![]).stale);
}

#[test]
fn parse_default_repo() {
    let s = parse_spec("@jordan-gibbs/email-triage").unwrap();
    assert_eq!(s.owner, "jordan-gibbs");
    assert_eq!(s.repo, "knack-skills");
    assert_eq!(s.slug, "email-triage");
    assert!(s.version.is_none());
}

#[test]
fn parse_custom_repo() {
    let s = parse_spec("@jordan-gibbs/my-skills:email-triage").unwrap();
    assert_eq!(s.owner, "jordan-gibbs");
    assert_eq!(s.repo, "my-skills");
    assert_eq!(s.slug, "email-triage");
}

#[test]
fn parse_with_version() {
    let s = parse_spec("@jordan-gibbs/email-triage@v0.2.1").unwrap();
    assert_eq!(s.repo, "knack-skills");
    assert_eq!(s.slug, "email-triage");
    assert_eq!(s.version.as_deref(), Some("0.2.1"));
}

#[test]
fn rejects_no_at_prefix() {
    assert!(parse_spec("jordan-gibbs/email-triage").is_err());
}

#[test]
fn contents_are_asked_for_at_a_revision() {
    let s = parse_spec("@o/r:x").unwrap();
    assert_eq!(
        contents_url(&s, "skills/x", "main"),
        "https://api.github.com/repos/o/r/contents/skills/x?ref=main"
    );
    assert_eq!(version_tag("x", "1.0.0"), "x/v1.0.0");
}

fn entry(name: &str, kind: &str, url: Option<&str>) -> ContentsEntry {
    ContentsEntry {
        name: name.to_string(),
        path: format!("skills/x/{}", name),
        kind: kind.to_string(),
        download_url: url.map(|u| u.to_string()),
    }
}

#[test]
fn a_directory_is_walked_in_order() {
    let entries = vec![
        entry("scripts", "dir", None),
        entry("SKILL.md", "file", Some("u1")),
        entry("link", "symlink", Some("u2")),
        entry("gone", "file", None),
    ];
    let rest = vec![Work::Fetch { url: "u0".to_string(), rel: "z".to_string() }];
    let todo = walk_contents(&entries, "a", rest);
    assert_eq!(todo.len(), 3);
    assert!(matches!(&todo[0], Work::List { path, rel } if path == "skills/x/scripts" && rel == "a/scripts"));
    assert!(matches!(&todo[1], Work::Fetch { url, rel } if url == "u1" && rel == "a/SKILL.md"));
    assert!(matches!(&todo[2], Work::Fetch { url, .. } if url == "u0"));
    assert!(matches!(entry_step(&entries[2], ""), EntryStep::Skip));
    assert_eq!(
        list_failed("skills/x", 404, " gone\n"),
        "github contents skills/x returned 404 Not Found: gone"
    );
}

#[test]
fn the_default_branch_is_what_the_repository_says() {
    let body = "{\"id\": 1, \"default_branch\": \"trunk\"}";
    assert_eq!(external::resolve_default_branch("o", "r", 200, body), Ok("trunk".to_string()));
    let unread = Err("parse repo info".to_string());
    assert_eq!(external::resolve_default_branch("o", "r", 200, "{}"), unread);
    assert_eq!(external::resolve_default_branch("o", "r", 200, "trunk"), unread);
    assert_eq!(
        external::resolve_default_branch("o", "r", 404, " gone\n"),
        Err("github repos/o/r returned 404 Not Found: gone".to_string())
    );
}

#[test]
fn entries_are_read_from_a_list_or_one_object() {
    let file = Json::Object(vec![
        ("name".to_string(), Json::Text("a".to_string())),
        ("path".to_string(), Json::Text("p/a".to_string())),
        ("type".to_string(), Json::Text("file".to_string())),
        ("download_url".to_string(), Json::Null),
    ]);
    let one = read_entries(&file).unwrap();
    assert_eq!(one.len(), 1);
    assert_eq!(one[0].path, "p/a");
    assert!(read_entries(&Json::Bool(true)).is_none());
    assert_eq!(read_entries(&Json::Array(vec![file])).unwrap().len(), 1);
}

#[test]
fn an_external_skill_states_its_version() {
    let s = parse_spec("@o/x").unwrap();
    let files = vec![
        SkillFile { path: "SKILL.md".to_string(), bytes: b"hi".to_vec() },
        SkillFile { path: "meta.knack.yaml".to_string(), bytes: b"version: 1.2.3\n".to_vec() },
    ];
    let p = pull_external(&s, "main", files, at(0)).unwrap();
    assert_eq!(p.version, "1.2.3");
    assert_eq!(p.slug, "x");
    assert_eq!(
        pull_external(&s, "main", vec![], at(0)).unwrap_err(),
        "no files found at o/knack-skills skills/x (main)"
    );
}

#[test]
fn parse_https_url() {
    assert_eq!(
        parse_github_owner_repo("https://github.com/foo/bar.git"),
        Some("foo/bar".to_string())
    );
    assert_eq!(
        parse_github_owner_repo("https://github.com/foo/bar"),
        Some("foo/bar".to_string())
    );
}

#[test]
fn parse_ssh_url() {
    assert_eq!(
        parse_github_owner_repo("git@github.com:foo/bar.git"),
        Some("foo/bar".to_string())
    );
}

#[test]
fn parse_non_github_returns_none() {
    assert_eq!(parse_github_owner_repo("https://example.com/x"), None);
}

#[test]
fn fallback_is_origin_main() {
    let t = RemoteTarget::fallback();
    assert_eq!(t.remote, "origin");
    assert_eq!(t.branch, "main");
}

#[test]
fn origin_wins_among_remotes() {
    assert_eq!(list_remotes("upstream\n\norigin\n").len(), 2);
    assert_eq!(resolve_remote_name(None, Some("upstream\norigin\n")), "origin");
    assert_eq!(resolve_remote_name(None, Some("upstream\n")), "upstream");
    assert_eq!(resolve_remote_name(Some("mine"), Some("origin\n")), "mine");
    assert_eq!(resolve_remote_name(None, None), "origin");
    assert_eq!(resolve_default_branch(Some("dev"), "origin", None, None, None), "dev");
    assert_eq!(resolve_default_branch(None, "origin", None, None, None), "main");
}

#[test]
fn find_run_recovers_run_outside_lookback_window() {
    let line = "{\"event\":\"started\",\"run_id\":\"very-old-run\",\"skill\":\"x\",\
\"agent\":\"terminal-agent\",\"inputs\":[\"./a.txt\"],\"status\":\"started\",\
\"at\":\"2026-02-01T12:00:00Z\"}";
    let recent: Vec<Vec<String>> = vec![vec![]];
    let older = vec![vec![line.to_string()]];
    let found = find_run(&recent, &older, "very-old-run");
    assert!(found.is_some());
    let snap = found.unwrap();
    assert_eq!(snap.run_id, "very-old-run");
    assert_eq!(snap.skill.as_deref(), Some("x"));
    assert!(find_run(&recent, &recent, "very-old-run").is_none());
}

#[test]
fn an_event_reads_back_from_its_line() {
    let e = started_event("r1", "triage", "0.1.0", Some("cursor"), &vec!["a".to_string()], at(NOON));
    let line = event_line(&e).unwrap();
    let back = parse_event_line(&line).unwrap();
    assert_eq!(back.event, "started");
    assert_eq!(back.run_id, "r1");
    assert_eq!(back.version.as_deref(), Some("0.1.0"));
    assert_eq!(back.inputs, vec!["a".to_string()]);
    assert_eq!(back.at, at(NOON));
    assert!(parse_event_line("not json").is_none());
    assert!(parse_event_line("{\"event\":\"started\"}").is_none());
}

#[test]
fn a_mark_settles_a_run_in_either_order() {
    let start = || started_event("r1", "triage", "0.1.0", None, &vec![], at(NOON));
    let first = merge_event(None, start());
    let marked = mark_run(Some(first), "/r", "r1", "failed", Some("oom"), &vec![], at(NOON + 2)).unwrap();
    assert_eq!(marked.snapshot.status, "failed");
    assert_eq!(marked.snapshot.duration_ms, Some(2000));
    let line = event_line(&marked.event).unwrap();
    let event = || parse_event_line(&line).unwrap();
    let a = finalize_duration(merge_event(Some(merge_event(None, start())), event()));
    let b = finalize_duration(merge_event(Some(merge_event(None, event())), start()));
    assert_eq!(a.status, "failed");
    assert_eq!(b.status, "failed");
    assert_eq!(a.note.as_deref(), Some("oom"));
    assert_eq!(b.note.as_deref(), Some("oom"));
    let missing = mark_run(None, "/r", "nope", "failed", None, &vec![], at(0)).err().unwrap();
    assert_eq!(missing, "run nope not found in any runs/YYYY-MM/ daily file under /r");
}

#[test]
fn day_files_have_their_month_above_them() {
    assert_eq!(day_file(2026, 5, 1), "runs/2026-05/2026-05-01.jsonl");
    assert_eq!(file_of_day(739_737).as_deref(), Some("runs/2026-05/2026-05-01.jsonl"));
    assert_eq!(recent_days(739_737).len() as i64, DEFAULT_LOOKBACK_DAYS + 1);
}

#[test]
fn scanning_keeps_one_snapshot_per_run() {
    let e = started_event("r1", "triage", "0.1.0", None, &vec![], at(NOON));
    let other = started_event("r2", "else", "0.1.0", None, &vec![], at(NOON));
    let line = event_line(&e).unwrap();
    let days = vec![
        vec![line.clone(), "garbage".to_string(), event_line(&other).unwrap()],
        vec![line],
    ];
    assert_eq!(scan_snapshots(&days, Some("triage")).len(), 1);
    assert_eq!(scan_snapshots(&days, None).len(), 2);
}

#[test]
fn a_mark_is_committed_under_its_status() {
    let target = RemoteTarget { remote: "up".to_string(), branch: "trunk".to_string() };
    let at = parse_event_line(
        "{\"event\":\"marked\",\"run_id\":\"r\",\"status\":\"failed\",\"at\":\"2026-05-01T10:00:00Z\"}",
    )
    .unwrap();
    let c = commit_of(&at, "/repo", "/repo/runs/x.jsonl", Some("runs/x.jsonl"), &target);
    assert_eq!((c.event.as_str(), c.skill.as_str()), ("marked-failed", "unknown"));
    assert_eq!((c.remote.as_str(), c.branch.as_str()), ("up", "trunk"));
    let f = CommitFacts { added: Some(GitOutcome::Succeeded), committed: None, pushed: None };
    let step = commit_and_push_event(&c, true, None, &f);
    assert!(matches!(step, CommitStep::Commit(m) if m == "telemetry: marked-failed unknown r"));
}

fn committed() -> CommittedEvent {
    CommittedEvent {
        repo: "/r".to_string(),
        jsonl_path: "/r/runs/x.jsonl".to_string(),
        rel: Some("runs/x.jsonl".to_string()),
        skill: "triage".to_string(),
        event: "started".to_string(),
        run_id: "r1".to_string(),
        remote: "origin".to_string(),
        branch: "main".to_string(),
    }
}

fn failed(stdout: &str, stderr: &str) -> Option<GitOutcome> {
    Some(GitOutcome::Failed { stdout: stdout.to_string(), stderr: stderr.to_string() })
}

#[test]
fn an_event_is_added_committed_and_pushed() {
    let e = committed();
    let mut f = CommitFacts { added: None, committed: None, pushed: None };
    assert!(matches!(commit_and_push_event(&e, true, None, &f), CommitStep::Add(p) if p == "runs/x.jsonl"));
    f.added = Some(GitOutcome::Succeeded);
    assert!(
        matches!(commit_and_push_event(&e, true, None, &f), CommitStep::Commit(m) if m == "telemetry: started triage r1")
    );
    f.committed = Some(GitOutcome::Succeeded);
    assert!(matches!(commit_and_push_event(&e, true, None, &f), CommitStep::Push));
    assert!(matches!(commit_and_push_event(&e, false, None, &f), CommitStep::Finish(None)));
    assert!(matches!(commit_and_push_event(&e, true, Some("0"), &f), CommitStep::Finish(None)));
    f.pushed = failed("", " denied ");
    match commit_and_push_event(&e, true, None, &f) {
        CommitStep::Finish(Some(w)) => assert!(w.contains("`git push origin main` failed: denied\n")),
        other => panic!("{:?}", other),
    }
    f.committed = failed("nothing to commit, working tree clean", "");
    assert!(matches!(commit_and_push_event(&e, true, None, &f), CommitStep::Finish(None)));
    f.added = Some(GitOutcome::NotRun("no git".to_string()));
    assert!(matches!(commit_and_push_event(&e, true, None, &f), CommitStep::Finish(Some(_))));
    let lost = CommittedEvent { rel: None, ..committed() };
    assert!(matches!(commit_and_push_event(&lost, true, None, &f), CommitStep::Finish(Some(_))));
}

#[test]
fn missing_file_returns_none() {
    assert_eq!(read_workspace_auto_push(None).unwrap(), None);
}

#[test]
fn yaml_without_auto_push_returns_none() {
    assert_eq!(read_workspace_auto_push(Some("owner: someone\nrepo: x\n")).unwrap(), None);
}

#[test]
fn yaml_with_auto_push_false_returns_false() {
    assert_eq!(
        read_workspace_auto_push(Some("owner: someone\nrepo: x\nauto_push: false\n")).unwrap(),
        Some(false)
    );
}

#[test]
fn yaml_with_auto_push_true_returns_true() {
    assert_eq!(
        read_workspace_auto_push(Some("owner: someone\nrepo: x\nauto_push: true\n")).unwrap(),
        Some(true)
    );
}

const TRUE: &str = "owner: t\nrepo: x\nauto_push: true\n";
const FALSE: &str = "owner: t\nrepo: x\nauto_push: false\n";

#[test]
fn policy_default_is_push() {
    assert!(PushPolicy::resolve(false, None, None).unwrap().should_push());
}

#[test]
fn policy_cli_no_push_beats_workspace_true() {
    assert!(!PushPolicy::resolve(true, None, Some(TRUE)).unwrap().should_push());
}

#[test]
fn policy_workspace_false_disables_push() {
    assert!(!PushPolicy::resolve(false, None, Some(FALSE)).unwrap().should_push());
}

#[test]
fn policy_workspace_true_keeps_push() {
    assert!(PushPolicy::resolve(false, None, Some(TRUE)).unwrap().should_push());
}

#[test]
fn policy_env_kill_beats_workspace_true() {
    assert!(!PushPolicy::resolve(false, Some("0"), Some(TRUE)).unwrap().should_push());
}

#[test]
fn policy_env_accepts_false_and_no() {
    for v in ["false", "no", "0"] {
        assert!(!PushPolicy::resolve(false, Some(v), None).unwrap().should_push(), "env={v}");
    }
}

#[test]
fn policy_cli_beats_env() {
    assert!(!PushPolicy::resolve(true, Some("1"), Some(TRUE)).unwrap().should_push());
}

#[test]
fn policy_malformed_yaml_propagates_error() {
    assert!(PushPolicy::resolve(false, None, Some("owner: [unclosed-list")).is_err());
}

#[test]
fn runs_start_under_ids_of_their_own() {
    let a = start_run("triage", "0.1.0", None, &vec![], at(NOON));
    let b = start_run("triage", "0.1.0", None, &vec![], at(NOON));
    assert_eq!(a.run_id.len(), 36);
    assert_ne!(a.run_id, b.run_id);
    assert_eq!(a.event, "started");
    assert_eq!(a.skill.as_deref(), Some("triage"));
}
