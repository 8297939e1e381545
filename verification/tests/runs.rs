use knack::api::overview::{get_overview, OverviewQuery};
use knack::commands::mark::{bulk, bulk_json, bulk_result, mark_lines, mark_request, split_ids, MarkArgs};
use knack::commands::runs::diff::{bucket_from, diff_told, stats_unsupported};
use knack::commands::runs::flow::{list_step, ListAction, ListFacts, RunsPage};
use knack::commands::runs::list::{
    cloud_list, github_list, list_query, short_run_id, CloudRun, ListArgs,
};
use knack::commands::runs::overview::{
    build_summary, list_local_skills, overview_told, skill_overview, RatedRegression, RatedSkill,
};
use knack::commands::runs::show::{cloud_show, github_show};
use knack::commands::runs::stats::{
    bad_group_by, flat_bucket, github_buckets, key_label, parse_dimensions, stats_query, stats_told,
    FlatStats, RatedBucket,
};
use knack::commands::runs::trend::{
    cohort, dimensions, github_series, interval_of, trend_query, trend_told, RatedPoint,
};
use knack::commands::runs::{
    bad_date, date_or_offset, is_reachable, naive_to_utc, parse_window, show_day, window,
};
use knack::errors::CliError;
use knack::github::aggregate::{build_overview, TrendInterval};
use knack::github::runs::{event_line, started_event, RunSnapshot};
use knack::json::Json;
use knack::order::TextMap;
use knack::time::Timestamp;

/// 2026-05-01.
const DAY: i64 = 739_737;
const NOON: i64 = 1_777_636_800;

fn at(secs: i64) -> Timestamp {
    Timestamp { secs, nanos: 0 }
}

fn text(s: &str) -> Json {
    Json::Text(s.to_string())
}

fn run(id: &str, version: &str, status: &str, note: Option<&str>) -> RunSnapshot {
    RunSnapshot {
        run_id: id.to_string(),
        skill: Some("triage".to_string()),
        version: Some(version.to_string()),
        agent: Some("cursor".to_string()),
        inputs: vec!["a.txt".to_string()],
        outputs: vec![],
        status: status.to_string(),
        note: note.map(|n| n.to_string()),
        started_at: Some(at(NOON)),
        completed_at: None,
        duration_ms: Some(40),
    }
}

fn list_args() -> ListArgs {
    ListArgs {
        slug: "triage@0.1.0".to_string(),
        status: None,
        version: None,
        agent: None,
        note_contains: None,
        since: None,
        until: None,
        limit: 50,
        cursor: None,
    }
}

#[test]
fn a_window_is_the_last_thirty_days_by_default() {
    assert_eq!(parse_window(None, None, DAY), Ok((DAY - 30, DAY)));
    assert_eq!(parse_window(Some("7d"), Some("1d"), DAY), Ok((DAY - 7, DAY - 1)));
    assert_eq!(parse_window(Some("2026-04-30"), None, DAY), Ok((DAY - 1, DAY)));
    assert_eq!(
        parse_window(Some("yesterday"), None, DAY),
        Err("can't parse `yesterday` as date or offset".to_string())
    );
    assert_eq!(
        parse_window(Some("1d"), Some("2d"), DAY),
        Err("since (2026-04-30) is after until (2026-04-29)".to_string())
    );
    assert_eq!(window(5, 4).is_err(), true);
    assert_eq!(date_or_offset(Some(9), "x", DAY), Ok(9));
    assert_eq!(show_day(DAY), "2026-05-01");
    assert!(is_reachable(Some("7d"), DAY));
    assert!(!is_reachable(Some("999999999999d"), DAY));
    let e = bad_date("m".to_string());
    assert_eq!(e.code(), "BAD_DATE");
    assert_eq!(e.hint(), Some("use YYYY-MM-DD or `<N>d` (e.g. `7d`)"));
}

#[test]
fn a_day_starts_at_midnight_and_ends_a_second_before_the_next() {
    assert_eq!(naive_to_utc(DAY, false), at(NOON - 43_200));
    assert_eq!(naive_to_utc(DAY, true), at(NOON + 43_199));
}

#[test]
fn runs_are_listed_by_what_was_asked_for() {
    let runs = vec![
        run("r-000000000001", "0.1.0", "failed", Some("Out Of Memory")),
        run("r-000000000002", "0.2.0", "succeeded", None),
        run("r-000000000003", "0.1.0", "FAILED", Some("timeout")),
    ];
    let mut args = list_args();
    args.status = Some("Failed".to_string());
    let told = github_list(&args, &runs, DAY - 30, DAY);
    assert_eq!(told.report.get("count").unwrap().as_u64(), Some(2));
    assert_eq!(told.report.get_str("slug"), Some("triage"));
    assert_eq!(told.report.get_str("backend"), Some("github"));
    assert_eq!(told.report.get("window").unwrap().get_str("until"), Some("2026-05-01"));
    assert_eq!(told.lines[0], "run-id        status   version    agent      dur(ms)  note");
    assert_eq!(
        told.lines[1],
        "r-0000000000  failed   0.1.0      cursor     40       Out Of Memory"
    );
    args.note_contains = Some("of mem".to_string());
    assert_eq!(github_list(&args, &runs, DAY - 30, DAY).lines.len(), 2);
    args.version = Some("0.2.0".to_string());
    assert_eq!(
        github_list(&args, &runs, DAY - 30, DAY).lines,
        vec!["no runs in window 2026-04-01 → 2026-05-01".to_string()]
    );
    let mut one = list_args();
    one.limit = 1;
    assert_eq!(github_list(&one, &runs, DAY, DAY).lines.len(), 2);
}

#[test]
fn ids_are_cut_only_between_characters() {
    assert_eq!(short_run_id("short"), "short");
    assert_eq!(short_run_id("0123456789abcdef"), "0123456789ab");
    assert_eq!(short_run_id("0123456789aéx"), "0123456789aéx");
}

fn served(id: &str, secs: i64) -> CloudRun {
    CloudRun {
        id: id.to_string(),
        skill_version_id: "v1".to_string(),
        runtime: Some("cursor".to_string()),
        agent_id: None,
        status: "succeeded".to_string(),
        started_at: at(NOON),
        finished_at: Some(at(NOON + secs)),
        inputs_summary: Json::Null,
        outputs_summary: Json::Null,
        files_touched: Json::Array(vec![]),
        marks: vec![Json::Object(vec![
            ("status".to_string(), text("failed")),
            ("note".to_string(), text("It BROKE")),
        ])],
    }
}

#[test]
fn served_runs_are_filtered_and_told_of() {
    let runs = vec![served("abc", 2), served("def", -1)];
    let mut args = list_args();
    args.note_contains = Some("broke".to_string());
    let told = cloud_list(&args, Some("v1"), &runs, Some("next"), DAY, DAY);
    assert_eq!(told.report.get("count").unwrap().as_u64(), Some(2));
    assert_eq!(told.lines[0], "run-id        status     runtime      dur(ms)  marks");
    assert_eq!(told.lines[1], "abc           succeeded  cursor       2000     1");
    assert_eq!(told.lines[2], "def           succeeded  cursor       -1000    1");
    assert_eq!(told.lines[4], "more results: --cursor next");
    assert_eq!(cloud_list(&args, Some("v2"), &runs, None, DAY, DAY).lines.len(), 1);
    let q = list_query(&args, DAY, DAY);
    assert_eq!(q.since, Some(at(NOON - 43_200)));
    assert_eq!(q.limit, Some(50));
}

#[test]
fn runs_are_asked_for_once_skill_and_version_are_known() {
    let mut args = list_args();
    args.version = Some("9".to_string());
    let mut f = ListFacts { skill: None, version_id: None, page: None };
    assert!(matches!(list_step(&args, DAY, DAY, &f), ListAction::FindSkill { slug } if slug == "triage"));
    f.skill = Some(Ok(None));
    let gone = list_step(&args, DAY, DAY, &f);
    assert!(matches!(gone, ListAction::Fail(e) if e.message() == "not found: skill `triage` not found"));
    f.skill = Some(Ok(Some("s1".to_string())));
    assert!(matches!(
        list_step(&args, DAY, DAY, &f),
        ListAction::GetVersion { skill_id, version } if skill_id == "s1" && version == "9"
    ));
    f.version_id = Some(Err(CliError::NotFound("404".to_string())));
    assert!(matches!(
        list_step(&args, DAY, DAY, &f),
        ListAction::Fail(e) if e.message() == "not found: skill `triage` has no version `9`"
    ));
    f.version_id = Some(Err(CliError::Internal("broken".to_string())));
    assert!(matches!(
        list_step(&args, DAY, DAY, &f),
        ListAction::Fail(CliError::Internal(m)) if m == "broken"
    ));
    f.version_id = Some(Ok("v9".to_string()));
    assert!(matches!(
        list_step(&args, DAY, DAY, &f),
        ListAction::AskRuns { skill_id, query } if skill_id == "s1" && query.limit == Some(50)
    ));
    f.page = Some(Ok(RunsPage { items: Vec::new(), next_cursor: None }));
    assert!(matches!(list_step(&args, DAY, DAY, &f), ListAction::Done(t) if t.lines.len() == 1));
}

#[test]
fn one_run_is_shown() {
    let e = started_event("r1", "triage", "0.1.0", None, &vec!["a".to_string()], at(NOON));
    let days = vec![vec![event_line(&e).unwrap()]];
    let told = github_show("r1", &days, &vec![]).unwrap();
    assert_eq!(told.report.get_str("status"), Some("started"));
    assert_eq!(told.lines[0], "run-id:      r1");
    assert_eq!(told.lines[1], "skill:       triage@0.1.0");
    assert_eq!(told.lines[2], "agent:       -");
    assert_eq!(told.lines[4], "started:     2026-05-01T12:00:00+00:00");
    assert_eq!(told.lines[5], "inputs:      a");
    let missing = github_show("r2", &days, &vec![]).err().unwrap();
    assert_eq!(missing.message(), "not found: run r2 not found in last 30 days");
    let cloud = cloud_show(&served("abc", -1));
    assert_eq!(cloud.report.get("duration_ms").unwrap().as_u64(), Some(0));
    assert_eq!(cloud.lines.last().unwrap(), "  · failed     It BROKE");
}

#[test]
fn dimensions_are_known_and_named_once() {
    assert_eq!(
        parse_dimensions(" version,agent, version"),
        Ok(vec!["version".to_string(), "agent".to_string()])
    );
    assert_eq!(
        parse_dimensions("version,color"),
        Err("unknown dimension `color` (try: version, agent)".to_string())
    );
    assert_eq!(parse_dimensions(" , "), Err("at least one dimension required".to_string()));
    assert_eq!(bad_group_by("m".to_string()).hint(), Some("dimensions: version, agent"));
    assert_eq!(dimensions(None).unwrap().len(), 0);
    assert_eq!(dimensions(Some("x")).err().unwrap().code(), "BAD_GROUP_BY");
}

fn rated(b: knack::github::aggregate::StatsBucket) -> RatedBucket {
    RatedBucket { bucket: b, rate: Json::Float("0.5".to_string()), rate_text: "  50.0%".to_string() }
}

#[test]
fn cohorts_are_told_of() {
    let dims = vec!["version".to_string(), "agent".to_string()];
    let runs = vec![
        run("a", "0.1.0", "failed", Some("oom")),
        run("b", "0.1.0", "succeeded", None),
    ];
    let rows: Vec<RatedBucket> = github_buckets(&dims, &runs).into_iter().map(rated).collect();
    assert_eq!(rows.len(), 1);
    assert_eq!(key_label(&dims, &rows[0].bucket.key), "0.1.0/cursor");
    let told = stats_told("github", "triage@1", &dims, &rows, DAY - 1, DAY);
    assert_eq!(
        told.lines[0],
        "stats for `triage`  by version/agent  (2026-04-30 → 2026-05-01)"
    );
    assert_eq!(
        told.lines[3],
        "0.1.0/cursor                   2       1       1     50.0%        40        40"
    );
    assert_eq!(told.lines[5], "top failure notes · 0.1.0/cursor");
    assert_eq!(told.lines[6], "    1× oom");
    match told.report.get("buckets") {
        Some(Json::Array(b)) => {
            assert_eq!(b[0].get("runs_total").unwrap().as_u64(), Some(2));
            assert_eq!(b[0].get("key").unwrap().get_str("agent"), Some("cursor"));
        }
        _ => panic!("no list"),
    }
    let none = stats_told("cloud", "triage", &dims, &vec![], DAY, DAY);
    assert_eq!(none.lines, vec!["no runs for `triage` in window 2026-05-01 → 2026-05-01".to_string()]);
    let flat = FlatStats {
        runs_total: 3,
        runs_succeeded: 1,
        runs_failed: 1,
        runs_unmarked: 1,
        last_run_at: None,
    };
    let b = flat_bucket(&dims, &flat);
    assert_eq!(b.total, 3);
    assert_eq!(key_label(&dims, &b.key), "-/-");
    assert_eq!(stats_query(&dims, DAY, DAY).group_by.as_deref(), Some("version,agent"));
}

#[test]
fn every_slice_of_a_trend_is_told_of() {
    assert_eq!(interval_of("w").unwrap(), TrendInterval::Week);
    assert_eq!(interval_of("year").err().unwrap().code(), "BAD_INTERVAL");
    let runs = vec![run("a", "0.1.0", "succeeded", None)];
    let points: Vec<RatedPoint> = github_series(&vec![], TrendInterval::Day, &runs, DAY, DAY + 1)
        .into_iter()
        .map(|p| RatedPoint {
            bucket_start: p.bucket_start,
            bucket_end: p.bucket_end,
            buckets: p.buckets.into_iter().filter(|b| b.total > 0).map(rated).collect(),
        })
        .collect();
    let told = trend_told("github", "triage", "day", &vec![], &points, DAY, DAY + 1);
    assert_eq!(told.lines[0], "trend `triage`  interval=day");
    assert_eq!(told.lines[2], "date         cohort                   total    ok  fail     rate");
    assert_eq!(told.lines[3], "2026-05-01 (all)                        1     1     0    50.0%");
    assert_eq!(told.lines[4], "2026-05-02 (no runs)                    0     0     0        -");
    let empty: TextMap<Option<String>> = TextMap::new();
    assert_eq!(cohort(&vec![], &empty), "(all)");
    assert!(trend_query("day", &vec![], DAY, DAY).group_by.is_none());
}

#[test]
fn versions_are_compared_only_where_both_ran() {
    let dims = vec!["version".to_string()];
    let runs = vec![
        run("a", "0.1.0", "failed", Some("oom")),
        run("b", "0.2.0", "succeeded", None),
        run("c", "0.2.0", "succeeded", None),
    ];
    let rows: Vec<RatedBucket> = github_buckets(&dims, &runs).into_iter().map(rated).collect();
    let a = bucket_from("0.1.0", &rows);
    let b = bucket_from("0.2.0", &rows);
    let told = diff_told("triage", &a, &b, Json::Float("1.0".to_string()), "+100.0 pp", DAY, DAY);
    let delta = told.report.get("delta").unwrap();
    assert_eq!(delta.get("runs_total").unwrap().as_i64(), Some(1));
    assert!(matches!(delta.get("p50_ms"), Some(Json::Float(s)) if s == "0.0"));
    assert_eq!(told.lines[0], "diff `triage`  0.1.0 → 0.2.0  (2026-05-01 → 2026-05-01)");
    assert_eq!(told.lines[4], "total                     1            2           +1");
    let gone = bucket_from("9.9.9", &rows);
    assert!(!gone.present);
    let none = diff_told("triage", &a, &gone, Json::Null, "-", DAY, DAY);
    assert!(matches!(none.report.get("delta"), Some(Json::Null)));
    assert_eq!(none.lines.last().unwrap(), "note: no runs for `9.9.9` in this window");
    assert_eq!(stats_unsupported().code(), "STATS_UNSUPPORTED");
}

#[test]
fn skills_are_summed_up() {
    let names = vec!["b".to_string(), ".git".to_string(), "a".to_string()];
    assert_eq!(list_local_skills(&names), vec!["a".to_string(), "b".to_string()]);
    assert!(skill_overview("a", &vec![], 1).is_none());
    assert!(skill_overview("a", &vec![], 0).is_some());
    let skills = vec![
        RatedSkill {
            overview: build_overview("a", &vec![]),
            rate: Json::Null,
            rate_text: "-".to_string(),
            regression: None,
            served: false,
        },
        RatedSkill {
            overview: build_overview("b", &vec![run("x", "2", "failed", None)]),
            rate: Json::Nat(0),
            rate_text: "   0.0%".to_string(),
            regression: Some(RatedRegression {
                current_version: "2".to_string(),
                prior_version: "1".to_string(),
                delta: Json::Null,
                current_rate: Json::Null,
                prior_rate: Json::Null,
            }),
            served: true,
        },
    ];
    let summary = build_summary(&skills);
    assert_eq!(summary.get("skills_stale").unwrap().as_u64(), Some(1));
    let told = overview_told(true, &skills, DAY, DAY);
    assert_eq!(
        told.lines[3],
        "a                                 -       0         -        - stale"
    );
    assert!(told.lines[4].ends_with(" REGRESSION"));
    assert_eq!(told.lines.last().unwrap(), "regressions: b");
    match told.report.get("skills") {
        Some(Json::Array(s)) => {
            assert_eq!(s[0].get("runs_failed").unwrap().as_u64(), Some(0));
            assert_eq!(s[1].get("failed").unwrap().as_u64(), Some(1));
        }
        _ => panic!("no list"),
    }
    assert_eq!(overview_told(false, &vec![], DAY, DAY).lines, vec!["no skills".to_string()]);
    let q = OverviewQuery { since: Some(at(NOON)), ..OverviewQuery::default() };
    assert_eq!(get_overview(&q).query[1].1, "2026-05-01T12:00:00+00:00");
}

fn mark_args(ids: &str, outcome: Option<&str>) -> MarkArgs {
    MarkArgs {
        run_id: ids.to_string(),
        outcome: outcome.map(|s| s.to_string()),
        status_flag: None,
        note: None,
        reason: Some("why".to_string()),
        output: vec![],
        no_push: false,
    }
}

#[test]
fn several_runs_are_marked_and_none_is_lost() {
    assert_eq!(split_ids(" a, ,b"), vec!["a".to_string(), "b".to_string()]);
    let q = mark_request(&mark_args("a,b", Some("failed"))).unwrap();
    assert_eq!(q.run_ids.len(), 2);
    assert_eq!(q.note.as_deref(), Some("why"));
    assert_eq!(mark_request(&mark_args("a", None)).err().unwrap().code(), "MARK_MISSING_STATUS");
    assert_eq!(
        mark_request(&mark_args(" , ", Some("failed"))).err().unwrap().code(),
        "MARK_MISSING_RUN_ID"
    );
    let marks = bulk(&q.run_ids, &vec![Ok(()), Err("gone".to_string())]);
    assert_eq!(marks.marked, vec!["a".to_string()]);
    assert_eq!(marks.failed[0].error, "gone");
    assert_eq!(bulk_result(&marks, 2).err().unwrap().message(), "1/2 marks failed");
    let j = bulk_json("failed", None, &marks, 2, true);
    assert!(matches!(j.get("ok"), Some(Json::Bool(false))));
    assert_eq!(mark_lines(&run("r1", "1", "failed", Some("n"))).len(), 3);
}
