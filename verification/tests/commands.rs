use knack::commands::auth::{base64url_decode, human_duration, jwt_exp_seconds_from_now};
use knack::commands::create::{validate_scope, validate_slug, write_scaffold};
use knack::commands::debug::host_of;
use knack::commands::diff::{
    run as diff_run, split, unified_diff, DiffAction, DiffFacts, DiffRequest, VersionTexts,
};
use knack::commands::info_chunks::{chunk, chunks, split_sections, toc};
use knack::commands::init::{
    check_target, choose_backend, parse_owner_repo, BackendChoice, InitArgs, VisibilityFlag,
};
use knack::commands::install::installed::{self, InstalledRecord, Scope, SCHEMA_VERSION};
use knack::commands::install::linked::{self, LinkedRecord};
use knack::commands::install::shim::{
    differs, file_carries_sigil, remove_all_shims, remove_linked_skill, remove_native_rule,
    remove_native_skill, remove_skill_block, render_linked_skill, render_native_rule,
    render_native_skill, render_text_block, text_block_start, upsert_skill_block,
    write_linked_skill, write_native_rule, write_native_skill, FileChange, RootContents, RootEntry,
    SHIM_SIGIL,
};
use knack::commands::install::targets::ShimStyle;
use knack::commands::publish::{bump, bump_patch, update_meta_version, BumpKind};
use knack::commands::pull::write_if_changed;
use knack::commands::uninstall::{guess_binary_path, platform_script_oneliner};
use knack::commands::upgrade::{
    decide_should_run, platform_install_oneliner, Platform, UpgradeArgs,
};
use knack::errors::CliError;
use knack::frontmatter::{
    frontmatter_block, parse_skill_md_frontmatter, split_frontmatter, SkillFrontmatter,
};
use knack::output::{err_envelope, OutputMode};
use knack::time::Timestamp;

const NOW: Timestamp = Timestamp { secs: 1_777_636_800, nanos: 0 };

#[test]
fn human_duration_days_hours() {
    assert_eq!(human_duration(365 * 86_400 + 3 * 3600), "365d 3h");
}

#[test]
fn human_duration_hours_mins() {
    assert_eq!(human_duration(2 * 3600 + 14 * 60), "2h 14m");
}

#[test]
fn human_duration_zero() {
    assert_eq!(human_duration(0), "0s");
    assert_eq!(human_duration(-5), "0s");
}

#[test]
fn human_duration_under_a_minute() {
    assert_eq!(human_duration(45), "45s");
    assert_eq!(human_duration(3 * 60 + 7), "3m 7s");
}

#[test]
fn base64url_decode_basic() {
    assert_eq!(base64url_decode("eyJleHAiOiA5OX0"), Some(b"{\"exp\": 99}".to_vec()));
}

#[test]
fn base64url_decode_refuses_other_characters() {
    assert_eq!(base64url_decode("a+b"), None);
    assert_eq!(base64url_decode(""), Some(vec![]));
}

fn base64url(bytes: &[u8]) -> String {
    let mut out = String::new();
    let alphabet = b"ABCDEFGHIJKLMNOPQRSTUVWXYZabcdefghijklmnopqrstuvwxyz0123456789-_";
    let mut buf = 0u32;
    let mut bits = 0u32;
    for &b in bytes {
        buf = (buf << 8) | b as u32;
        bits += 8;
        while bits >= 6 {
            bits -= 6;
            out.push(alphabet[((buf >> bits) & 0x3f) as usize] as char);
        }
    }
    if bits > 0 {
        out.push(alphabet[((buf << (6 - bits)) & 0x3f) as usize] as char);
    }
    out
}

#[test]
fn jwt_exp_decode_with_far_future_exp() {
    let future = NOW.secs + 365 * 86_400;
    let payload = format!("{{\"exp\":{}}}", future);
    let token = format!("header.{}.sig", base64url(payload.as_bytes()));
    let secs = jwt_exp_seconds_from_now(&token, NOW.secs).unwrap();
    assert!((secs - 365 * 86_400).abs() < 5, "got {secs}");
    assert_eq!(jwt_exp_seconds_from_now("no token", NOW.secs), None);
}

#[test]
fn slug_accepts_canonical() {
    validate_slug("intake-cleanup").unwrap();
    validate_slug("a").unwrap();
    validate_slug("9-lives").unwrap();
    validate_slug("month-end-close-2026").unwrap();
}

#[test]
fn slug_rejects_uppercase() {
    assert!(validate_slug("Intake-Cleanup").is_err());
}

#[test]
fn slug_rejects_leading_hyphen() {
    assert!(validate_slug("-foo").is_err());
}

#[test]
fn slug_rejects_underscore() {
    assert!(validate_slug("intake_cleanup").is_err());
}

#[test]
fn slug_rejects_empty() {
    assert!(validate_slug("").is_err());
}

#[test]
fn slug_has_at_most_a_hundred_characters() {
    let long = "a".repeat(100);
    validate_slug(&long).unwrap();
    assert!(validate_slug(&format!("{}a", long)).is_err());
}

#[test]
fn scope_personal_no_team() {
    validate_scope("personal", None).unwrap();
    assert!(validate_scope("personal", Some("abc")).is_err());
}

#[test]
fn scope_team_requires_id() {
    assert!(validate_scope("team", None).is_err());
    validate_scope("team", Some("uuid")).unwrap();
}

#[test]
fn scope_public_no_team() {
    validate_scope("public", None).unwrap();
    assert!(validate_scope("public", Some("abc")).is_err());
}

#[test]
fn scope_rejects_unknown() {
    assert!(validate_scope("private", None).is_err());
}

#[test]
fn scaffold_writes_three_required_files() {
    let files = write_scaffold(
        "/skill",
        false,
        "skill-id-abc",
        "humanizetext",
        "Humanize Text",
        "Rewrite AI prose",
        "user@example.com",
    )
    .unwrap();
    let at = |p: &str| files.iter().find(|f| f.path == p);
    assert!(at("SKILL.md").is_some());
    assert!(at("meta.knack.yaml").is_some());
    assert!(at("intuition.md").is_none());
    assert!(at("examples/README.md").is_some());
    let meta = &at("meta.knack.yaml").unwrap().content;
    assert!(meta.contains("id: skill-id-abc"));
    assert!(meta.contains("name: \"Humanize Text\""));
    assert!(meta.contains("slug: humanizetext"));
    assert!(meta.contains("author: user@example.com"));
    let skill_md = &at("SKILL.md").unwrap().content;
    assert!(skill_md.starts_with("---\n"));
    assert!(skill_md.contains("name: Humanize Text"));
    assert!(skill_md.contains("description: Rewrite AI prose"));
}

#[test]
fn scaffold_rejects_non_empty_target() {
    match write_scaffold("/skill", true, "id", "slug", "Name", "desc", "u@example.com") {
        Err(CliError::User { code, .. }) => assert_eq!(code, "CREATE_SCAFFOLD_DIR_NOT_EMPTY"),
        _ => panic!("expected a user error"),
    }
}

#[test]
fn host_of_strips_scheme_and_path() {
    assert_eq!(host_of("https://api.getknack.ai"), "api.getknack.ai");
    assert_eq!(host_of("https://api.getknack.ai/"), "api.getknack.ai");
    assert_eq!(host_of("http://localhost:8000/v1"), "localhost:8000");
    assert_eq!(host_of("api.getknack.ai"), "api.getknack.ai");
}

#[test]
fn split_parses_slug_at_version() {
    assert_eq!(split("foo@1.0.0").unwrap(), ("foo", "1.0.0"));
}

#[test]
fn split_rejects_missing_at() {
    let err = split("foo").unwrap_err();
    assert_eq!(err.code(), "USER_ERROR");
}

#[test]
fn unified_diff_marks_changes() {
    let d = unified_diff("a\nb\nc\n", "a\nB\nc\n");
    assert!(d.contains("-b"));
    assert!(d.contains("+B"));
    assert_eq!(d, " a\n-b\n+B\n c\n");
}

fn texts(version: &str, skill_md: &str) -> VersionTexts {
    VersionTexts {
        version: version.to_string(),
        skill_md: skill_md.to_string(),
        intuition_md: String::new(),
        meta_yaml: "id: x\n".to_string(),
    }
}

#[test]
fn two_versions_are_asked_for_and_compared() {
    let q = DiffRequest {
        slug: "foo".to_string(),
        left: "1.0.0".to_string(),
        right: "1.1.0".to_string(),
    };
    let mut f = DiffFacts { skill: None, left: None, right: None };
    assert!(matches!(diff_run(&q, &f), DiffAction::FindSkill { slug } if slug == "foo"));
    f.skill = Some(Ok(None));
    let gone = diff_run(&q, &f);
    assert!(matches!(gone, DiffAction::Fail(e) if e.message() == "not found: skill `foo` not found"));
    f.skill = Some(Ok(Some("id".to_string())));
    assert!(matches!(diff_run(&q, &f), DiffAction::GetVersion { version, .. } if version == "1.0.0"));
    f.left = Some(Ok(texts("1.0.0", "a\nb\n")));
    assert!(matches!(diff_run(&q, &f), DiffAction::GetVersion { version, .. } if version == "1.1.0"));
    f.right = Some(Ok(texts("1.1.0", "a\nc")));
    match diff_run(&q, &f) {
        DiffAction::Done { report, text } => {
            assert_eq!(text, "--- SKILL.md @ 1.0.0\n+++ SKILL.md @ 1.1.0\n a\n-b\n+c\n");
            assert_eq!(report.get_str("right"), Some("1.1.0"));
        }
        other => panic!("{:?}", other),
    }
    f.right = Some(Ok(texts("1.1.0", "a\nb\n")));
    assert!(matches!(diff_run(&q, &f), DiffAction::Done { text, .. } if text == "(identical)\n"));
}

#[test]
fn unified_diff_empty_when_identical() {
    let d = unified_diff("a\nb\n", "a\nb\n");
    assert!(!d.contains("-"));
    assert!(!d.contains("+"));
}

/// A playbook with every section, in the shape of the bundled one.
fn playbook() -> String {
    let mut s = String::from("This is documentation for the Knack CLI\n\n");
    for c in chunks() {
        if c.marker.is_empty() {
            continue;
        }
        if c.marker.starts_with("===") {
            s.push_str(c.marker);
        } else {
            s.push_str(&format!("=== {} ===", c.marker));
        }
        s.push('\n');
        s.push_str(&format!("About {}.\n", c.slug));
        if c.slug == "running" {
            s.push_str("  === ORIENTATION: WHERE DO I START ===\n  Here.\n");
        }
    }
    s
}

#[test]
fn every_slug_resolves_to_a_nonempty_section() {
    let text = playbook();
    for c in chunks() {
        let got = chunk(&text, c.slug).unwrap_or_else(|| panic!("slug `{}` did not resolve", c.slug));
        assert!(!got.trim().is_empty(), "slug `{}` resolved to an empty section", c.slug);
    }
}

#[test]
fn overview_is_the_intro_only() {
    let ov = chunk(&playbook(), "overview").unwrap();
    assert!(ov.contains("This is documentation for the Knack CLI"));
    assert!(!ov.contains("=== ABOUT PERSISTENCE"));
}

#[test]
fn running_keeps_nested_markers_and_does_not_bleed_into_sharing() {
    let running = chunk(&playbook(), "running").unwrap();
    assert!(running.contains("RUNNING THE SKILL"));
    assert!(running.contains("ORIENTATION: WHERE DO I START"));
    assert!(!running.contains("SHARING + DISCOVERY"));
}

#[test]
fn distinct_sections_do_not_collide() {
    let interview = chunk(&playbook(), "interview").unwrap();
    let authoring = chunk(&playbook(), "authoring").unwrap();
    assert!(interview.contains("CONDUCTING THE INTERVIEW"));
    assert!(authoring.contains("AUTHORING"));
    assert_ne!(interview, authoring);
}

#[test]
fn unknown_slug_is_none() {
    assert!(chunk(&playbook(), "bogus").is_none());
}

#[test]
fn toc_lists_every_slug() {
    let t = toc();
    for c in chunks() {
        assert!(t.contains(c.slug), "TOC missing slug {}", c.slug);
    }
}

#[test]
fn sections_make_the_text() {
    let text = playbook();
    let all: String = split_sections(&text).iter().map(|s| s.1.clone()).collect();
    assert_eq!(all, text);
}

fn init_args() -> InitArgs {
    InitArgs {
        at: Some("/w".to_string()),
        self_host: false,
        cloud: true,
        github_repo: None,
        visibility: VisibilityFlag::Private,
        local_path: None,
        yes: false,
        skip_bootstrap: true,
    }
}

#[test]
fn init_makes_what_is_missing_and_asks_nothing_of_the_cloud() {
    assert!(check_target("/w", false, false, Ok(())).is_ok());
    assert!(check_target("/w", true, true, Ok(())).is_ok());
    assert_eq!(
        check_target("/w", true, false, Ok(())).unwrap_err().code(),
        "INIT_INVALID_TARGET"
    );
    let quiet = OutputMode { json: false, quiet: true, no_color: true };
    assert!(matches!(
        choose_backend(&init_args(), false, quiet, false),
        Ok(BackendChoice::Cloud)
    ));
    let plain = InitArgs { cloud: false, ..init_args() };
    assert!(matches!(choose_backend(&plain, false, quiet, false), Ok(BackendChoice::Keep)));
    assert_eq!(
        choose_backend(&plain, false, OutputMode::human(), false).unwrap_err().code(),
        "NEEDS_FLAGS"
    );
}

#[test]
fn parses_owner_repo() {
    assert_eq!(
        parse_owner_repo("jordan-gibbs/knack").unwrap(),
        ("jordan-gibbs".to_string(), "knack".to_string())
    );
    assert!(parse_owner_repo("invalid").is_err());
    assert!(parse_owner_repo("/repo").is_err());
    assert!(parse_owner_repo("owner/").is_err());
}

#[test]
fn load_missing_file_returns_empty() {
    let rec = installed::load("/x/installed.json", None).unwrap();
    assert!(rec.agents.is_empty());
    assert_eq!(rec.version, SCHEMA_VERSION);
}

#[test]
fn installed_add_then_remove_round_trips() {
    let mut rec = InstalledRecord::default();
    installed::add(&mut rec, "codex", Scope::Home, "/x/AGENTS.md".to_string());
    assert_eq!(rec.agents.len(), 1);
    assert_eq!(rec.agents[0].slug, "codex");
    assert!(installed::remove(&mut rec, "codex"));
    assert!(rec.agents.is_empty());
    assert!(!installed::remove(&mut rec, "codex"));
}

#[test]
fn add_dedupes_same_slug_same_scope() {
    let mut rec = InstalledRecord::default();
    installed::add(&mut rec, "codex", Scope::Home, "/a".to_string());
    installed::add(&mut rec, "codex", Scope::Home, "/b".to_string());
    assert_eq!(rec.agents.len(), 1);
    assert_eq!(rec.agents[0].path, "/b");
}

#[test]
fn add_keeps_same_slug_different_scope() {
    let mut rec = InstalledRecord::default();
    installed::add(&mut rec, "codex", Scope::Home, "/home/x".to_string());
    installed::add(&mut rec, "codex", Scope::Project, "/repo/x".to_string());
    assert_eq!(rec.agents.len(), 2);
}

#[test]
fn save_is_atomic_via_tempfile_rename() {
    let mut rec = InstalledRecord::default();
    installed::add(&mut rec, "codex", Scope::Home, "/orig".to_string());
    let first = installed::save(&rec, &NOW).unwrap();
    installed::add(&mut rec, "cursor", Scope::Project, "/repo/.cursor".to_string());
    let second = installed::save(&rec, &NOW).unwrap();
    assert!(second.contains("cursor"));
    assert!(second.contains("/orig"));
    let back = installed::load("/x", Some(&first)).unwrap();
    assert_eq!(back.agents.len(), 1);
    assert_eq!(back.agents[0].path, "/orig");
    assert_eq!(back.updated_at, Some(NOW));
    assert!(installed::load("/x", Some("[")).is_err());
}

#[test]
fn load_missing_returns_empty() {
    assert!(linked::load("/x", None).unwrap().skills.is_empty());
}

#[test]
fn linked_add_then_remove_round_trips() {
    let mut rec = LinkedRecord::default();
    linked::add(&mut rec, "demo", "1.0.0", Scope::Home, vec!["codex".to_string()]);
    assert_eq!(rec.skills.len(), 1);
    assert_eq!(rec.skills[0].slug, "demo");
    assert_eq!(rec.skills[0].agents, vec!["codex".to_string()]);
    assert!(linked::remove(&mut rec, "demo", Scope::Home));
    assert!(rec.skills.is_empty());
    assert!(!linked::remove(&mut rec, "demo", Scope::Home));
}

#[test]
fn add_dedupes_same_slug_same_scope_keeps_both_scopes() {
    let mut rec = LinkedRecord::default();
    linked::add(&mut rec, "demo", "1.0.0", Scope::Home, vec!["cursor".to_string()]);
    linked::add(&mut rec, "demo", "1.1.0", Scope::Home, vec!["cursor".to_string()]);
    linked::add(&mut rec, "demo", "1.0.0", Scope::Project, vec!["codex".to_string()]);
    assert_eq!(rec.skills.len(), 2);
    let home = rec.skills.iter().find(|s| s.scope == Scope::Home).unwrap();
    assert_eq!(home.version, "1.1.0");
    let text = linked::save(&rec, &NOW).unwrap();
    assert_eq!(linked::load("/x", Some(&text)).unwrap().skills.len(), 2);
}

fn fm(name: &str, desc: &str) -> SkillFrontmatter {
    SkillFrontmatter { name: Some(name.to_string()), description: Some(desc.to_string()) }
}

#[test]
fn render_native_skill_uses_frontmatter_description() {
    let body = render_native_skill(
        "monthly-close",
        &fm("monthly-close", "Reconciles Stripe payouts every Monday."),
        "/x/.knack/skills/monthly-close/SKILL.md",
    );
    assert!(body.starts_with(SHIM_SIGIL));
    assert!(body.contains("name: monthly-close"));
    assert!(body.contains("description: Reconciles Stripe payouts every Monday."));
    assert!(body.contains("knack run monthly-close"));
}

#[test]
fn render_native_rule_emits_mdc_with_alwaysapply_false() {
    let body = render_native_rule(
        "monthly-close",
        &fm("x", "Reconciles payouts."),
        "/repo/.knack/skills/monthly-close/SKILL.md",
    );
    assert!(body.contains("alwaysApply: false"));
    assert!(body.contains("description: Reconciles payouts."));
    assert!(body.contains("knack run monthly-close"));
}

#[test]
fn render_text_block_includes_slug_and_description() {
    let body = render_text_block("weekly-digest", &fm("weekly-digest", "Top tickets, one fix."));
    assert!(body.contains("- **weekly-digest**"));
    assert!(body.contains("Top tickets, one fix."));
    assert!(body.contains("`knack run weekly-digest`"));
}

#[test]
fn write_native_skill_is_idempotent() {
    let body = "abc";
    let first = write_native_skill("/root", "foo", body, None).unwrap();
    assert_eq!(first.path, "/root/foo/SKILL.md");
    assert_eq!(first.body, body);
    assert!(write_native_skill("/root", "foo", body, Some(&first.body)).is_none());
    let rule = write_native_rule("/root", "foo", body, Some("old")).unwrap();
    assert_eq!(rule.path, "/root/knack-foo.mdc");
}

fn folder(text: &str) -> RootContents {
    RootContents::Dir(vec![RootEntry {
        name: Some("custom".to_string()),
        is_dir: true,
        text: Some(text.to_string()),
    }])
}

#[test]
fn remove_native_skill_refuses_without_sigil() {
    let text = "---\nname: custom\n---\n\nUser-authored body.\n";
    assert!(remove_native_skill("/root", "custom", Some(text)).is_none());
    assert!(remove_native_skill("/root", "custom", None).is_none());
    assert_eq!(remove_all_shims(ShimStyle::NativeSkill, &folder(text)).removed, 0);
}

#[test]
fn a_sigil_below_the_first_line_does_not_remove_a_native_skill() {
    let text = format!("---\nname: mine\n---\n{SHIM_SIGIL}\nbody\n");
    assert!(remove_native_skill("/root", "mine", Some(&text)).is_none());
    assert_eq!(remove_linked_skill("/root", "mine", Some(&text)).as_deref(), Some("/root/mine"));
}

#[test]
fn remove_native_skill_deletes_with_sigil() {
    let text = format!("{SHIM_SIGIL}\n---\nname: foo\n---\n\nbody\n");
    assert_eq!(
        remove_native_skill("/root", "foo", Some(&text)).as_deref(),
        Some("/root/foo/SKILL.md")
    );
    assert!(remove_native_rule("/root", "foo", Some(&text)).is_some());
    let sweep = remove_all_shims(ShimStyle::NativeSkill, &folder(&text));
    assert_eq!(sweep.removed, 1);
    assert_eq!(sweep.entries, vec![0]);
}

#[test]
fn rule_files_are_swept_by_name_and_sigil() {
    let rule = |name: &str, text: &str| RootEntry {
        name: Some(name.to_string()),
        is_dir: false,
        text: Some(text.to_string()),
    };
    let own = format!("{SHIM_SIGIL}\nbody\n");
    let root = RootContents::Dir(vec![
        rule("knack.mdc", &own),
        rule("other.mdc", &own),
        rule("knack-foo.mdc", "not mine"),
        rule("knack-bar.mdc", &own),
    ]);
    assert_eq!(remove_all_shims(ShimStyle::NativeRule, &root).entries, vec![0, 3]);
    assert_eq!(remove_all_shims(ShimStyle::TextBlock, &RootContents::Missing).removed, 0);
}

const END_MARKER: &str = "<!-- knack:end -->";
const START_MARKER: &str = "<!-- knack:start -->";

#[test]
fn upsert_skill_block_is_idempotent() {
    let body = "- **foo** — bar";
    let first = upsert_skill_block("", "foo", body, END_MARKER).unwrap();
    assert!(upsert_skill_block(&first, "foo", body, END_MARKER).is_none());
}

#[test]
fn upsert_skill_block_replaces_existing_same_slug() {
    let first = upsert_skill_block("", "foo", "- **foo** — v1", END_MARKER).unwrap();
    let content = upsert_skill_block(&first, "foo", "- **foo** — v2", END_MARKER).unwrap();
    assert!(content.contains("v2"));
    assert!(!content.contains("v1"));
    assert_eq!(content.matches(&text_block_start("foo")).count(), 1);
}

#[test]
fn upsert_skill_block_inserts_after_install_block_when_present() {
    let initial = format!(
        "# pre\n\n{START_MARKER}\nknack install body\n{END_MARKER}\n\n# user content after\n"
    );
    let content = upsert_skill_block(&initial, "foo", "- **foo** — bar", END_MARKER).unwrap();
    let install_idx = content.find(START_MARKER).unwrap();
    let shim_idx = content.find(&text_block_start("foo")).unwrap();
    let user_idx = content.find("# user content after").unwrap();
    assert!(install_idx < shim_idx);
    assert!(shim_idx < user_idx);
}

#[test]
fn upsert_skill_block_appends_when_no_install_block_exists() {
    let content =
        upsert_skill_block("# user content\n", "foo", "- **foo** — bar", END_MARKER).unwrap();
    assert!(content.starts_with("# user content"));
    assert!(content.contains(&text_block_start("foo")));
}

#[test]
fn remove_skill_block_only_removes_matching_slug() {
    let one = upsert_skill_block("", "foo", "- foo body", END_MARKER).unwrap();
    let two = upsert_skill_block(&one, "bar", "- bar body", END_MARKER).unwrap();
    match remove_skill_block(&two, "foo") {
        FileChange::Write(content) => {
            assert!(!content.contains(&text_block_start("foo")));
            assert!(content.contains(&text_block_start("bar")));
        }
        _ => panic!("not rewritten"),
    }
    assert!(matches!(remove_skill_block(&one, "foo"), FileChange::Delete));
    assert!(matches!(remove_skill_block(&one, "else"), FileChange::Unchanged));
    let all = remove_all_shims(ShimStyle::TextBlock, &RootContents::File(two));
    assert_eq!(all.removed, 2);
    assert!(matches!(all.change, FileChange::Delete));
}

const LINKED_SRC: &str =
    "---\nname: monthly-close\ndescription: Reconciles Stripe payouts.\n---\n\n# Monthly close\n\nDo the thing.\n";

#[test]
fn render_linked_skill_keeps_frontmatter_first_and_wraps_body() {
    let out = render_linked_skill("monthly-close", "cursor", LINKED_SRC);
    assert!(out.starts_with("---\nname: monthly-close"));
    assert!(out.contains("description: Reconciles Stripe payouts."));
    let sigil_at = out.find(SHIM_SIGIL).unwrap();
    let second_fence = out[4..].find("\n---").map(|i| i + 4).unwrap();
    assert!(sigil_at > second_fence, "sigil must follow the frontmatter");
    assert!(out.contains("knack run monthly-close --runtime cursor --json"));
    assert!(out.contains("knack mark <run_id> succeeded"));
    assert!(out.contains("# Monthly close"));
    assert!(out.contains("Do the thing."));
}

#[test]
fn render_linked_skill_without_frontmatter_puts_sigil_first() {
    let out = render_linked_skill("x", "codex", "# Just a body\n");
    assert!(out.starts_with(SHIM_SIGIL));
    assert!(out.contains("# Just a body"));
    assert!(out.contains("--runtime codex"));
}

#[test]
fn split_frontmatter_handles_both_shapes() {
    let (head, body) = split_frontmatter(LINKED_SRC);
    assert!(head.starts_with("---\nname: monthly-close"));
    assert!(head.ends_with("---"));
    assert!(body.starts_with("# Monthly close"));

    let (head2, body2) = split_frontmatter("# no frontmatter\n");
    assert!(head2.is_empty());
    assert_eq!(body2, "# no frontmatter\n");
}

#[test]
fn write_and_remove_linked_skill_round_trip() {
    let wrapped = render_linked_skill("demo", "codex", LINKED_SRC);
    let support = vec![
        ("scripts/run.py".to_string(), b"print('hi')\n".to_vec()),
        ("meta.knack.yaml".to_string(), b"slug: demo\n".to_vec()),
    ];
    let files = write_linked_skill(&wrapped, &support);
    assert!(files.iter().any(|f| f.0 == "SKILL.md" && f.1 == wrapped.as_bytes()));
    assert!(files.iter().any(|f| f.0 == "scripts/run.py"));
    for f in &files {
        assert!(differs(None, &f.1));
        assert!(!differs(Some(&f.1), &f.1));
    }
    assert_eq!(
        remove_linked_skill("/root", "demo", Some(&wrapped)).as_deref(),
        Some("/root/demo")
    );
    assert_eq!(remove_all_shims(ShimStyle::NativeSkill, &folder(&wrapped)).removed, 1);
}

#[test]
fn remove_linked_skill_refuses_user_authored_folder() {
    let text = "---\nname: mine\n---\n\nUser body.\n";
    assert!(remove_linked_skill("/root", "mine", Some(text)).is_none());
    assert_eq!(remove_all_shims(ShimStyle::NativeSkill, &folder(text)).removed, 0);
}

#[test]
fn file_carries_sigil_matches_body_sigil_not_only_line_one() {
    assert!(file_carries_sigil(&render_linked_skill("demo", "codex", LINKED_SRC)));
    assert!(file_carries_sigil(&format!("{SHIM_SIGIL}\n---\nname: knack\n---\n")));
    assert!(!file_carries_sigil("---\nname: user\n---\n\nbody\n"));
}

#[test]
fn mark_failed_envelope_includes_hint_when_present() {
    let err = CliError::PlanLimit {
        message: "too many marks".into(),
        hint: Some("upgrade".into()),
    };
    let env = err_envelope(&err);
    assert_eq!(env.get("error").unwrap().get_str("code"), Some("PLAN_LIMIT_EXCEEDED"));
    assert_eq!(env.get("error").unwrap().get_str("hint"), Some("upgrade"));
}

#[test]
fn bump_major() {
    assert_eq!(bump("1.2.3", BumpKind::Major).unwrap(), "2.0.0");
}

#[test]
fn bump_minor() {
    assert_eq!(bump("1.2.3", BumpKind::Minor).unwrap(), "1.3.0");
    assert_eq!(bump("1.2", BumpKind::Minor).unwrap(), "1.3.0");
}

#[test]
fn bump_rejects_garbage() {
    assert!(bump("nope", BumpKind::Major).is_err());
}

#[test]
fn bump_patch_basic() {
    assert_eq!(bump_patch("1.0.0").unwrap(), "1.0.1");
    assert_eq!(bump_patch("0.1").unwrap(), "0.1.1");
    assert_eq!(bump_patch("v2.3.4").unwrap(), "2.3.5");
}

#[test]
fn only_the_raised_number_has_to_be_below_the_greatest() {
    let great = "18446744073709551615";
    assert_eq!(bump_patch(&format!("{great}.0.0")).unwrap(), format!("{great}.0.1"));
    assert_eq!(bump(&format!("{great}.1.{great}"), BumpKind::Minor).unwrap(), format!("{great}.2.0"));
    assert_eq!(bump(&format!("1.{great}.{great}"), BumpKind::Major).unwrap(), "2.0.0");
}

#[test]
fn bump_patch_rejects_garbage() {
    assert!(bump_patch("not-a-version").is_err());
    assert!(bump_patch("1.x.0").is_err());
}

#[test]
fn other_lines_of_a_file_stay() {
    assert_eq!(
        update_meta_version("# c\n  version: 0.1.0\nname: x\nversion: 9\n", "0.2.0"),
        "# c\n  version: 0.2.0\nname: x\nversion: 9\n"
    );
    assert_eq!(update_meta_version("name: x", "0.2.0"), "name: x\nversion: 0.2.0");
}

#[test]
fn write_if_changed_skips_when_identical() {
    assert!(!write_if_changed(Some("hello"), "hello"));
}

#[test]
fn write_if_changed_writes_on_diff() {
    assert!(write_if_changed(Some("hello"), "world"));
}

#[test]
fn write_if_changed_creates_new_file() {
    assert!(write_if_changed(None, "data"));
}

#[test]
fn script_oneliner_matches_platform() {
    let windows = platform_script_oneliner(true);
    assert!(windows.contains("uninstall.ps1"));
    assert!(windows.contains("iwr"));
    let other = platform_script_oneliner(false);
    assert!(other.contains("uninstall.sh"));
    assert!(other.contains("curl"));
}

#[test]
fn guess_binary_path_returns_platform_default() {
    let s = guess_binary_path(true, Some("C:/Local"), None).unwrap();
    assert!(s.ends_with("knack.exe"));
    assert!(s.contains("knack"));
    let s = guess_binary_path(false, None, Some("/home/u")).unwrap();
    assert!(s.ends_with(".local/bin/knack"));
}

#[test]
fn platform_oneliner_matches_target() {
    assert!(platform_install_oneliner(Platform::Windows).contains("install.ps1"));
    assert!(platform_install_oneliner(Platform::Linux).contains("install.sh"));
}

#[test]
fn windows_never_auto_runs() {
    let should = decide_should_run(&UpgradeArgs { print: false, run: true }, Platform::Windows);
    assert!(!should, "Windows must not auto-run upgrade under file lock");
}

#[test]
fn print_flag_short_circuits_run() {
    for p in [Platform::Windows, Platform::Macos, Platform::Linux] {
        assert!(!decide_should_run(&UpgradeArgs { print: true, run: false }, p));
    }
}

fn text_of(v: Option<&serde_yaml::Value>) -> Option<String> {
    v.and_then(|v| v.as_str()).map(|s| s.to_string())
}

fn read_frontmatter(md: &str) -> Result<Option<SkillFrontmatter>, CliError> {
    let block = frontmatter_block(md).map(|b| match serde_yaml::from_str::<serde_yaml::Value>(b) {
        Ok(v) => Ok(SkillFrontmatter {
            name: text_of(v.get("name")),
            description: text_of(v.get("description")),
        }),
        Err(e) => Err(e.to_string()),
    });
    parse_skill_md_frontmatter(block)
}

#[test]
fn parse_frontmatter_returns_none_when_no_fence() {
    let body = "# Hello\n\nNo frontmatter here.\n";
    assert!(read_frontmatter(body).unwrap().is_none());
}

#[test]
fn parse_frontmatter_lifts_name_and_description() {
    let body = "---\nname: monthly-close\ndescription: Reconciles every Monday.\n---\n\n# Body\n";
    let parsed = read_frontmatter(body).unwrap().unwrap();
    assert_eq!(parsed.name.as_deref(), Some("monthly-close"));
    assert_eq!(parsed.description.as_deref(), Some("Reconciles every Monday."));
}

#[test]
fn parse_frontmatter_tolerates_bom_and_blank_lines() {
    let body = "\u{feff}\n---\nname: x\ndescription: y\n---\n\nBody\n";
    let parsed = read_frontmatter(body).unwrap().unwrap();
    assert_eq!(parsed.name.as_deref(), Some("x"));
    assert_eq!(parsed.description.as_deref(), Some("y"));
}

#[test]
fn parse_frontmatter_ignores_extra_fields() {
    let body =
        "---\nname: x\ndescription: y\nversion: 1.2.3\nallowed-tools:\n  - Bash\n---\n\nBody\n";
    let parsed = read_frontmatter(body).unwrap().unwrap();
    assert_eq!(parsed.name.as_deref(), Some("x"));
}

#[test]
fn parse_frontmatter_no_close_fence_returns_none() {
    let body = "---\nname: x\n(forgot the closing fence)\n";
    assert!(read_frontmatter(body).unwrap().is_none());
}

#[test]
fn broken_frontmatter_is_an_error() {
    let e = read_frontmatter("---\nname: [x\n---\n").unwrap_err();
    assert!(e.message().starts_with("SKILL.md frontmatter parse: "));
}
