use std::io::Read;

use knack::api::error::{map_api_error, map_api_error_bytes, ApiError};
use knack::archive::sha256_bytes;
use knack::config::{
    config_file_path, join_path, save_backend_mode, skills_dir, BackendMode, Config, LinkScope,
    Profile,
};
use knack::errors::{copy_error, CliError, ExitCode};
use knack::json::Json;
use knack::order::TextMap;
use knack::output::{
    display_path, emit_ok, err_envelope, ok_envelope, Emission, OutputMode, SCHEMA,
};
use knack::skill_pack::{
    check_safe_name, collect_entries, manifest_name, pack_skill, packed_s3_key, posix_arcname,
    unpack_skill, Manifest, PackedSkill,
};
use knack::skill_validators::validate_skill_folder;
use knack::slug::parse_slug_at_version;
use knack::tls::{from_env, init, truthy, TlsSettings};

#[test]
fn with_version() {
    assert_eq!(parse_slug_at_version("foo@1.0.0"), ("foo", Some("1.0.0")));
}

#[test]
fn without_version() {
    assert_eq!(parse_slug_at_version("foo"), ("foo", None));
}

#[test]
fn v_prefix_left_intact() {
    assert_eq!(parse_slug_at_version("foo@v1.0"), ("foo", Some("v1.0")));
}

#[test]
fn handle_slug_no_version() {
    assert_eq!(
        parse_slug_at_version("@KnackOfficial/monthly-close"),
        ("@KnackOfficial/monthly-close", None)
    );
}

#[test]
fn handle_slug_with_version() {
    assert_eq!(
        parse_slug_at_version("@KnackOfficial/monthly-close@1.2.0"),
        ("@KnackOfficial/monthly-close", Some("1.2.0"))
    );
}

#[test]
fn exit_codes_are_stable() {
    assert_eq!(ExitCode::SUCCESS, 0);
    assert_eq!(ExitCode::USER, 1);
    assert_eq!(ExitCode::AUTH, 2);
    assert_eq!(ExitCode::NETWORK, 3);
    assert_eq!(ExitCode::CONFLICT, 4);
    assert_eq!(ExitCode::PLAN, 5);
    assert_eq!(ExitCode::USAGE, 64);
    assert_eq!(ExitCode::INTERNAL, 70);
}

#[test]
fn error_kind_to_exit_code() {
    assert_eq!(CliError::AuthRequired.exit_code(), ExitCode(ExitCode::AUTH));
    assert_eq!(
        CliError::Conflict { message: "x".into(), hint: None }.exit_code(),
        ExitCode(ExitCode::CONFLICT)
    );
    assert_eq!(
        CliError::PlanLimit { message: "x".into(), hint: None }.exit_code(),
        ExitCode(ExitCode::PLAN),
    );
    assert_eq!(CliError::Network("x".into()).exit_code(), ExitCode(ExitCode::NETWORK));
    assert_eq!(CliError::NotFound("x".into()).exit_code(), ExitCode(ExitCode::USER));
}

#[test]
fn auth_required_has_hint() {
    assert!(CliError::AuthRequired.hint().is_some());
}

#[test]
fn the_code_of_a_user_error_wins() {
    let own = CliError::User { code: "BAD_DATE".into(), message: "m".into(), hint: Some("h".into()) };
    assert_eq!(own.code(), "BAD_DATE");
    assert_eq!(own.hint(), Some("h"));
    assert_eq!(own.message(), "m");
    let none = CliError::User { code: "".into(), message: "m".into(), hint: None };
    assert_eq!(none.code(), "USER_ERROR");
    let server = CliError::Server { status: 503, code: "X".into(), message: "boom".into() };
    assert_eq!(server.message(), "server error (503): boom");
    assert_eq!(copy_error(&server).message(), server.message());
}

#[test]
fn config_strips_trailing_slash() {
    let cfg = Config::load(Some("https://example.test/"), None, "/s".to_string());
    assert_eq!(cfg.api_base, "https://example.test");
}

#[test]
fn skills_dir_falls_back_when_no_home() {
    let p = skills_dir(None, true, None, None);
    assert!(!p.is_empty());
    assert_eq!(p, ".knack/skills");
    assert_eq!(skills_dir(None, true, Some("/d"), Some("/h")), "/d/knack/skills");
    assert_eq!(skills_dir(None, false, Some("/d"), Some("/h")), "/h/.knack/skills");
    assert_eq!(skills_dir(Some("/x"), true, None, None), "/x");
}

#[test]
fn link_scope_default_is_home() {
    assert_eq!(LinkScope::default(), LinkScope::Home);
    assert_eq!(LinkScope::Home.as_str(), "home");
    assert_eq!(LinkScope::Project.as_str(), "project");
}

#[test]
fn link_scope_parses_documented_and_synonym_values() {
    assert_eq!(LinkScope::parse("home"), Some(LinkScope::Home));
    assert_eq!(LinkScope::parse("global"), Some(LinkScope::Home));
    assert_eq!(LinkScope::parse("project"), Some(LinkScope::Project));
    assert_eq!(LinkScope::parse("local"), Some(LinkScope::Project));
    assert_eq!(LinkScope::parse(" Project "), Some(LinkScope::Project));
    assert_eq!(LinkScope::parse("nonsense"), None);
}

#[test]
fn a_profile_keeps_its_defaults() {
    let old = Profile { backend: BackendMode::default(), link_scope: Some("project".to_string()) };
    let github = BackendMode::Github {
        owner: "o".to_string(),
        repo: "r".to_string(),
        local_path: "/p".to_string(),
    };
    let new = save_backend_mode(github, Some(old));
    assert_eq!(new.link_scope.as_deref(), Some("project"));
    let cfg = Config::load(None, Some(new), "/s".to_string());
    assert_eq!(cfg.link_scope, LinkScope::Project);
    assert_eq!(cfg.api_base, "https://api.getknack.ai");
    assert_eq!(config_file_path(None, Some("/h")).as_deref(), Some("/h/.knack/config.yaml"));
    assert_eq!(join_path("/a/", "b"), "/a/b");
}

#[test]
fn ok_envelope_has_schema_marker() {
    let env = ok_envelope(Json::Object(vec![("x".to_string(), Json::Nat(1))]));
    assert_eq!(env.get_str("$schema"), Some(SCHEMA));
    assert!(matches!(env.get("ok"), Some(Json::Bool(true))));
    assert_eq!(env.get("data").unwrap().get("x").unwrap().as_u64(), Some(1));
}

#[test]
fn err_envelope_carries_code_and_hint() {
    let err = CliError::AuthRequired;
    let env = err_envelope(&err);
    assert!(matches!(env.get("ok"), Some(Json::Bool(false))));
    assert_eq!(env.get("error").unwrap().get_str("code"), Some("AUTH_REQUIRED"));
    assert!(env.get("error").unwrap().get_str("hint").is_some());
}

#[test]
fn err_envelope_omits_hint_when_none() {
    let err = CliError::Network("dns".into());
    let env = err_envelope(&err);
    assert!(matches!(env.get("error").unwrap().get("hint"), Some(Json::Null)));
}

#[test]
fn schema_pins_v1() {
    assert_eq!(SCHEMA, "knack://cli/v1");
}

#[test]
fn a_result_is_printed_as_one_line_of_json() {
    let mode = OutputMode { json: true, quiet: true, no_color: false };
    match emit_ok(mode, Json::Nat(7)) {
        Emission::Line(s) => {
            assert_eq!(s, "{\"$schema\":\"knack://cli/v1\",\"ok\":true,\"data\":7}");
        }
        _ => panic!("no line"),
    }
    assert!(matches!(emit_ok(OutputMode::human(), Json::Null), Emission::Human));
    let quiet = OutputMode { json: false, quiet: true, no_color: false };
    assert!(matches!(emit_ok(quiet, Json::Null), Emission::Silent));
}

#[test]
fn paths_are_shown_with_slashes() {
    assert_eq!(display_path("\\\\?\\C:\\a\\b"), "C:/a/b");
    assert_eq!(display_path("/a/b"), "/a/b");
}

#[test]
fn ok_when_both_files_present_and_nonempty() {
    assert!(validate_skill_folder(true, Some(&b"# x".to_vec()), Some(&b"name: x".to_vec())).is_ok());
}

#[test]
fn flags_missing_dir() {
    let report = validate_skill_folder(false, None, None);
    assert!(!report.is_ok());
    assert_eq!(report.issues[0].code, "DIR_MISSING");
}

#[test]
fn flags_missing_skill_md() {
    let report = validate_skill_folder(true, None, Some(&b"name: x".to_vec()));
    assert!(!report.is_ok());
    assert!(report.issues.iter().any(|i| i.path == "SKILL.md" && i.code == "FILE_MISSING"));
    assert_eq!(report.summary(), "SKILL.md: missing required file `SKILL.md`");
}

#[test]
fn flags_empty_meta_yaml() {
    let report =
        validate_skill_folder(true, Some(&b"# x".to_vec()), Some(&b"   \n\n  ".to_vec()));
    assert!(!report.is_ok());
    assert!(report.issues.iter().any(|i| i.path == "meta.knack.yaml" && i.code == "FILE_EMPTY"));
}

#[test]
fn details_envelope_carries_issue_array() {
    let report = validate_skill_folder(false, None, None);
    let details = report.into_details();
    match details.get("issues") {
        Some(Json::Array(issues)) => assert!(issues[0].get_str("code").is_some()),
        _ => panic!("no list"),
    }
}

#[test]
fn truthy_accepts_common_forms() {
    for v in ["1", "true", "TRUE", "Yes", "on", " on "] {
        assert!(truthy(v), "{v:?} should be truthy");
    }
    for v in ["0", "false", "no", "", "maybe"] {
        assert!(!truthy(v), "{v:?} should be falsy");
    }
}

#[test]
fn flags_override_env() {
    let flag = Some("/corp/ca.pem".to_string());
    let env = TlsSettings { ca_bundle: Some("/env/ca.pem".to_string()), insecure: true };
    let merged = init(None, flag.clone(), false, env);
    assert_eq!(merged.ca_bundle, flag);
    assert!(merged.insecure);
    let later = TlsSettings { ca_bundle: None, insecure: false };
    let again = init(Some(merged), Some("/other.pem".to_string()), false, later);
    assert_eq!(again.ca_bundle, flag);
    assert!(again.insecure);
    let read = from_env(Some(""), Some("/c.pem"), None);
    assert_eq!(read.ca_bundle.as_deref(), Some("/c.pem"));
    assert!(!read.insecure);
}

fn minimal_skill() -> TextMap<Vec<u8>> {
    let mut m: TextMap<Vec<u8>> = TextMap::new();
    m.insert(
        "SKILL.md".to_string(),
        b"---\nname: x\ndescription: y\n---\n\n# X\n".to_vec(),
    );
    m.insert(
        "meta.knack.yaml".to_string(),
        b"id: knack_x\nname: x\nslug: x\nauthor: a@b.c\n".to_vec(),
    );
    m
}

fn pack(m: TextMap<Vec<u8>>) -> PackedSkill {
    match pack_skill("/skill", true, m) {
        Ok(p) => p,
        Err(e) => panic!("{:?}", e),
    }
}

#[test]
fn pack_unpack_round_trip_minimal() {
    let packed = pack(minimal_skill());
    assert!(packed.manifest.files.contains_key("SKILL.md"));
    assert!(packed.manifest.files.contains_key("meta.knack.yaml"));
    let out = match unpack_skill(&packed.bytes) {
        Ok(u) => u,
        Err(e) => panic!("{:?}", e),
    };
    assert_eq!(out.manifest.version, 1);
    let source = minimal_skill();
    for name in out.manifest.files.keys() {
        assert_eq!(source.get(&name), out.files.get(&name));
    }
    assert_eq!(out.files.len(), 2);
}

#[test]
fn pack_includes_full_anthropic_layout() {
    let make = || {
        let mut m = minimal_skill();
        m.insert("intuition.md".to_string(), b"- be careful\n".to_vec());
        m.insert("scripts/fetch.py".to_string(), b"print('hi')\n".to_vec());
        m.insert("references/policy.md".to_string(), b"policy here\n".to_vec());
        m.insert("examples/input.txt".to_string(), b"hello\n".to_vec());
        m
    };
    let packed = pack(make());
    for expected in [
        "SKILL.md",
        "meta.knack.yaml",
        "intuition.md",
        "scripts/fetch.py",
        "references/policy.md",
        "examples/input.txt",
    ] {
        assert!(packed.manifest.files.contains_key(expected), "missing {expected}");
    }
    let out = match unpack_skill(&packed.bytes) {
        Ok(u) => u,
        Err(e) => panic!("{:?}", e),
    };
    let source = make();
    for name in packed.manifest.files.keys() {
        assert_eq!(source.get(&name), out.files.get(&name));
    }
}

#[test]
fn packing_is_deterministic() {
    let a = pack(minimal_skill());
    let b = pack(minimal_skill());
    assert_eq!(a.bytes, b.bytes);
    assert_eq!(a.sha256, b.sha256);
    assert_eq!(a.sha256, sha256_bytes(&a.bytes));
}

#[test]
fn digests_are_written_in_hexadecimal() {
    assert_eq!(
        sha256_bytes(b"abc"),
        "ba7816bf8f01cfea414140de5dae2223b00361a396177a9cb410ff61f20015ad"
    );
}

#[test]
fn pack_rejects_missing_required() {
    let mut m: TextMap<Vec<u8>> = TextMap::new();
    m.insert("SKILL.md".to_string(), b"# X\n".to_vec());
    match pack_skill("/skill", true, m) {
        Ok(_) => panic!("packed"),
        Err(e) => {
            let code = format!("{:?}", e);
            assert!(code.contains("PACK_MISSING_REQUIRED"), "got {code}");
        }
    }
    match pack_skill("/skill", false, minimal_skill()) {
        Ok(_) => panic!("packed"),
        Err(e) => assert_eq!(e.code(), "PACK_NOT_DIRECTORY"),
    }
}

#[test]
fn check_safe_name_rejects_traversal_and_absolute() {
    for bad in ["../escape.txt", "/etc/passwd", "ok/../bad", "ok/../../oops"] {
        assert!(check_safe_name(bad).is_err(), "expected `{bad}` to be rejected");
    }
    for good in ["SKILL.md", "scripts/fetch.py", "references/policy.md"] {
        assert!(check_safe_name(good).is_ok(), "expected `{good}` to pass");
    }
}

fn append(b: &mut tar::Builder<&mut flate2::write::GzEncoder<Vec<u8>>>, name: &str, data: &[u8]) {
    let mut h = tar::Header::new_ustar();
    h.set_path(name).unwrap();
    h.set_size(data.len() as u64);
    h.set_mode(0o644);
    h.set_mtime(0);
    h.set_cksum();
    b.append(&h, data).unwrap();
}

fn repack(packed: &PackedSkill, manifest: Option<&str>) -> Vec<u8> {
    let mut gz = flate2::write::GzEncoder::new(Vec::new(), flate2::Compression::new(6));
    {
        let mut b = tar::Builder::new(&mut gz);
        let dec = flate2::read::GzDecoder::new(packed.bytes.as_slice());
        let mut a = tar::Archive::new(dec);
        for e in a.entries().unwrap() {
            let mut e = e.unwrap();
            let arc = e.path().unwrap().to_string_lossy().replace('\\', "/");
            if arc == manifest_name() {
                continue;
            }
            let mut data = Vec::new();
            e.read_to_end(&mut data).unwrap();
            append(&mut b, &arc, &data);
        }
        if let Some(m) = manifest {
            append(&mut b, &manifest_name(), m.as_bytes());
        }
        b.finish().unwrap();
    }
    gz.finish().unwrap()
}

fn code_of(bytes: &[u8]) -> String {
    match unpack_skill(bytes) {
        Ok(_) => "ok".to_string(),
        Err(e) => e.code().to_string(),
    }
}

#[test]
fn unpack_rejects_newer_manifest_version() {
    let packed = pack(minimal_skill());
    let tampered = Manifest { version: 99, files: pack(minimal_skill()).manifest.files };
    let bytes = repack(&packed, Some(&tampered.to_json()));
    match unpack_skill(&bytes) {
        Ok(_) => panic!("unpacked"),
        Err(e) => {
            let code = format!("{:?}", e);
            assert!(code.contains("UNPACK_NEWER_MANIFEST"), "got {code}");
        }
    }
}

#[test]
fn unpack_rejects_what_the_manifest_does_not_say() {
    let packed = pack(minimal_skill());
    assert_eq!(code_of(&repack(&packed, None)), "UNPACK_NO_MANIFEST");
    let mut files = pack(minimal_skill()).manifest.files;
    files.insert("SKILL.md".to_string(), "00".to_string());
    let wrong = Manifest { version: 1, files };
    assert_ne!(code_of(&repack(&packed, Some(&wrong.to_json()))), "ok");
    let same = Manifest { version: 1, files: pack(minimal_skill()).manifest.files };
    assert_eq!(code_of(&repack(&packed, Some(&same.to_json()))), "ok");
    assert_ne!(code_of(b"no archive"), "ok");
}

#[test]
fn a_manifest_reads_back() {
    let m = pack(minimal_skill()).manifest;
    let back = match Manifest::from_json(&m.to_json()) {
        Ok(b) => b,
        Err(e) => panic!("{:?}", e),
    };
    assert_eq!(back.version, m.version);
    assert_eq!(back.files.keys(), m.files.keys());
    assert!(Manifest::from_json("[]").is_err());
}

#[test]
fn only_the_layout_is_packed() {
    let mut m = minimal_skill();
    m.insert("tests/basic.yaml".to_string(), b"t".to_vec());
    m.insert(".git/config".to_string(), b"c".to_vec());
    m.insert("notes.txt".to_string(), b"n".to_vec());
    assert_eq!(
        collect_entries(m).keys(),
        vec!["SKILL.md".to_string(), "meta.knack.yaml".to_string(), "tests/basic.yaml".to_string()]
    );
    let mut m = minimal_skill();
    m.insert(manifest_name(), b"{}".to_vec());
    let out = match unpack_skill(&pack(m).bytes) {
        Ok(u) => u,
        Err(e) => panic!("{:?}", e),
    };
    assert_eq!(out.files.keys(), vec!["SKILL.md".to_string(), "meta.knack.yaml".to_string()]);
    assert_eq!(posix_arcname("a//b/./c"), "a/b/c");
}

#[test]
fn packed_s3_key_canonical() {
    assert_eq!(packed_s3_key("abc-123", "1.0.0"), "skills/abc-123/1.0.0.tar.gz");
}

fn body(code: &str, message: &str) -> Option<ApiError> {
    Some(ApiError { code: code.to_string(), message: message.to_string(), details: None })
}

#[test]
fn maps_401_to_auth_failed() {
    let err = map_api_error(401, body("AUTH_REQUIRED", "no token"));
    assert!(matches!(err, CliError::AuthFailed(_)));
}

#[test]
fn maps_403_plan_limit_to_plan_variant() {
    let err = map_api_error(403, body("PLAN_LIMIT_EXCEEDED", "too many"));
    assert!(matches!(err, CliError::PlanLimit { .. }));
}

#[test]
fn maps_404_to_not_found() {
    let err = map_api_error(404, body("NOT_FOUND", "missing"));
    assert!(matches!(err, CliError::NotFound(_)));
}

#[test]
fn maps_409_to_conflict() {
    let err = map_api_error(409, body("IMMUTABLE_VERSION", "exists"));
    assert!(matches!(err, CliError::Conflict { .. }));
}

#[test]
fn maps_5xx_to_server() {
    let err = map_api_error(500, body("X", "boom"));
    assert!(matches!(err, CliError::Server { .. }));
}

#[test]
fn bodies_are_told_of_as_they_are() {
    let json = b"{\"error\":{\"code\":\"NOT_FOUND\",\"message\":\"gone\"}}".to_vec();
    assert!(matches!(map_api_error_bytes(404, Some(&json)), CliError::NotFound(m) if m == "gone"));
    let plain = b"<html>".to_vec();
    match map_api_error_bytes(502, Some(&plain)) {
        CliError::Server { status, message, .. } => {
            assert_eq!(status, 502);
            assert_eq!(message, "server returned 502 Bad Gateway: <html>");
        }
        other => panic!("{:?}", other),
    }
    let empty: Vec<u8> = vec![];
    match map_api_error_bytes(500, Some(&empty)) {
        CliError::Server { message, .. } => {
            assert_eq!(message, "server returned 500 Internal Server Error with empty body");
        }
        other => panic!("{:?}", other),
    }
    let long: Vec<u8> = vec![b'a'; 600];
    match map_api_error_bytes(500, Some(&long)) {
        CliError::Server { message, .. } => assert!(message.ends_with("a…")),
        other => panic!("{:?}", other),
    }
}
