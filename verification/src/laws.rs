//! What the settings, the errors and the checks of a folder come to.

use vstd::prelude::*;

use crate::archive::hex_text;
use crate::config::{
    api_base_of, below, link_scope_named, profile_path, profile_scope, skills_path, LinkScope,
    Profile, DEFAULT_API_BASE,
};
use crate::errors::{code_of, exit_code_of, hint_of, message_of, ErrorView};
use crate::ids::is_id;
use crate::json::{text_or_null, text_values, JsonView};
use crate::numbers::decimal;
use crate::output::shown_path;
use crate::skill_validators::{
    blank, file_issues, folder_issues, issue_line, report_summary, IssueView,
};
use crate::slug::slug_parts;
use crate::text::laws::{lacks, law_a_start_comes_off};
use crate::text::{ascii_lower, drop_trailing, joined, lowercased, trimmed, without_prefix, CharClass};
use crate::tls::{asked_for, env_settings, in_force, is_truthy, settled_on, TlsView};
use crate::types::{backend_message, status_name, BackendError, RunStatus};

verus! {

// ---------------------------------------------------------------------------
// Settings
// ---------------------------------------------------------------------------

/// A path goes on below a directory behind one slash; an absolute path is itself, and so is
/// one below no directory.
pub proof fn law_paths_go_on_behind_a_slash(dir: Seq<char>, rest: Seq<char>)
    requires
        dir.len() > 0,
        rest.len() == 0 || rest[0] != '/',
    ensures
        dir.last() != '/' ==> below(dir, rest) == dir + seq!['/'] + rest,
        dir.last() == '/' ==> below(dir, rest) == dir + rest,
        below(dir, seq!['/'] + rest) == seq!['/'] + rest,
        below(Seq::empty(), rest) == rest,
{
    reveal_strlit("/");
    assert("/"@ =~= seq!['/']);
}

/// The scope of links has two names each, in either case of letters and with white space
/// round it.
pub proof fn law_scopes_have_two_names(s: Seq<char>)
    ensures
        ({
            let low = lowercased(trimmed(s));
            &&& link_scope_named(s) == Some(LinkScope::Home) <==> low == "home"@ || low
                == "global"@
            &&& link_scope_named(s) == Some(LinkScope::Project) <==> low == "project"@ || low
                == "local"@
        }),
{
    reveal_strlit("home");
    reveal_strlit("global");
    reveal_strlit("project");
    reveal_strlit("local");
    assert("home"@.len() == 4 && "global"@.len() == 6 && "project"@.len() == 7 && "local"@.len()
        == 5);
}

/// Links are put into the home directory unless the profile says otherwise.
pub proof fn law_links_go_home_by_default(p: Profile)
    ensures
        profile_scope(None) == LinkScope::Home,
        p.link_scope is None ==> profile_scope(Some(p)) == LinkScope::Home,
        p.link_scope matches Some(s) ==> profile_scope(Some(p)) == (match link_scope_named(s@) {
            Some(k) => k,
            None => LinkScope::Home,
        }),
{
}

/// The address of the interface is the one that the environment gives, without slashes at
/// its end; without one it is the service's own.
pub proof fn law_the_environment_gives_the_address(s: Seq<char>)
    requires
        s.len() > 0,
        s.last() != '/',
    ensures
        api_base_of(Some(s)) == s,
        api_base_of(Some(s + seq!['/'])) == s,
        api_base_of(None) == "https://api.getknack.ai"@,
{
    reveal_strlit("https://api.getknack.ai");
    let one = CharClass::One('/');
    assert(drop_trailing(s, one) == s);
    assert((s + seq!['/']).drop_last() =~= s);
    assert(drop_trailing(s + seq!['/'], one) == drop_trailing(s, one));
    assert(DEFAULT_API_BASE@ == "https://api.getknack.ai"@);
    assert(drop_trailing("https://api.getknack.ai"@, one) == "https://api.getknack.ai"@);
}

/// The profile and the skills are where the environment says; else the profile is below the
/// home directory, and so are the skills, but for Linux, where they are below the directory
/// of data.
pub proof fn law_where_profile_and_skills_are(
    s: Seq<char>,
    linux: bool,
    a: Option<Seq<char>>,
    b: Option<Seq<char>>,
)
    ensures
        profile_path(Some(s), b) == Some(s),
        profile_path(None, Some(s)) == Some(below(s, ".knack/config.yaml"@)),
        profile_path(None, None) is None,
        skills_path(Some(s), linux, a, b) == s,
        skills_path(None, true, Some(s), b) == below(s, "knack/skills"@),
        skills_path(None, false, a, Some(s)) == below(s, ".knack/skills"@),
        skills_path(None, true, None, Some(s)) == below(s, ".knack/skills"@),
{
}

/// A switch is on with `1`, `true`, `yes` and `on`, in either case of letters and with white
/// space round it, and with nothing else.
pub proof fn law_switches_are_on_in_four_ways(v: Seq<char>)
    ensures
        is_truthy(v) <==> {
            let s = ascii_lower(trimmed(v));
            s == "1"@ || s == "true"@ || s == "yes"@ || s == "on"@
        },
{
}

/// Of the certificates that the environment names the library's own come first; an empty
/// name is none. What is asked for on the command line comes before both, and being lax is
/// asked for in either place.
pub proof fn law_certificates_asked_for_come_first(
    a: Seq<char>,
    b: Seq<char>,
    flag: Seq<char>,
    lax: bool,
    env: TlsView,
    v: Seq<char>,
)
    requires
        a.len() > 0,
        b.len() > 0,
    ensures
        env_settings(Some(a), Some(b), None) == (TlsView { ca_bundle: Some(a), insecure: false }),
        env_settings(Some(Seq::empty()), Some(b), None) == (TlsView {
            ca_bundle: Some(b),
            insecure: false,
        }),
        env_settings(None, Some(b), None).ca_bundle == Some(b),
        env_settings(None, None, None).ca_bundle is None,
        env_settings(None, None, Some(v)).insecure == is_truthy(v),
        asked_for(Some(flag), lax, env) == (TlsView {
            ca_bundle: Some(flag),
            insecure: lax || env.insecure,
        }),
        asked_for(None, lax, env).ca_bundle == env.ca_bundle,
{
}

/// What was settled on is in force, and the environment only where nothing was.
pub proof fn law_what_is_settled_is_in_force(s: TlsView, env: TlsView)
    ensures
        in_force(Some(s), env) == s,
        in_force(None, env) == env,
        settled_on(Some(s), env) == s,
        settled_on(None, env) == env,
{
}

// ---------------------------------------------------------------------------
// Errors
// ---------------------------------------------------------------------------

/// Each kind of error has its own number for the shell.
pub proof fn law_each_kind_has_its_exit_code(e: ErrorView)
    ensures
        exit_code_of(e) == 1 <==> e is User || e is NotFound,
        exit_code_of(e) == 2 <==> e is AuthRequired || e is AuthFailed,
        exit_code_of(e) == 3 <==> e is Network,
        exit_code_of(e) == 4 <==> e is Conflict,
        exit_code_of(e) == 5 <==> e is PlanLimit,
        exit_code_of(e) == 70 <==> e is Server || e is Internal,
{
}

/// An error of the user's has the code that it was given; the others have that of their
/// kind.
pub proof fn law_each_kind_has_its_code(
    e: ErrorView,
    code: Seq<char>,
    message: Seq<char>,
    hint: Option<Seq<char>>,
)
    requires
        code.len() > 0,
    ensures
        code_of(ErrorView::User { code, message, hint }) == code,
        e is AuthRequired ==> code_of(e) == "AUTH_REQUIRED"@,
        e is AuthFailed ==> code_of(e) == "AUTH_FAILED"@,
        e is Network ==> code_of(e) == "NETWORK"@,
        e is Conflict ==> code_of(e) == "CONFLICT"@,
        e is PlanLimit ==> code_of(e) == "PLAN_LIMIT_EXCEEDED"@,
        e is NotFound ==> code_of(e) == "NOT_FOUND"@,
        e is Server ==> code_of(e) == "SERVER"@,
        e is Internal ==> code_of(e) == "INTERNAL"@,
{
}

/// The message of an error ends with what went wrong, behind the name of its kind, and its
/// hint is the one that it was given.
pub proof fn law_messages_tell_what_went_wrong(
    code: Seq<char>,
    m: Seq<char>,
    hint: Option<Seq<char>>,
    status: nat,
)
    ensures
        message_of(ErrorView::User { code, message: m, hint }) == m,
        message_of(ErrorView::AuthFailed(m)) == "authentication failed: "@ + m,
        message_of(ErrorView::Network(m)) == "network error: "@ + m,
        message_of(ErrorView::Conflict { message: m, hint }) == "conflict: "@ + m,
        message_of(ErrorView::PlanLimit { message: m, hint }) == "plan limit hit: "@ + m,
        message_of(ErrorView::NotFound(m)) == "not found: "@ + m,
        message_of(ErrorView::Server { status: status as int, code, message: m })
            == "server error ("@ + decimal(status) + "): "@ + m,
        message_of(ErrorView::Internal(m)) == m,
        hint_of(ErrorView::User { code, message: m, hint }) == hint,
        hint_of(ErrorView::Conflict { message: m, hint }) == hint,
        hint_of(ErrorView::PlanLimit { message: m, hint }) == hint,
        hint_of(ErrorView::AuthRequired) is Some,
        hint_of(ErrorView::NotFound(m)) is None,
{
}

/// What failed in a repository is told behind the name of its kind.
pub proof fn law_what_failed_is_told_behind_its_kind(m: String)
    ensures
        backend_message(BackendError::NotFound(m)) == "not found: "@ + m@,
        backend_message(BackendError::Auth(m)) == "auth: "@ + m@,
        backend_message(BackendError::Network(m)) == "network: "@ + m@,
        backend_message(BackendError::Conflict(m)) == "conflict: "@ + m@,
        backend_message(BackendError::Invalid(m)) == "invalid: "@ + m@,
        backend_message(BackendError::Other(m)) == "backend: "@ + m@,
{
}

/// A run succeeds, fails or is given up, and is said to.
pub proof fn law_how_runs_end()
    ensures
        status_name(RunStatus::Succeeded) == "succeeded"@,
        status_name(RunStatus::Failed) == "failed"@,
        status_name(RunStatus::Aborted) == "aborted"@,
{
}

// ---------------------------------------------------------------------------
// Output
// ---------------------------------------------------------------------------

/// A path is shown with slashes, and without the mark that Windows puts before long ones.
pub proof fn law_paths_are_shown_with_slashes(p: Seq<char>)
    requires
        without_prefix(p, r"\\?\"@) is None,
    ensures
        shown_path(p).len() == p.len(),
        forall|i: int|
            0 <= i < p.len() ==> #[trigger] shown_path(p)[i] == (if p[i] == '\\' {
                '/'
            } else {
                p[i]
            }),
        shown_path(r"\\?\"@ + p).len() == p.len(),
        forall|i: int|
            0 <= i < p.len() ==> #[trigger] shown_path(r"\\?\"@ + p)[i] == (if p[i] == '\\' {
                '/'
            } else {
                p[i]
            }),
{
    law_a_start_comes_off(r"\\?\"@ + p, r"\\?\"@, p);
}

/// Texts stand in a list as they are, and one that is not there is told as nothing.
pub proof fn law_texts_are_told_as_they_are(s: Seq<Seq<char>>, t: Seq<char>, i: int)
    ensures
        text_values(s).len() == s.len(),
        0 <= i < s.len() ==> text_values(s)[i] == JsonView::Text(s[i]),
        text_or_null(Some(t)) == JsonView::Text(t),
        text_or_null(None) == JsonView::Null,
{
}

/// A name and a version stand on both sides of the first at-sign behind the start.
pub proof fn law_a_name_without_a_version(s: Seq<char>)
    requires
        lacks(s, '@'),
    ensures
        slug_parts(s) == (s, None::<Seq<char>>),
{
    crate::slug::law_parts_make_the_text(s);
    match slug_parts(s) {
        (name, Some(version)) => {
            assert(s[name.len() as int] == '@');
        },
        (name, None) => {},
    }
}

// ---------------------------------------------------------------------------
// Folders and ids
// ---------------------------------------------------------------------------

/// A file that is missing and one of white space alone are told of, each under its own code;
/// any other one is not.
pub proof fn law_missing_and_empty_files_are_told(name: Seq<char>, b: Seq<u8>)
    ensures
        file_issues(name, None).len() == 1,
        file_issues(name, None)[0].path == name,
        file_issues(name, None)[0].code == "FILE_MISSING"@,
        blank(b) ==> file_issues(name, Some(b)).len() == 1 && file_issues(name, Some(b))[0].path
            == name && file_issues(name, Some(b))[0].code == "FILE_EMPTY"@,
        !blank(b) ==> file_issues(name, Some(b)).len() == 0,
        blank(b) <==> forall|i: int|
            0 <= i < b.len() ==> #[trigger] b[i] == 32 || b[i] == 9 || b[i] == 10 || b[i] == 12
                || b[i] == 13,
{
    if blank(b) {
        assert forall|i: int| 0 <= i < b.len() implies #[trigger] b[i] == 32 || b[i] == 9 || b[i]
            == 10 || b[i] == 12 || b[i] == 13 by {
            assert(crate::skill_validators::blank_byte(b[i]));
        }
    }
}

/// Of a folder what is wrong with the skill file is told first and then what is wrong with
/// the file that describes it; of what is no folder only that.
pub proof fn law_both_files_are_looked_at(skill: Option<Seq<u8>>, meta: Option<Seq<u8>>)
    ensures
        folder_issues(true, skill, meta) == file_issues("SKILL.md"@, skill) + file_issues(
            "meta.knack.yaml"@,
            meta,
        ),
        folder_issues(false, skill, meta).len() == 1,
        folder_issues(false, skill, meta)[0].code == "DIR_MISSING"@,
{
}

/// All issues are told in one line, with semicolons between them, each behind its path where
/// it has one.
pub proof fn law_all_issues_are_told_in_one_line(s: Seq<IssueView>, lines: Seq<Seq<char>>)
    requires
        s.len() > 0,
        lines.len() == s.len(),
        forall|i: int|
            0 <= i < s.len() ==> #[trigger] lines[i] == (if s[i].path.len() == 0 {
                s[i].message
            } else {
                s[i].path + ": "@ + s[i].message
            }),
    ensures
        report_summary(s) == joined(lines, "; "@),
        report_summary(Seq::empty()) == "ok"@,
{
    assert forall|i: int| 0 <= i < s.len() implies #[trigger] lines[i] == issue_line(s[i]) by {}
    assert(lines =~= s.map_values(|i: IssueView| issue_line(i)));
}

/// An id is thirty-six characters in five groups with dashes between them, each group of
/// digits and the letters from a to f.
pub proof fn law_ids_are_in_five_groups(s: Seq<char>)
    requires
        is_id(s),
    ensures
        s.len() == 8 + 1 + 4 + 1 + 4 + 1 + 4 + 1 + 12,
        s[8] == '-' && s[13] == '-' && s[18] == '-' && s[23] == '-',
        forall|i: int|
            0 <= i < 36 && i != 8 && i != 13 && i != 18 && i != 23 ==> 48 <= #[trigger] s[i] as int
                <= 57 || 97 <= s[i] as int <= 102,
{
    assert forall|i: int| 0 <= i < 36 && i != 8 && i != 13 && i != 18 && i != 23 implies 48
        <= #[trigger] s[i] as int <= 57 || 97 <= s[i] as int <= 102 by {
        assert(crate::ids::hex_digit(s[i]));
    }
}

/// Bytes are told by two digits each, of base sixteen, the greater part first.
pub proof fn law_bytes_are_told_in_two_digits(data: Seq<u8>, i: int)
    requires
        0 <= i < data.len(),
    ensures
        hex_text(data).len() == 2 * data.len(),
        hex_value(hex_text(data)[2 * i]) * 16 + hex_value(hex_text(data)[2 * i + 1])
            == data[i] as int,
{
    assert((2 * i) / 2 == i);
    assert((2 * i) % 2 == 0);
    assert((2 * i + 1) / 2 == i);
    assert((2 * i + 1) % 2 == 1);
}

/// The value of a digit of base sixteen.
pub open spec fn hex_value(c: char) -> int {
    if 48 <= c as int <= 57 {
        c as int - 48
    } else {
        c as int - 97 + 10
    }
}

} // verus!
