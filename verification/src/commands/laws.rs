//! What single commands decide, said of what they are given.

use vstd::prelude::*;
use vstd::utf8::{encode_utf8, encode_utf8_decode_utf8, encode_utf8_valid_utf8};

use crate::api::auth::{poll_status_name, token_fields, PollStatus};
use crate::api::session::{is_personal, StoredCredential};
use crate::commands::auth::{
    bearer_in_play, duration_text, encodes, exp_of, from_now, gh_login_report, host_name, law_decoding_undoes_encoding, opt_int, patience_of, payload_of, poll_report,
    poll_step,
    renew_soon, sextet, shown_prefix, BearerSource, GhAnswer, GhAuthProbe, StepView,
    DEFAULT_PAT_TTL_DAYS,
};
use crate::commands::create::{
    create_next, is_slug, scope_error, slug_error, starter_files, CreateActionView, CreateArgs,
    CreateFacts,
};
use crate::commands::debug::{
    host_entry_of, host_in, hosts_of, known_hosts, some_tls, without_prefixes, ProbeResult,
    ProbeStage,
};
use crate::commands::feedback::{
    message_text, messages_text, minute_text, unread, Message, ThreadSummary,
};
use crate::commands::fetch::{fetch_next, version_wanted, FetchFacts, FetchView};
use crate::commands::init::{
    answer_means, checkout_path, gh_login, nonempty, owner_and_repo, repo_char, BackendChoice,
};
use crate::commands::interview::{
    fresh_session, kept, law_what_is_kept_is_found, phase_name, Phase, SessionView,
};
use crate::commands::run::{file_name_of, meta_version, push_flag, run_next, RunArgs, RunFacts, RunView};
use crate::commands::uninstall::{binary_path_of, block_lines, is_yes, next_step, UninstallArgs, UninstallStep};
use crate::config::below;
use crate::json::{field, json_parsed, text_or_null, text_values, JsonView};
use crate::numbers::{signed_decimal, zero_padded};
use crate::output::OutputMode;
use crate::slug::slug_parts;
use crate::text::laws::{
    lacks, law_a_start_comes_off, law_pieces_stand_between_separators, lemma_cut_first, lemma_cut_last, lemma_uncut,
};
use crate::text::{
    drop_trailing, has_prefix, has_suffix, is_white, lowercased, opt_view, pieces, trimmed, CharClass,
};
use crate::time::{second_of_day, Timestamp};
use crate::yaml::FieldView;

verus! {

// ---------------------------------------------------------------------------
// Feedback
// ---------------------------------------------------------------------------

proof fn lemma_unread(s: Seq<ThreadSummary>, n: int, p: spec_fn(ThreadSummary) -> bool)
    requires
        0 <= n <= s.len(),
        forall|x: ThreadSummary| #[trigger] p(x) == x.has_unread_admin_replies,
    ensures
        unread(s, n) == s.take(n).filter(p).len(),
    decreases n,
{
    reveal(Seq::filter);
    if n > 0 {
        lemma_unread(s, n - 1, p);
        assert(s.take(n).drop_last() =~= s.take(n - 1));
        assert(s.take(n).last() == s[n - 1]);
    } else {
        assert(s.take(0).filter(p) =~= seq![]);
    }
}

/// The threads with replies that were not read are counted.
pub proof fn law_unread_threads_are_counted(s: Seq<ThreadSummary>)
    ensures
        unread(s, s.len() as int) == s.filter(
            |x: ThreadSummary| x.has_unread_admin_replies,
        ).len(),
{
    let p = |x: ThreadSummary| x.has_unread_admin_replies;
    lemma_unread(s, s.len() as int, p);
    assert(s.take(s.len() as int) =~= s);
}

proof fn lemma_messages(s: Seq<Message>, n: int, parts: Seq<Seq<Seq<char>>>)
    requires
        0 <= n <= s.len(),
        parts.len() == s.len(),
        forall|i: int| 0 <= i < s.len() ==> #[trigger] parts[i] == message_text(s[i]),
    ensures
        messages_text(s, n) == parts.take(n).flatten(),
    decreases n,
{
    if n > 0 {
        lemma_messages(s, n - 1, parts);
        assert(parts.take(n) =~= parts.take(n - 1).push(parts[n - 1]));
        parts.take(n - 1).lemma_flatten_push(parts[n - 1]);
    } else {
        assert(parts.take(0) =~= seq![]);
    }
}

/// Every message of a thread is told, one behind the other.
pub proof fn law_every_message_is_told(s: Seq<Message>, parts: Seq<Seq<Seq<char>>>)
    requires
        parts.len() == s.len(),
        forall|i: int| 0 <= i < s.len() ==> #[trigger] parts[i] == message_text(s[i]),
    ensures
        messages_text(s, s.len() as int) == parts.flatten(),
{
    lemma_messages(s, s.len() as int, parts);
    assert(parts.take(parts.len() as int) =~= parts);
}

/// A moment is told by its day, its hour and its minute, each of the latter in two digits.
pub proof fn law_moments_are_told_to_the_minute(day: Seq<char>, t: Timestamp, h: int, m: int, s: int)
    requires
        0 <= h < 24,
        0 <= m < 60,
        0 <= s < 60,
        second_of_day(t) == h * 3600 + m * 60 + s,
    ensures
        minute_text(Some(day), t) == day + " "@ + zero_padded(h, 2) + ":"@ + zero_padded(m, 2)
            + " UTC"@,
{
    assert((h * 3600 + m * 60 + s) / 3600 == h);
    assert((h * 3600 + m * 60 + s) % 3600 == m * 60 + s);
    assert((m * 60 + s) / 60 == m);
}

// ---------------------------------------------------------------------------
// Hosts
// ---------------------------------------------------------------------------

/// The host of an address is what stands between the scheme and the next slash.
pub proof fn law_hosts_stand_behind_the_scheme(host: Seq<char>, rest: Seq<char>)
    requires
        lacks(host, '/'),
        host.len() > 0,
        !is_white(host[0]) && !is_white(host.last()),
        rest.len() == 0 || !is_white(rest.last()),
        host != "https:"@ && host != "http:"@,
    ensures
        host_in("https://"@ + host + "/"@ + rest) == host,
        host_in("http://"@ + host + "/"@ + rest) == host,
        host_in(host) == host,
{
    reveal_strlit("https://");
    reveal_strlit("http://");
    reveal_strlit("/");
    let tail = host + "/"@ + rest;
    let a = "https://"@ + tail;
    let b = "http://"@ + tail;
    assert("https://"@ + host + "/"@ + rest =~= a);
    assert("http://"@ + host + "/"@ + rest =~= b);
    assert(tail[0] == host[0]);
    assert(!is_white(tail.last())) by {
        if rest.len() > 0 {
            assert(tail.last() == rest.last());
        } else {
            assert(tail.last() == '/');
        }
    }
    assert(a.last() == tail.last() && b.last() == tail.last());
    lemma_bare(a);
    lemma_bare(b);
    lemma_bare(host);
    lemma_no_scheme(host, "/"@ + rest);
    assert(host + ("/"@ + rest) =~= tail);
    lemma_no_scheme(host, Seq::empty());
    assert(host + Seq::<char>::empty() =~= host);
    law_a_start_comes_off(a, "https://"@, tail);
    law_a_start_comes_off(b, "http://"@, tail);
    assert(a.skip(8) =~= tail);
    assert(b.skip(7) =~= tail);
    assert(!has_prefix(b, "https://"@)) by {
        if has_prefix(b, "https://"@) {
            assert(b.take(8)[4] == b[4]);
        }
    }
    assert(without_prefixes(a, "https://"@) == without_prefixes(tail, "https://"@));
    assert(without_prefixes(b, "https://"@) == b);
    assert(without_prefixes(b, "http://"@) == without_prefixes(tail, "http://"@));
    lemma_cut_first(host, "/"@, rest);
    lemma_uncut(host, "/"@);
}

proof fn lemma_bare(s: Seq<char>)
    requires
        s.len() > 0,
        !is_white(s[0]),
        !is_white(s.last()),
    ensures
        trimmed(s) == s,
{
    assert(crate::text::drop_leading(s, CharClass::White) == s);
    assert(drop_trailing(s, CharClass::White) == s);
}

proof fn lemma_no_scheme(host: Seq<char>, more: Seq<char>)
    requires
        lacks(host, '/'),
        host != "https:"@ && host != "http:"@,
        more.len() == 0 || more[0] == '/',
    ensures
        without_prefixes(host + more, "https://"@) == host + more,
        without_prefixes(host + more, "http://"@) == host + more,
{
    reveal_strlit("https://");
    reveal_strlit("http://");
    reveal_strlit("https:");
    reveal_strlit("http:");
    let s = host + more;
    if has_prefix(s, "https://"@) {
        lemma_scheme(s, host, more, "https://"@, 6);
        assert(host =~= "https:"@);
    }
    if has_prefix(s, "http://"@) {
        lemma_scheme(s, host, more, "http://"@, 5);
        assert(host =~= "http:"@);
    }
}

/// A text with a scheme before it goes on with a slash where the scheme ends.
proof fn lemma_scheme(s: Seq<char>, host: Seq<char>, more: Seq<char>, p: Seq<char>, n: int)
    requires
        s == host + more,
        lacks(host, '/'),
        more.len() == 0 || more[0] == '/',
        has_prefix(s, p),
        0 <= n < p.len(),
        p[n] == '/',
        forall|i: int| 0 <= i < n ==> #[trigger] p[i] != '/',
    ensures
        host == p.take(n),
{
    assert forall|i: int| 0 <= i <= n implies s[i] == p[i] by {
        assert(s.take(p.len() as int)[i] == s[i]);
    }
    if host.len() < n {
        assert(s[host.len() as int] == more[0]);
        assert(p[host.len() as int] != '/');
    } else if host.len() > n {
        assert(s[n] == host[n]);
    }
    assert(host =~= p.take(n));
}

/// The hosts that are known without asking: that of the interface, that of the site and
/// that of the installer.
pub proof fn law_three_hosts_are_known(base: Seq<char>)
    ensures
        ({
            let h = known_hosts(base);
            &&& h.len() == 3
            &&& h[0].0 == host_in(base)
            &&& h[1].0 == "getknack.ai"@
            &&& h[2].0 == "cli.getknack.ai"@
        }),
{
}

/// One probe that failed in the handshake is enough to tell of it.
pub proof fn law_one_failed_handshake_is_told(results: Seq<ProbeResult>, i: int)
    requires
        0 <= i < results.len(),
        results[i].stage == ProbeStage::Tls,
    ensures
        some_tls(results),
{
}

// ---------------------------------------------------------------------------
// Creating
// ---------------------------------------------------------------------------

/// A slug is one to a hundred small letters, digits and dashes, of which the first is no
/// dash. Exactly such a text is accepted.
pub proof fn law_slugs_are_small_letters_digits_and_dashes(s: Seq<char>)
    ensures
        slug_error(s) is None <==> {
            &&& 1 <= s.len() <= 100
            &&& s[0] != '-'
            &&& forall|i: int|
                0 <= i < s.len() ==> 97 <= #[trigger] s[i] as int <= 122 || 48 <= s[i] as int <= 57
                    || s[i] as int == 45
        },
{
    crate::commands::create::law_slugs_are_accepted(s);
    if is_slug(s) {
        assert forall|i: int| 0 <= i < s.len() implies 97 <= #[trigger] s[i] as int <= 122 || 48
            <= s[i] as int <= 57 || s[i] as int == 45 by {
            assert(crate::commands::create::slug_char(s[i]));
        }
    } else if 1 <= s.len() <= 100 && s[0] != '-' && (forall|i: int|
        0 <= i < s.len() ==> 97 <= #[trigger] s[i] as int <= 122 || 48 <= s[i] as int <= 57
            || s[i] as int == 45) {
        assert(97 <= s[0] as int <= 122 || 48 <= s[0] as int <= 57 || s[0] as int == 45);
        assert forall|i: int| 0 <= i < s.len() implies crate::commands::create::slug_char(
            #[trigger] s[i],
        ) by {}
        assert(false);
    }
}

/// A team's skill needs a team, and no other one may have one; there are three scopes.
pub proof fn law_only_teams_own_for_a_team(scope: Seq<char>, has_team: bool)
    ensures
        scope_error(scope, has_team) is None <==> (scope == "team"@ && has_team) || ((scope
            == "personal"@ || scope == "public"@) && !has_team),
{
    reveal_strlit("team");
    reveal_strlit("personal");
    reveal_strlit("public");
    assert("team"@.len() == 4 && "personal"@.len() == 8 && "public"@.len() == 6);
}

/// A skill is asked for under its slug, its name, its scope and its team; what is made is
/// written to a folder only where that is asked for and the folder is empty.
pub proof fn law_skills_are_created_as_asked(args: CreateArgs, dir: Seq<char>, f: CreateFacts)
    requires
        slug_error(args.slug@) is None,
        scope_error(args.scope@, args.team_id is Some) is None,
    ensures
        f.created is None ==> create_next(args, dir, f) == (CreateActionView::Post {
            slug: args.slug@,
            name: args.name@,
            scope: Some(args.scope@),
            team: match args.team_id {
                Some(t) => Some(t@),
                None => None,
            },
        }),
        f.created matches Some(Err(e)) ==> create_next(args, dir, f) == CreateActionView::Fail(e@),
        f.created is Some && f.created->0 is Ok ==> {
            &&& args.no_scaffold ==> create_next(args, dir, f) is Done
            &&& !args.no_scaffold && f.email is None ==> create_next(args, dir, f) is AskMe
            &&& !args.no_scaffold && f.email is Some && f.email->0 is Ok && f.written is None ==> {
                &&& f.has_content ==> create_next(args, dir, f) is Fail
                &&& !f.has_content ==> (create_next(args, dir, f) matches CreateActionView::Write(
                    files,
                ) && files == starter_files(
                    (f.created->0)->Ok_0.id@,
                    args.slug@,
                    args.name@,
                    match args.description {
                        Some(d) => d@,
                        None => args.name@ + " — describe what it does in one line."@,
                    },
                    (f.email->0)->Ok_0@,
                ))
            }
            &&& !args.no_scaffold && f.email is Some && f.email->0 is Ok && f.written is Some
                && f.written->0 is Ok ==> create_next(args, dir, f) is Done
        },
{
}

/// A new skill has three files: the skill itself, with its name and what it is for, what is
/// said of it, with its id, its name, its slug and its author, and a place for examples.
pub proof fn law_new_skills_have_three_files(
    id: Seq<char>,
    slug: Seq<char>,
    name: Seq<char>,
    description: Seq<char>,
    author: Seq<char>,
)
    ensures
        ({
            let s = starter_files(id, slug, name, description, author);
            &&& s.len() == 3
            &&& s[0].path == "SKILL.md"@ && s[1].path == "meta.knack.yaml"@ && s[2].path
                == "examples/README.md"@
            &&& s[1].content == "id: "@ + id + "\nname: \""@ + name + "\"\nslug: "@ + slug
                + "\nauthor: "@ + author + "\n"@
            &&& has_prefix(
                s[0].content,
                "---\nname: "@ + name + "\ndescription: "@ + description,
            )
        }),
{
    let s = starter_files(id, slug, name, description, author)[0].content;
    let front = "---\nname: "@ + name + "\ndescription: "@ + description;
    assert(s.take(front.len() as int) =~= front);
}

// ---------------------------------------------------------------------------
// Running
// ---------------------------------------------------------------------------

/// The name of a file is what stands behind the last slash of its path, with slashes at the
/// end or none.
pub proof fn law_names_stand_behind_the_last_slash(dir: Seq<char>, name: Seq<char>)
    requires
        lacks(name, '/'),
        name.len() > 0,
        name != "."@,
        name != ".."@,
    ensures
        file_name_of(name) == Some(name),
        file_name_of(dir + "/"@ + name) == Some(name),
        file_name_of(dir + "/"@ + name + "/"@) == Some(name),
{
    reveal_strlit("/");
    reveal_strlit("/.");
    reveal_strlit(".");
    reveal_strlit("..");
    let s = dir + "/"@ + name;
    let one = CharClass::One('/');
    assert(name.last() != '/');
    assert(s.last() == name.last());
    assert(drop_trailing(s, one) == s);
    assert(drop_trailing(name, one) == name);
    let t = s + "/"@;
    assert(t.drop_last() =~= s);
    assert(t.last() == '/');
    assert(drop_trailing(t, one) == drop_trailing(s, one));
    assert(!has_suffix(name, "/."@)) by {
        if has_suffix(name, "/."@) {
            assert(name.skip(name.len() - 2)[0] == name[name.len() - 2]);
        }
    }
    assert(!has_suffix(s, "/."@)) by {
        if has_suffix(s, "/."@) {
            assert(s.skip(s.len() - 2)[0] == s[s.len() - 2]);
            assert(s.skip(s.len() - 2)[1] == s[s.len() - 1]);
            if name.len() >= 2 {
                assert(s[s.len() - 2] == name[name.len() - 2]);
            } else {
                assert(name =~= "."@);
            }
        }
    }
    lemma_uncut(name, "/"@);
    lemma_cut_last(dir, "/"@, name);
}

/// A run is of the version that is asked for, or of the current one; it starts with the
/// agent, the runtime and the files that it is given.
pub proof fn law_runs_start_in_the_version_asked_for(args: RunArgs, f: RunFacts)
    requires
        f.skill matches Some(Ok(Some(_))),
        f.started is None,
    ensures
        ({
            let s = (f.skill->0)->Ok_0->0;
            let runtime = match args.runtime {
                Some(t) => t@,
                None => "agent"@,
            };
            &&& slug_parts(args.slug@).1 matches Some(v) ==> {
                &&& f.version_id is None ==> run_next(args, f) == (RunView::GetVersion {
                    skill_id: s.id@,
                    version: v,
                })
                &&& f.version_id is Some && f.version_id->0 is Ok ==> (run_next(
                    args,
                    f,
                ) matches RunView::Start { version_id, agent_id, runtime: r, inputs } && version_id
                    == (f.version_id->0)->Ok_0@ && r == runtime && agent_id == opt_view(
                    args.agent_id,
                ))
            }
            &&& slug_parts(args.slug@).1 is None ==> {
                &&& s.current_version_id is Some ==> (run_next(args, f) matches RunView::Start {
                    version_id,
                    agent_id,
                    runtime: r,
                    inputs,
                } && version_id == s.current_version_id->0@ && r == runtime && agent_id == opt_view(
                    args.agent_id,
                ) && (inputs is None <==> args.input@.len() == 0))
                &&& s.current_version_id is None ==> (run_next(args, f) matches RunView::Fail(e)
                    && e is NotFound)
            }
        }),
{
}

/// A run is pushed unless a flag or the workspace speaks against it.
pub proof fn law_runs_are_pushed_unless_told_not_to(no_push: bool, b: bool)
    ensures
        push_flag(true, Ok(Some(b))) == Ok::<bool, Seq<char>>(false),
        push_flag(false, Ok(Some(b))) == Ok::<bool, Seq<char>>(b),
        push_flag(false, Ok(None)) == Ok::<bool, Seq<char>>(true),
{
}

/// The version of a skill is the one that its file states, where that is text.
pub proof fn law_the_version_of_a_skill_is_stated(v: Seq<char>)
    ensures
        meta_version(Some(Ok(FieldView::Text(v)))) == v,
        meta_version(None) == "0.0.0"@,
{
}

// ---------------------------------------------------------------------------
// Signing in
// ---------------------------------------------------------------------------

/// The sixty-four characters of the alphabet for addresses, in order: the capital letters,
/// the small ones, the digits, the dash and the underscore. No other one has a value.
pub proof fn law_the_alphabet_for_addresses(k: int, c: u8)
    ensures
        0 <= k < 26 ==> sextet((65 + k) as u8) == Some(k),
        0 <= k < 26 ==> sextet((97 + k) as u8) == Some(26 + k),
        0 <= k < 10 ==> sextet((48 + k) as u8) == Some(52 + k),
        sextet(45) == Some(62int),
        sextet(95) == Some(63int),
        sextet(c) matches Some(n) ==> 0 <= n < 64,
        sextet(c) is None <==> !(65 <= c <= 90) && !(97 <= c <= 122) && !(48 <= c <= 57) && c != 45
            && c != 95,
{
}

/// A duration is told in the two greatest units that it has.
pub proof fn law_durations_are_told_in_two_units(d: int, h: int, m: int, s: int)
    requires
        0 <= d,
        0 <= h < 24,
        0 <= m < 60,
        0 <= s < 60,
    ensures
        ({
            let all = d * 86400 + h * 3600 + m * 60 + s;
            &&& d > 0 ==> duration_text(all) == signed_decimal(d) + "d "@ + signed_decimal(h)
                + "h"@
            &&& d == 0 && h > 0 ==> duration_text(all) == signed_decimal(h) + "h "@
                + signed_decimal(m) + "m"@
            &&& d == 0 && h == 0 && m > 0 ==> duration_text(all) == signed_decimal(m) + "m "@
                + signed_decimal(s) + "s"@
            &&& d == 0 && h == 0 && m == 0 && s > 0 ==> duration_text(all) == signed_decimal(s)
                + "s"@
            &&& all == 0 ==> duration_text(all) == "0s"@
        }),
{
    let all = d * 86400 + h * 3600 + m * 60 + s;
    assert(all / 86400 == d);
    assert(all % 86400 == h * 3600 + m * 60 + s);
    assert((h * 3600 + m * 60 + s) / 3600 == h);
    assert((h * 3600 + m * 60 + s) % 3600 == m * 60 + s);
    assert((m * 60 + s) / 60 == m);
    assert((m * 60 + s) % 60 == s);
}

/// Approval is waited for as long as the server says, but no less than a minute and no more
/// than an hour.
pub proof fn law_patience_has_its_bounds(n: int)
    ensures
        60 <= patience_of(n) <= 3600,
        60 <= n <= 3600 ==> patience_of(n) == n,
        n < 60 ==> patience_of(n) == 60,
        n > 3600 ==> patience_of(n) == 3600,
{
}

/// Who approved is signed in with the token; who has not yet is asked again, later where the
/// server says so; any other answer ends it.
pub proof fn law_approval_signs_in(token: Seq<char>, access: Option<Seq<char>>)
    requires
        token.len() > 0,
    ensures
        poll_step(PollStatus::Approved, Some(token)) == StepView::Mint(token),
        poll_step(PollStatus::Approved, None) is Fail,
        poll_step(PollStatus::AuthorizationPending, access) is Ask,
        poll_step(PollStatus::SlowDown, access) is AskLater,
        poll_step(PollStatus::Denied, access) is Fail,
        poll_step(PollStatus::Expired, access) is Fail,
{
}

/// The name of the machine is the first one that the environment gives.
pub proof fn law_the_first_name_of_the_machine_counts(
    a: Seq<char>,
    b: Option<Seq<char>>,
    c: Option<Seq<char>>,
)
    ensures
        host_name(Some(a), b, c) == a,
        host_name(None, Some(a), c) == a,
        host_name(None, None, Some(a)) == a,
        host_name(None, None, None) == "unknown"@,
{
}

/// What is given counts before what is kept, and that before what is of old; a personal
/// token is told from another one.
pub proof fn law_the_bearer_that_counts(
    t: Seq<char>,
    stored: Option<StoredCredential>,
    c: StoredCredential,
    legacy: Option<Seq<char>>,
    old_token: Seq<char>,
    now: int,
)
    ensures
        bearer_in_play(Some(t), stored, legacy, now) matches Some(b) && b.source == (
        if is_personal(t) {
            BearerSource::PatEnv
        } else {
            BearerSource::JwtEnv
        }) && b.token_id is None && (is_personal(t) ==> b.expires_in_secs is None),
        bearer_in_play(None, Some(c), legacy, now) matches Some(b) && b.source == (if is_personal(
            c.token@,
        ) {
            BearerSource::PatFile
        } else {
            BearerSource::JwtFile
        }) && (is_personal(c.token@) ==> b.token_id == opt_view(c.token_id) && b.expires_in_secs
            == from_now(opt_int(c.expires_at), now)),
        bearer_in_play(None, None, Some(old_token), now) matches Some(b) && b.source
            == BearerSource::KeyringJwt && b.expires_in_secs == from_now(exp_of(old_token), now),
        bearer_in_play(None, None, None, now) is None,
{
}

/// A signed token says what its second part encodes, whatever stands before and behind that
/// part; its expiry is the number that this text has under `exp`. A token of one part says
/// nothing.
pub proof fn law_a_token_says_what_its_second_part_encodes(
    header: Seq<char>,
    body: Seq<char>,
    signature: Seq<char>,
    text: Seq<char>,
    v: JsonView,
    n: int,
)
    requires
        lacks(header, '.'),
        lacks(body, '.'),
        encodes(encode_utf8(body), encode_utf8(text)),
    ensures
        payload_of(header + "."@ + (body + "."@ + signature)) == Some(text),
        payload_of(header + "."@ + body) == Some(text),
        payload_of(header) is None,
        json_parsed(text) == Ok::<JsonView, Seq<char>>(v) && field(v, "exp"@) == Some(
            JsonView::Int(n),
        ) && i64::MIN <= n <= i64::MAX ==> exp_of(header + "."@ + (body + "."@ + signature))
            == Some(n),
        json_parsed(text) is Err ==> exp_of(header + "."@ + body) is None,
        exp_of(header) is None,
{
    reveal_strlit(".");
    law_decoding_undoes_encoding(encode_utf8(body), encode_utf8(text));
    encode_utf8_valid_utf8(text);
    encode_utf8_decode_utf8(text);
    law_pieces_stand_between_separators(header, "."@, body + "."@ + signature);
    law_pieces_stand_between_separators(header, "."@, body);
    law_pieces_stand_between_separators(body, "."@, signature);
    let long = pieces(header + "."@ + (body + "."@ + signature), "."@);
    let short = pieces(header + "."@ + body, "."@);
    assert(long[1] == body && short[1] == body);
}

/// The time left is the difference to now, where it fits.
pub proof fn law_time_left_is_the_difference(e: int, now: int)
    requires
        i64::MIN <= e - now <= i64::MAX,
    ensures
        from_now(Some(e), now) == Some(e - now),
        from_now(None, now) is None,
{
}

/// A session with less than a day left is to be renewed soon; a personal token never is.
pub proof fn law_sessions_are_renewed_on_their_last_day(s: BearerSource, n: int)
    ensures
        renew_soon(s, Some(n)) <==> (s is JwtFile || s is KeyringJwt) && 0 < n < 86400,
        !renew_soon(s, None),
{
}

/// Of a personal token sixteen characters are shown, and of another one none.
pub proof fn law_starts_of_personal_tokens_are_shown(t: Seq<char>)
    ensures
        !is_personal(t) ==> shown_prefix(t) is None,
        is_personal(t) ==> (shown_prefix(t) matches Some(p) && p.len() <= 16 && p == t.take(
            p.len() as int,
        ) && (p.len() < 16 ==> p == t)),
{
    if is_personal(t) {
        let p = shown_prefix(t)->0;
        assert(p =~= t.take(p.len() as int));
    }
}

// ---------------------------------------------------------------------------
// Fetching
// ---------------------------------------------------------------------------

/// The version that is asked for is fetched, else the current one.
pub proof fn law_the_version_asked_for_is_fetched(spec: Seq<char>, current: Option<Seq<char>>)
    ensures
        slug_parts(spec).1 matches Some(v) ==> version_wanted(spec, current) == Some(v),
        slug_parts(spec).1 is None ==> version_wanted(spec, current) == current,
{
}

/// A version is fetched step by step: what it is, a folder for it, and then its archive or,
/// where it has none, its texts.
pub proof fn law_versions_are_fetched_step_by_step(
    id: Seq<char>,
    version: Seq<char>,
    f: FetchFacts,
)
    ensures
        f.version is None ==> fetch_next(id, version, f) == (FetchView::GetVersion {
            skill_id: id,
            version,
        }),
        f.version is Some && f.version->0 is Ok && f.folder is None ==> fetch_next(id, version, f)
            is MakeFolder,
        f.version is Some && f.version->0 is Ok && f.folder is Some && f.folder->0 is Ok ==> {
            let v = (f.version->0)->Ok_0;
            let next = fetch_next(id, version, f);
            &&& !v.packed && f.written is None ==> next is WriteTexts
            &&& !v.packed && f.written is Some && f.written->0 is Ok ==> next is Done
            &&& v.packed && f.link is None ==> next == (FetchView::AskLink {
                skill_id: id,
                version: v.version@,
            })
            &&& v.packed && f.link is Some && f.link->0 is Ok ==> {
                &&& f.answered is None ==> next == (FetchView::Download {
                    url: (f.link->0)->Ok_0@,
                })
                &&& f.answered is Some && f.answered->0 is Ok ==> {
                    let status = (f.answered->0)->Ok_0;
                    &&& !(200 <= status <= 299) ==> next is Fail
                    &&& 200 <= status <= 299 && f.unpacked is None ==> next is Unpack
                    &&& 200 <= status <= 299 && f.unpacked is Some && f.unpacked->0 is Ok ==> next
                        is Done
                }
            }
        },
{
}

// ---------------------------------------------------------------------------
// Setting up and taking down
// ---------------------------------------------------------------------------

/// An answer chooses where skills are kept: the first choice by its number or its name, the
/// second one so too, and by no answer at all.
pub proof fn law_no_answer_means_the_cloud(line: Seq<char>)
    ensures
        trimmed(line) == "1"@ || trimmed(line) == "github"@ || trimmed(line) == "gh"@
            ==> answer_means(line) == Some(BackendChoice::SelfHost),
        trimmed(line).len() == 0 ==> answer_means(line) == Some(BackendChoice::Cloud),
        answer_means(line) == Some(BackendChoice::Cloud) ==> trimmed(line).len() == 0 || trimmed(
            line,
        ) == "2"@ || trimmed(line) == "cloud"@,
        answer_means(line) is None ==> trimmed(line) != "2"@ && trimmed(line) != "cloud"@,
{
    reveal_strlit("1");
    reveal_strlit("github");
    reveal_strlit("gh");
    assert("1"@.len() == 1 && "github"@.len() == 6 && "gh"@.len() == 2);
}

/// A repository is named by its owner and its name, with a slash between them, and neither
/// is empty.
pub proof fn law_repositories_have_owner_and_name(owner: Seq<char>, repo: Seq<char>, s: Seq<char>)
    requires
        lacks(owner, '/'),
        lacks(s, '/'),
    ensures
        owner_and_repo(owner + "/"@ + repo) == (if owner.len() > 0 && repo.len() > 0 {
            Some((owner, repo))
        } else {
            None
        }),
        owner_and_repo(s) is None,
{
    reveal_strlit("/");
    lemma_cut_first(owner, "/"@, repo);
    lemma_uncut(s, "/"@);
}

/// The names of repositories are of letters, digits, dashes, underscores and dots.
pub proof fn law_repository_names(c: char)
    ensures
        repo_char(c) <==> {
            let n = c as int;
            97 <= n <= 122 || 65 <= n <= 90 || 48 <= n <= 57 || n == 45 || n == 95 || n == 46
        },
{
}

/// Who is signed in at GitHub is who the tool prints; where it prints nobody, whom the
/// environment names.
pub proof fn law_the_tool_tells_who_is_signed_in(t: String, env: Option<Seq<char>>)
    ensures
        gh_login(GhAnswer::Printed(t), env) == (if trimmed(t@).len() > 0 {
            Some(trimmed(t@))
        } else if env is Some && env->0.len() > 0 {
            env
        } else {
            None
        }),
        nonempty(None) is None,
{
}

/// The clone is where it is asked for; else in the home directory, under the repository's
/// name.
pub proof fn law_clones_stand_where_asked(
    given: Seq<char>,
    home: Option<Seq<char>>,
    at: Seq<char>,
    repo: Seq<char>,
)
    ensures
        checkout_path(Some(given), home, repo) == given,
        checkout_path(None, Some(at), repo) == below(at, repo),
        checkout_path(None, None, repo) == below("."@, repo),
{
}

/// Telling of the script and rehearsing come first; else what is confirmed, or needs no
/// answer, is removed, and what is refused is not.
pub proof fn law_uninstalling_is_confirmed(args: UninstallArgs, mode: OutputMode, answer: Option<bool>)
    ensures
        args.script ==> next_step(args, mode, answer) is TellScript,
        !args.script && args.print ==> next_step(args, mode, answer) is Rehearse,
        !args.script && !args.print && (args.yes || mode.json || mode.quiet || answer == Some(true))
            ==> next_step(args, mode, answer) == (UninstallStep::Remove { auth: !args.keep_auth }),
        !args.script && !args.print && !args.yes && !mode.json && !mode.quiet && answer is None
            ==> next_step(args, mode, answer) is AskFirst,
        !args.script && !args.print && !args.yes && !mode.json && !mode.quiet && answer == Some(
            false,
        ) ==> next_step(args, mode, answer) is Abort,
{
}

/// Yes is said with one letter or in full, in either case of letters.
pub proof fn law_yes_is_said_in_two_ways(line: Seq<char>)
    ensures
        is_yes(line) <==> lowercased(trimmed(line)) == "y"@ || lowercased(trimmed(line)) == "yes"@,
{
}

/// The program stands below the directory of applications on Windows, and below the home
/// directory elsewhere.
pub proof fn law_where_the_program_stands(dir: Seq<char>, other: Option<Seq<char>>)
    ensures
        binary_path_of(true, Some(dir), other) == Some(below(dir, "knack/bin/knack.exe"@)),
        binary_path_of(false, other, Some(dir)) == Some(below(dir, ".local/bin/knack"@)),
        binary_path_of(true, None, other) is None,
        binary_path_of(false, other, None) is None,
{
}

// ---------------------------------------------------------------------------
// What is told of signing in
// ---------------------------------------------------------------------------

/// What is asked of the server for a token: its name, how long it lives or that it never
/// dies, and what it is for, each where it is given.
pub proof fn law_tokens_are_asked_for_as_given(name: Seq<char>, days: i64, scopes: Seq<Seq<char>>)
    requires
        scopes.len() > 0,
    ensures
        token_fields(name, Some(days), false, scopes) == seq![
            ("name"@, Some(JsonView::Text(name))),
            ("expires_in_days"@, Some(JsonView::Int(days as int))),
            ("never_expire"@, None),
            ("scopes"@, Some(JsonView::Array(text_values(scopes)))),
        ],
        token_fields(name, None, true, Seq::empty()) == seq![
            ("name"@, Some(JsonView::Text(name))),
            ("expires_in_days"@, None),
            ("never_expire"@, Some(JsonView::Bool(true))),
            ("scopes"@, None),
        ],
        DEFAULT_PAT_TTL_DAYS == 90,
{
}

/// A poll tells whether it was approved, and the five answers by their names.
pub proof fn law_polls_tell_whether_they_are_approved(
    status: PollStatus,
    email: Option<Seq<char>>,
    prefix: Option<Seq<char>>,
)
    ensures
        poll_report(status, email, prefix) matches JsonView::Object(m) && {
            &&& m.contains(("approved"@, JsonView::Bool(status is Approved)))
            &&& m.contains(("email"@, text_or_null(email)))
            &&& m.contains(("token_prefix"@, text_or_null(prefix)))
        },
        poll_status_name(PollStatus::AuthorizationPending) == "authorization_pending"@,
        poll_status_name(PollStatus::Approved) == "approved"@,
        poll_status_name(PollStatus::Denied) == "denied"@,
        poll_status_name(PollStatus::Expired) == "expired"@,
        poll_status_name(PollStatus::SlowDown) == "slow_down"@,
{
    let m = poll_report(status, email, prefix)->Object_0;
    assert(m[1] == ("approved"@, JsonView::Bool(status is Approved)));
    assert(m[2] == ("email"@, text_or_null(email)));
    assert(m[3] == ("token_prefix"@, text_or_null(prefix)));
}

/// Who is signed in at GitHub needs to do nothing more, and anybody else does.
pub proof fn law_signed_in_needs_nothing(p: GhAuthProbe)
    ensures
        gh_login_report(p) matches JsonView::Object(m) && {
            &&& m.contains(("needs_signin"@, JsonView::Bool(false)))
            &&& m.contains(("needs_action"@, JsonView::Bool(!(p is Authenticated))))
            &&& m.contains(
                (
                    "gh_user"@,
                    match p {
                        GhAuthProbe::Authenticated { user } => JsonView::Text(user@),
                        _ => JsonView::Null,
                    },
                ),
            )
        },
{
    let m = gh_login_report(p)->Object_0;
    assert(m[1] == ("needs_signin"@, JsonView::Bool(false)));
    assert(m[3].0 == "gh_user"@);
    assert(m.contains(m[3]));
    assert(m[4] == ("needs_action"@, JsonView::Bool(!(p is Authenticated))));
}

/// The first of two values counts where it is given.
pub proof fn law_what_is_given_first_counts(a: Seq<char>, b: Option<Seq<char>>)
    ensures
        crate::commands::mark::either(Some(a), b) == Some(a),
        crate::commands::mark::either(None, b) == b,
{
}

/// Hosts are read from a list under its key, each with what it is for or nothing; all of them
/// or none.
pub proof fn law_hosts_are_read_whole(
    v: JsonView,
    s: Seq<JsonView>,
    hosts: Seq<(Seq<char>, Seq<char>)>,
)
    requires
        field(v, "hosts"@) == Some(JsonView::Array(s)),
        s.len() == hosts.len(),
        forall|i: int| 0 <= i < s.len() ==> host_entry_of(#[trigger] s[i]) == Some(hosts[i]),
    ensures
        hosts_of(v) == Some(hosts),
{
    assert(hosts =~= Seq::new(s.len(), |i: int| host_entry_of(s[i])->0));
}

/// A host is read with its name, and with what it is for where that is told.
pub proof fn law_a_host_has_a_name(v: JsonView, name: Seq<char>, purpose: Seq<char>)
    requires
        field(v, "host"@) == Some(JsonView::Text(name)),
    ensures
        field(v, "purpose"@) == Some(JsonView::Text(purpose)) ==> host_entry_of(v) == Some(
            (name, purpose),
        ),
        field(v, "purpose"@) is None ==> host_entry_of(v) == Some((name, Seq::<char>::empty())),
{
}

/// Each block that was removed has its line, and each file.
pub proof fn law_each_removed_block_has_its_line(blocks: Seq<(Seq<char>, Seq<char>)>, i: int)
    ensures
        block_lines(blocks).len() == blocks.len(),
        0 <= i < blocks.len() ==> block_lines(blocks)[i] == "Removed "@ + blocks[i].0 + " block: "@
            + blocks[i].1,
{
}

/// A session starts at the first phase and holds nothing yet; what is kept in a phase stands
/// under its name.
pub proof fn law_sessions_start_empty(
    id: Seq<char>,
    s: SessionView,
    phase: Phase,
    v: JsonView,
    m: Seq<(Seq<char>, JsonView)>,
)
    requires
        s.data == JsonView::Object(m),
    ensures
        fresh_session(id).id == id,
        fresh_session(id).phase == Phase::Genesis,
        fresh_session(id).data == JsonView::Object(Seq::empty()),
        kept(s, phase, Ok(v)) matches Some(t) && t.id == s.id && t.phase == s.phase && field(
            t.data,
            phase_name(phase),
        ) == Some(v),
{
    law_what_is_kept_is_found(m, phase_name(phase), v, Seq::empty());
}

} // verus!
