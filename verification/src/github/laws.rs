//! Which remote, which repository and which files are meant, said of the texts themselves.

use vstd::prelude::*;

use crate::config::below;
use crate::github::bootstrap::{missing, names_repo, scaffolding, NewFileView};
use crate::github::external::{
    entries_in, entries_work, entry_in, file_at, named_skill, spec_of, version_cut, version_shown, ContentView,
    SpecView, WorkView,
};
use crate::github::git::{
    branch_in_ref, default_branch, names_in, owner_repo, remote_name, remotes_in, without_suffixes,
};
use crate::github::runs::{day_path, event_fields, push_disabled, EventView};
use crate::github::workspace::{auto_push_of, policy, PushPolicy};
use crate::json::{field, text_values, JsonView};
use crate::numbers::zero_padded;
use crate::picks::{lemma_picked, positions};
use crate::text::laws::{
    lacks, law_a_start_comes_off, law_the_last_place_is_found, lemma_cut_first, lemma_cut_last,
    lemma_uncut,
};
use crate::text::{
    cut_last, drop_leading, drop_trailing, find_last, has_suffix, is_white, lines_of, trimmed,
    without_prefix, CharClass,
};
use crate::types::SkillFile;
use crate::yaml::FieldView;

verus! {

// ---------------------------------------------------------------------------
// Remotes
// ---------------------------------------------------------------------------

proof fn lemma_names(s: Seq<Seq<char>>, n: int, f: spec_fn(int) -> Option<Seq<char>>)
    requires
        0 <= n <= s.len(),
        forall|i: int| #[trigger]
            f(i) == (if trimmed(s[i]).len() > 0 {
                Some(trimmed(s[i]))
            } else {
                None
            }),
    ensures
        names_in(s, n) == positions(n).filter_map(f),
    decreases n,
{
    lemma_picked(n, f);
    if n > 0 {
        lemma_names(s, n - 1, f);
    }
}

/// The remotes are the lines of the listing that are not blank, without the white space
/// round them, in order.
pub proof fn law_each_line_names_a_remote(listing: Seq<char>)
    ensures
        remotes_in(listing) == positions(lines_of(listing).len() as int).filter_map(
            |i: int|
                if trimmed(lines_of(listing)[i]).len() > 0 {
                    Some(trimmed(lines_of(listing)[i]))
                } else {
                    None
                },
        ),
{
    let f = |i: int|
        if trimmed(lines_of(listing)[i]).len() > 0 {
            Some(trimmed(lines_of(listing)[i]))
        } else {
            None
        };
    lemma_names(lines_of(listing), lines_of(listing).len() as int, f);
}

/// The only remote is the one that counts, whatever it is called; among several, and without
/// any, `origin` does. An empty name in the environment names none.
pub proof fn law_the_only_remote_counts(listing: Seq<char>)
    ensures
        ({
            let one = if remotes_in(listing).len() == 1 {
                remotes_in(listing)[0]
            } else {
                "origin"@
            };
            &&& remote_name(None, Some(listing)) == one
            &&& remote_name(Some(Seq::<char>::empty()), Some(listing)) == one
        }),
        remote_name(None, None) == "origin"@,
{
}

/// The branch is the one that the remote points to; else, of a repository at GitHub, the one
/// that it tells; else `main`.
pub proof fn law_the_remote_points_to_the_branch(
    remote: Seq<char>,
    printed: Seq<char>,
    branch: Seq<char>,
    url: Option<Seq<char>>,
    gh: Option<Seq<char>>,
)
    requires
        trimmed(printed) == remote + "/"@ + branch,
        branch.len() > 0,
    ensures
        branch_in_ref(remote, printed) == Some(branch),
        default_branch(None, remote, Some(printed), url, gh) == branch,
        default_branch(None, remote, None, url, gh) == (if url is Some && owner_repo(url->0) is Some
            && gh is Some && trimmed(gh->0).len() > 0 {
            trimmed(gh->0)
        } else {
            "main"@
        }),
{
    law_a_start_comes_off(trimmed(printed), remote + "/"@, branch);
    assert(trimmed(printed) =~= (remote + "/"@) + branch);
}

/// A text that neither starts nor ends with white space, and does not end with a slash or
/// with `.git`.
pub open spec fn is_bare(s: Seq<char>) -> bool {
    &&& s.len() > 0
    &&& !is_white(s[0])
    &&& !is_white(s.last())
    &&& s.last() != '/'
    &&& !has_suffix(s, ".git"@)
}

proof fn lemma_untrimmed(s: Seq<char>)
    requires
        s.len() > 0,
        !is_white(s[0]),
        !is_white(s.last()),
    ensures
        trimmed(s) == s,
{
    assert(drop_leading(s, CharClass::White) == s);
    assert(drop_trailing(s, CharClass::White) == s);
}

proof fn lemma_git_off(s: Seq<char>)
    requires
        is_bare(s),
    ensures
        without_suffixes(s, ".git"@) == s,
        without_suffixes(s + ".git"@, ".git"@) == s,
{
    reveal_strlit(".git");
    let t = s + ".git"@;
    assert(t.skip(s.len() as int) =~= ".git"@);
    assert(t.take(s.len() as int) =~= s);
    assert(without_suffixes(s, ".git"@) == s);
    assert(has_suffix(t, ".git"@));
}

/// The owner and the repository stand behind one of the three forms in which GitHub writes
/// addresses, without `.git` and slashes at the end and without white space round it.
pub proof fn law_repositories_are_named_by_their_address(p: Seq<char>)
    requires
        is_bare("git@github.com:"@ + p),
        is_bare("https://github.com/"@ + p),
        is_bare("ssh://git@github.com/"@ + p),
        p.len() > 0,
    ensures
        owner_repo("git@github.com:"@ + p) == Some(p),
        owner_repo("https://github.com/"@ + p) == Some(p),
        owner_repo("ssh://git@github.com/"@ + p) == Some(p),
        owner_repo("git@github.com:"@ + p + ".git"@) == Some(p),
        owner_repo("https://github.com/"@ + p + ".git"@) == Some(p),
        owner_repo("ssh://git@github.com/"@ + p + ".git"@) == Some(p),
        owner_repo("https://github.com/"@ + p + "/"@) == Some(p),
{
    reveal_strlit("git@github.com:");
    reveal_strlit("https://github.com/");
    reveal_strlit("ssh://git@github.com/");
    reveal_strlit(".git");
    reveal_strlit("/");
    let a = "git@github.com:"@ + p;
    let b = "https://github.com/"@ + p;
    let c = "ssh://git@github.com/"@ + p;
    lemma_untrimmed(a);
    lemma_untrimmed(b);
    lemma_untrimmed(c);
    lemma_untrimmed(a + ".git"@);
    lemma_untrimmed(b + ".git"@);
    lemma_untrimmed(c + ".git"@);
    lemma_untrimmed(b + "/"@);
    lemma_git_off(a);
    lemma_git_off(b);
    lemma_git_off(c);
    assert((b + "/"@).drop_last() =~= b);
    assert(drop_trailing(b, CharClass::One('/')) == b);
    assert(drop_trailing(b + "/"@, CharClass::One('/')) == b);
    law_a_start_comes_off(a, "git@github.com:"@, p);
    law_a_start_comes_off(b, "https://github.com/"@, p);
    law_a_start_comes_off(c, "ssh://git@github.com/"@, p);
    assert(b[0] == 'h' && c[0] == 's' && a[0] == 'g');
    assert(without_prefix(b, "git@github.com:"@) is None) by {
        if without_prefix(b, "git@github.com:"@) is Some {
            assert(b.take("git@github.com:"@.len() as int)[0] == b[0]);
        }
    }
    assert(without_prefix(c, "git@github.com:"@) is None) by {
        if without_prefix(c, "git@github.com:"@) is Some {
            assert(c.take("git@github.com:"@.len() as int)[0] == c[0]);
        }
    }
    assert(without_prefix(c, "https://github.com/"@) is None) by {
        if without_prefix(c, "https://github.com/"@) is Some {
            assert(c.take("https://github.com/"@.len() as int)[0] == c[0]);
        }
    }
}

// ---------------------------------------------------------------------------
// Pushing
// ---------------------------------------------------------------------------

/// Where neither a flag nor the environment speaks against it, the workspace decides; the
/// environment speaks against it with `0`, `false` and `no`.
pub proof fn law_the_workspace_decides(env: Option<Seq<char>>, b: bool)
    requires
        !push_disabled(env),
    ensures
        policy(false, env, auto_push_of(Ok(FieldView::Bool(b)))) == Ok::<PushPolicy, Seq<char>>(
            if b {
                PushPolicy::Push
            } else {
                PushPolicy::Skip
            },
        ),
        policy(false, env, auto_push_of(Ok(FieldView::Missing))) == Ok::<PushPolicy, Seq<char>>(
            PushPolicy::Push,
        ),
        push_disabled(Some("0"@)) && push_disabled(Some("false"@)) && push_disabled(Some("no"@)),
        env is None || (env->0 != "0"@ && env->0 != "false"@ && env->0 != "no"@),
        !push_disabled(None),
{
}

// ---------------------------------------------------------------------------
// The skills of others
// ---------------------------------------------------------------------------

/// A skill of others is named by its owner and its slug, in the repository `knack-skills`, or
/// by owner, repository and slug; with a version behind `@` or `@v`, or without one.
pub proof fn law_skills_of_others_are_named(
    owner: Seq<char>,
    repo: Seq<char>,
    slug: Seq<char>,
    version: Seq<char>,
)
    requires
        lacks(owner, '@') && lacks(owner, '/') && lacks(owner, ':'),
        lacks(repo, '@') && lacks(repo, '/') && lacks(repo, ':'),
        lacks(slug, '@') && lacks(slug, ':'),
        lacks(version, '@') && (version.len() == 0 || version[0] != 'v'),
    ensures
        spec_of("@"@ + (owner + "/"@ + slug)) == Ok::<SpecView, Seq<char>>(
            SpecView { owner, repo: "knack-skills"@, slug, version: None },
        ),
        spec_of("@"@ + (owner + "/"@ + repo + ":"@ + slug)) == Ok::<SpecView, Seq<char>>(
            SpecView { owner, repo, slug, version: None },
        ),
        spec_of("@"@ + (owner + "/"@ + repo + ":"@ + slug + "@v"@ + version)) == Ok::<
            SpecView,
            Seq<char>,
        >(SpecView { owner, repo, slug, version: Some(version) }),
        spec_of("@"@ + (owner + "/"@ + repo + ":"@ + slug + "@"@ + version)) == Ok::<
            SpecView,
            Seq<char>,
        >(SpecView { owner, repo, slug, version: Some(version) }),
{
    reveal_strlit("@");
    reveal_strlit("@v");
    reveal_strlit("/");
    reveal_strlit(":");
    let place = owner + "/"@ + repo;
    let short = owner + "/"@ + slug;
    let long = place + ":"@ + slug;
    assert(lacks(place, ':'));
    assert(lacks(short, '@'));
    assert(lacks(short, ':'));
    assert(lacks(long, '@'));
    lemma_uncut(short, "@v"@);
    lemma_uncut(short, "@"@);
    lemma_uncut(long, "@v"@);
    lemma_uncut(long, "@"@);
    lemma_uncut(short, ":"@);
    lemma_cut_first(owner, "/"@, slug);
    lemma_cut_first(owner, "/"@, repo);
    lemma_cut_first(place, ":"@, slug);
    lemma_cut_last(long, "@v"@, version);
    lemma_cut_last(long, "@"@, version);
    let plain = long + "@"@ + version;
    assert(cut_last(plain, "@v"@) is None) by {
        law_the_last_place_is_found(plain, "@v"@);
        if find_last(plain, "@v"@) is Some {
            let i = find_last(plain, "@v"@)->0;
            assert(plain[i + 0] == "@v"@[0]);
            assert(plain[i + 1] == "@v"@[1]);
            if i < long.len() {
                assert(plain[i] == long[i]);
            } else if i > long.len() {
                assert(plain[i] == version[i - long.len() - 1]);
            } else {
                assert(plain[i + 1] == version[0]);
            }
        }
    }
    law_a_start_comes_off("@"@ + short, "@"@, short);
    law_a_start_comes_off("@"@ + long, "@"@, long);
    law_a_start_comes_off("@"@ + (long + "@v"@ + version), "@"@, long + "@v"@ + version);
    law_a_start_comes_off("@"@ + plain, "@"@, plain);
    assert(version_cut(long) == (long, None::<Seq<char>>));
    assert(named_skill(short, None) == Ok::<SpecView, Seq<char>>(
        SpecView { owner, repo: "knack-skills"@, slug, version: None },
    ));
    assert(named_skill(long, None) == Ok::<SpecView, Seq<char>>(
        SpecView { owner, repo, slug, version: None },
    ));
}

/// What does not start with `@` names no skill of others.
pub proof fn law_other_texts_name_no_skill(s: Seq<char>)
    requires
        s.len() == 0 || s[0] != '@',
    ensures
        spec_of(s) is Err,
{
    reveal_strlit("@");
    if without_prefix(s, "@"@) is Some {
        assert(s.take(1)[0] == s[0]);
    }
}

proof fn lemma_work(
    s: Seq<ContentView>,
    rel: Seq<char>,
    n: int,
    f: spec_fn(int) -> Option<WorkView>,
)
    requires
        0 <= n <= s.len(),
        forall|i: int| #[trigger]
            f(i) == (if s[i].kind == "dir"@ {
                Some(WorkView::List { path: s[i].path, rel: below(rel, s[i].name) })
            } else if s[i].kind == "file"@ && s[i].download_url is Some {
                Some(WorkView::Fetch { url: s[i].download_url->0, rel: below(rel, s[i].name) })
            } else {
                None
            }),
    ensures
        entries_work(s, rel, n) == positions(n).filter_map(f),
    decreases n,
{
    reveal_strlit("dir");
    reveal_strlit("file");
    assert("dir"@ != "file"@) by {
        assert("dir"@.len() != "file"@.len());
    }
    lemma_picked(n, f);
    if n > 0 {
        lemma_work(s, rel, n - 1, f);
        assert(entries_work(s, rel, n) =~= positions(n).filter_map(f));
    }
}

/// Every file of a listing with an address is fetched and every directory is listed in turn,
/// each below where the listing is, in order.
pub proof fn law_all_files_and_directories_are_followed(s: Seq<ContentView>, rel: Seq<char>)
    ensures
        entries_work(s, rel, s.len() as int) == positions(s.len() as int).filter_map(
            |i: int|
                if s[i].kind == "dir"@ {
                    Some(WorkView::List { path: s[i].path, rel: below(rel, s[i].name) })
                } else if s[i].kind == "file"@ && s[i].download_url is Some {
                    Some(WorkView::Fetch { url: s[i].download_url->0, rel: below(rel, s[i].name) })
                } else {
                    None
                },
        ),
{
    let f = |i: int|
        if s[i].kind == "dir"@ {
            Some(WorkView::List { path: s[i].path, rel: below(rel, s[i].name) })
        } else if s[i].kind == "file"@ && s[i].download_url is Some {
            Some(WorkView::Fetch { url: s[i].download_url->0, rel: below(rel, s[i].name) })
        } else {
            None
        };
    lemma_work(s, rel, s.len() as int, f);
}

proof fn lemma_file_at(files: Seq<SkillFile>, path: Seq<char>, from: int, k: int)
    requires
        0 <= from <= k < files.len(),
        files[k].path@ == path,
        forall|i: int| from <= i < k ==> (#[trigger] files[i]).path@ != path,
    ensures
        file_at(files, path, from) == Some(files[k].bytes@),
    decreases k - from,
{
    if from < k {
        lemma_file_at(files, path, from + 1, k);
    }
}

/// The file at a path is the first one there.
pub proof fn law_the_file_at_a_path(files: Seq<SkillFile>, path: Seq<char>, k: int)
    requires
        0 <= k < files.len(),
        files[k].path@ == path,
        forall|i: int| 0 <= i < k ==> (#[trigger] files[i]).path@ != path,
    ensures
        file_at(files, path, 0) == Some(files[k].bytes@),
{
    lemma_file_at(files, path, 0, k);
}

/// There is no file at a path that none has.
pub proof fn law_no_file_at_other_paths(files: Seq<SkillFile>, path: Seq<char>, from: int)
    requires
        0 <= from,
        forall|i: int| 0 <= i < files.len() ==> (#[trigger] files[i]).path@ != path,
    ensures
        file_at(files, path, from) is None,
    decreases files.len() - from,
{
    if from < files.len() {
        law_no_file_at_other_paths(files, path, from + 1);
    }
}

/// The version that was asked for is shown; else the stated one; else that there is none.
pub proof fn law_the_version_asked_for_is_shown(asked: Seq<char>, stated: Seq<char>, o: Option<Seq<char>>)
    ensures
        version_shown(Some(asked), o) == asked,
        version_shown(None, Some(stated)) == stated,
        version_shown(None, None) == "0.0.0"@,
{
}

// ---------------------------------------------------------------------------
// A new repository
// ---------------------------------------------------------------------------

proof fn lemma_missing(
    files: Seq<NewFileView>,
    present: Seq<Seq<char>>,
    n: int,
    p: spec_fn(NewFileView) -> bool,
)
    requires
        0 <= n <= files.len(),
        forall|x: NewFileView| #[trigger] p(x) == !present.contains(x.path),
    ensures
        missing(files, present, n) == files.take(n).filter(p),
    decreases n,
{
    reveal(Seq::filter);
    if n > 0 {
        lemma_missing(files, present, n - 1, p);
        assert(files.take(n).drop_last() =~= files.take(n - 1));
        assert(files.take(n).last() == files[n - 1]);
    } else {
        assert(files.take(0).filter(p) =~= seq![]);
    }
}

/// All files of a new repository that are not there yet are written, and no others.
pub proof fn law_all_missing_files_are_written(files: Seq<NewFileView>, present: Seq<Seq<char>>)
    ensures
        missing(files, present, files.len() as int) == files.filter(
            |x: NewFileView| !present.contains(x.path),
        ),
{
    let p = |x: NewFileView| !present.contains(x.path);
    lemma_missing(files, present, files.len() as int, p);
    assert(files.take(files.len() as int) =~= files);
}

/// A new repository has a place for skills and one for runs, leaves out what is of one
/// machine only, and says whose it is.
pub proof fn law_a_new_repository_has_its_files(owner: Seq<char>, repo: Seq<char>)
    ensures
        ({
            let s = scaffolding(owner, repo);
            &&& s.len() == 5
            &&& s[0].path == "skills/.gitkeep"@ && s[1].path == "runs/.gitkeep"@
            &&& s[2].path == ".gitignore"@ && s[3].path == "knack.yaml"@ && s[4].path
                == "README.md"@
            &&& s[3].content
                == "# Knack self-host config. Edited by the Knack CLI.\nowner: "@ + owner
                + "\nrepo: "@ + repo + "\nformat: knack-skills/v1\n"@
        }),
{
}

// ---------------------------------------------------------------------------
// What GitHub answers
// ---------------------------------------------------------------------------

/// An entry of a listing has its name, its path, its kind and its address, each under its
/// own key.
pub proof fn law_entries_are_read_in_full(v: JsonView, name: Seq<char>, path: Seq<char>, kind: Seq<char>, url: Seq<char>)
    requires
        field(v, "name"@) == Some(JsonView::Text(name)),
        field(v, "path"@) == Some(JsonView::Text(path)),
        field(v, "type"@) == Some(JsonView::Text(kind)),
    ensures
        field(v, "download_url"@) == Some(JsonView::Text(url)) ==> entry_in(v) == Some(
            ContentView { name, path, kind, download_url: Some(url) },
        ),
        field(v, "download_url"@) is None || field(v, "download_url"@) == Some(JsonView::Null)
            ==> entry_in(v) == Some(ContentView { name, path, kind, download_url: None }),
{
}

/// A listing is read where each of its entries is, all of them in order; a single entry is a
/// listing of one.
pub proof fn law_listings_are_read_whole(s: Seq<JsonView>, entries: Seq<ContentView>, v: JsonView)
    requires
        s.len() == entries.len(),
        forall|i: int| 0 <= i < s.len() ==> entry_in(#[trigger] s[i]) == Some(entries[i]),
        !(v is Array),
    ensures
        entries_in(JsonView::Array(s)) == Some(entries),
        entry_in(v) matches Some(e) ==> entries_in(v) == Some(seq![e]),
        entry_in(v) is None ==> entries_in(v) is None,
{
    assert(entries =~= Seq::new(s.len(), |i: int| entry_in(s[i])->0));
    if entry_in(v) is Some {
        assert(entries_in(v)->0 =~= seq![entry_in(v)->0]);
    } else {
        assert(seq![v][0] == v);
    }
}

/// Each fact of an event stands under its own key in the day's file.
pub proof fn law_events_are_kept_in_full(e: EventView, at: Seq<char>)
    ensures
        ({
            let m = event_fields(e, at);
            &&& m.len() == 10
            &&& m.contains(("event"@, Some(JsonView::Text(e.event))))
            &&& m.contains(("run_id"@, Some(JsonView::Text(e.run_id))))
            &&& e.skill matches Some(t) ==> m.contains(("skill"@, Some(JsonView::Text(t))))
            &&& e.version matches Some(t) ==> m.contains(("version"@, Some(JsonView::Text(t))))
            &&& e.agent matches Some(t) ==> m.contains(("agent"@, Some(JsonView::Text(t))))
            &&& e.inputs.len() > 0 ==> m.contains(
                ("inputs"@, Some(JsonView::Array(text_values(e.inputs)))),
            )
            &&& e.outputs.len() > 0 ==> m.contains(
                ("outputs"@, Some(JsonView::Array(text_values(e.outputs)))),
            )
            &&& e.status matches Some(t) ==> m.contains(("status"@, Some(JsonView::Text(t))))
            &&& e.note matches Some(t) ==> m.contains(("note"@, Some(JsonView::Text(t))))
            &&& m.contains(("at"@, Some(JsonView::Text(at))))
        }),
{
    let m = event_fields(e, at);
    assert(m.contains(m[0]) && m.contains(m[1]) && m.contains(m[2]) && m.contains(m[3])
        && m.contains(m[4]) && m.contains(m[5]) && m.contains(m[6]) && m.contains(m[7])
        && m.contains(m[8]) && m.contains(m[9]));
    assert(m[0].0 == "event"@ && m[1].0 == "run_id"@ && m[2].0 == "skill"@ && m[3].0 == "version"@);
    assert(m[4].0 == "agent"@ && m[5].0 == "inputs"@ && m[6].0 == "outputs"@ && m[7].0
        == "status"@);
    assert(m[8].0 == "note"@ && m[9].0 == "at"@);
}

/// The runs of a day stand in a file of the day in a directory of the month.
pub proof fn law_days_have_files_in_months(year: int, month: int, day: int)
    ensures
        ({
            let m = zero_padded(year, 4) + "-"@ + zero_padded(month, 2);
            day_path(year, month, day) == "runs/"@ + m + "/"@ + m + "-"@ + zero_padded(day, 2)
                + ".jsonl"@
        }),
{
    let m = zero_padded(year, 4) + "-"@ + zero_padded(month, 2);
    assert(day_path(year, month, day) =~= "runs/"@ + m + "/"@ + m + "-"@ + zero_padded(day, 2)
        + ".jsonl"@);
}

/// A clone is of a repository where its address names it, with white space round it or none.
pub proof fn law_clones_are_told_by_their_address(
    url: Seq<char>,
    owner: Seq<char>,
    repo: Seq<char>,
)
    ensures
        names_repo(Some(url), owner, repo) <==> owner_repo(trimmed(url)) == Some(
            owner + "/"@ + repo,
        ),
        !names_repo(None, owner, repo),
{
}

} // verus!
