//! `knack uninstall`: all that was installed, undone.

use vstd::prelude::*;

use crate::config::{below, join_path};
use crate::json::{
    member_views, no_members, text_or_null, text_values, with_member, Json, JsonView,
};
use crate::numbers::{decimal, usize_text};
use crate::output::OutputMode;
use crate::text::{
    concat3, concat4, lowercased, opt_str_view, opt_view, push_line, same, to_lowercase, trim,
    trimmed, views,
};

verus! {

pub const UNINSTALL_PS1_URL: &'static str = "https://cli.getknack.ai/uninstall.ps1";

pub const UNINSTALL_SH_URL: &'static str = "https://cli.getknack.ai/uninstall.sh";

/// The arguments of `knack uninstall`.
#[derive(Debug, Clone)]
pub struct UninstallArgs {
    pub keep_auth: bool,
    pub purge_workspaces: bool,
    pub yes: bool,
    pub print: bool,
    pub script: bool,
}

/// Whether it is asked first: not where it was said already, not in a rehearsal, and
/// not where there is nobody to ask.
pub fn asks_first(args: &UninstallArgs, mode: OutputMode) -> (r: bool)
    ensures
        r == (!args.yes && !args.print && !mode.json && !mode.quiet),
{
    !args.yes && !args.print && !mode.json && !mode.quiet
}

/// What is done next.
#[derive(Debug, Clone, Copy, PartialEq, Eq, Structural)]
pub enum UninstallStep {
    /// Only the command that removes the program is told.
    TellScript,
    AskFirst,
    /// The answer was no.
    Abort,
    /// What would be done is told.
    Rehearse,
    /// All is removed. The credentials stay where they are to be kept.
    Remove { auth: bool },
}

/// What is done next, by the answer if it was asked for.
pub open spec fn next_step(
    args: UninstallArgs,
    mode: OutputMode,
    answer: Option<bool>,
) -> UninstallStep {
    if args.script {
        UninstallStep::TellScript
    } else if args.print {
        UninstallStep::Rehearse
    } else if args.yes || mode.json || mode.quiet {
        UninstallStep::Remove { auth: !args.keep_auth }
    } else {
        match answer {
            None => UninstallStep::AskFirst,
            Some(true) => UninstallStep::Remove { auth: !args.keep_auth },
            Some(false) => UninstallStep::Abort,
        }
    }
}

/// What is done next, by the answer if it was asked for.
pub fn run(args: &UninstallArgs, mode: OutputMode, answer: Option<bool>) -> (r: UninstallStep)
    ensures
        r == next_step(*args, mode, answer),
{
    if args.script {
        return UninstallStep::TellScript;
    }
    if asks_first(args, mode) {
        match answer {
            None => {
                return UninstallStep::AskFirst;
            },
            Some(yes) => {
                if !yes {
                    return UninstallStep::Abort;
                }
            },
        }
    }
    if args.print {
        UninstallStep::Rehearse
    } else {
        UninstallStep::Remove { auth: !args.keep_auth }
    }
}

/// Nothing is removed in a rehearsal, and nothing where somebody could be asked and
/// did not say yes.
pub proof fn law_nothing_goes_unasked(args: UninstallArgs, mode: OutputMode, answer: Option<bool>)
    ensures
        next_step(args, mode, answer) is Remove ==> !args.script && !args.print && (args.yes
            || mode.json || mode.quiet || answer == Some(true)),
        next_step(args, mode, answer) matches UninstallStep::Remove { auth } ==> auth
            == !args.keep_auth,
{
}

/// Whether credentials were cleared: the file with them was removed, or there is an
/// old keyring, which is cleared as far as it goes.
pub fn auth_cleared(asked: bool, file_removed: bool, has_keyring: bool) -> (r: bool)
    ensures
        r == (asked && (file_removed || has_keyring)),
{
    asked && (file_removed || has_keyring)
}

/// What people are told before they are asked.
pub open spec fn warning_text(keep_auth: bool, purge: bool) -> Seq<Seq<char>> {
    seq![
        "knack uninstall will:"@,
        "  - strip knack shims from every detected agent config"@,
        if keep_auth {
            "  - keep auth"@
        } else {
            "  - clear auth (~/.knack/auth.json + keyring)"@
        },
        if purge {
            "  - purge workspace .knack/ directories"@
        } else {
            "  - keep workspaces"@
        },
        "  - remove ~/.knack/installed.json and ~/.knack/update-check.json"@,
        ""@,
    ]
}

/// What people are told before they are asked.
pub fn warning_lines(args: &UninstallArgs) -> (r: Vec<String>)
    ensures
        views(r@) == warning_text(args.keep_auth, args.purge_workspaces),
{
    let mut out: Vec<String> = Vec::new();
    out.push("knack uninstall will:".to_owned());
    out.push("  - strip knack shims from every detected agent config".to_owned());
    out.push(
        if args.keep_auth {
            "  - keep auth".to_owned()
        } else {
            "  - clear auth (~/.knack/auth.json + keyring)".to_owned()
        },
    );
    out.push(
        if args.purge_workspaces {
            "  - purge workspace .knack/ directories".to_owned()
        } else {
            "  - keep workspaces".to_owned()
        },
    );
    out.push("  - remove ~/.knack/installed.json and ~/.knack/update-check.json".to_owned());
    out.push("".to_owned());
    assert(views(out@) =~= warning_text(args.keep_auth, args.purge_workspaces));
    out
}

/// The answer is yes.
pub open spec fn is_yes(line: Seq<char>) -> bool {
    lowercased(trimmed(line)) == "y"@ || lowercased(trimmed(line)) == "yes"@
}

/// Whether the answer is yes. Anything else is no.
pub fn confirm(line: &str) -> (r: bool)
    ensures
        r == is_yes(line@),
{
    let low = to_lowercase(trim(line));
    same(low.as_str(), "y") || same(low.as_str(), "yes")
}

/// The command that removes the program itself.
pub fn platform_script_oneliner(windows: bool) -> (r: &'static str)
    ensures
        r@ == (if windows {
            "iwr https://cli.getknack.ai/uninstall.ps1 | iex"@
        } else {
            "curl -fsSL https://cli.getknack.ai/uninstall.sh | sh"@
        }),
{
    if windows {
        "iwr https://cli.getknack.ai/uninstall.ps1 | iex"
    } else {
        "curl -fsSL https://cli.getknack.ai/uninstall.sh | sh"
    }
}

/// The script that removes the program itself.
pub fn platform_script_url(windows: bool) -> (r: &'static str)
    ensures
        r@ == (if windows {
            UNINSTALL_PS1_URL@
        } else {
            UNINSTALL_SH_URL@
        }),
{
    if windows {
        UNINSTALL_PS1_URL
    } else {
        UNINSTALL_SH_URL
    }
}

/// Where the program is likely to be, by the value of `LOCALAPPDATA` and by the home
/// directory.
pub open spec fn binary_path_of(
    windows: bool,
    appdata: Option<Seq<char>>,
    home: Option<Seq<char>>,
) -> Option<Seq<char>> {
    if windows {
        match appdata {
            Some(d) => Some(below(d, "knack/bin/knack.exe"@)),
            None => None,
        }
    } else {
        match home {
            Some(h) => Some(below(h, ".local/bin/knack"@)),
            None => None,
        }
    }
}

/// Where the program is likely to be.
pub fn guess_binary_path(
    windows: bool,
    appdata: Option<&str>,
    home: Option<&str>,
) -> (r: Option<String>)
    ensures
        opt_view(r) == binary_path_of(windows, opt_str_view(appdata), opt_str_view(home)),
{
    if windows {
        match appdata {
            Some(d) => Some(join_path(d, "knack/bin/knack.exe")),
            None => None,
        }
    } else {
        match home {
            Some(h) => Some(join_path(h, ".local/bin/knack")),
            None => None,
        }
    }
}

/// What was done.
#[derive(Debug)]
pub struct Removals {
    /// The agents whose blocks were removed, with the files they were in.
    pub blocks: Vec<(String, String)>,
    pub shims: usize,
    pub cleared_auth: bool,
    pub deleted_files: Vec<String>,
}

/// What is reported.
pub open spec fn uninstall_report(
    dry_run: bool,
    d: Removals,
    binary: Option<Seq<char>>,
    url: Seq<char>,
) -> JsonView {
    JsonView::Object(
        seq![
            ("dry_run"@, JsonView::Bool(dry_run)),
            ("stripped_targets"@, JsonView::Int(d.blocks@.len() as int)),
            ("stripped_shims"@, JsonView::Int(d.shims as int)),
            ("cleared_auth"@, JsonView::Bool(d.cleared_auth)),
            ("deleted_files"@, JsonView::Array(text_values(views(d.deleted_files@)))),
            ("workspaces_purged"@, JsonView::Array(seq![])),
            ("binary_path"@, text_or_null(binary)),
            ("script_url"@, JsonView::Text(url)),
        ],
    )
}

/// What is reported.
pub fn uninstall_json(
    dry_run: bool,
    done: &Removals,
    binary: Option<&str>,
    windows: bool,
) -> (r: Json)
    ensures
        r.value() == uninstall_report(
            dry_run,
            *done,
            opt_str_view(binary),
            if windows {
                UNINSTALL_PS1_URL@
            } else {
                UNINSTALL_SH_URL@
            },
        ),
{
    let none: Vec<Json> = Vec::new();
    proof {
        crate::json::lemma_array_value(none);
        assert(crate::json::values(none@) =~= seq![]);
    }
    let m = with_member(no_members(), "dry_run", Json::Bool(dry_run));
    let m = with_member(m, "stripped_targets", Json::Nat(done.blocks.len() as u64));
    let m = with_member(m, "stripped_shims", Json::Nat(done.shims as u64));
    let m = with_member(m, "cleared_auth", Json::Bool(done.cleared_auth));
    let m = with_member(m, "deleted_files", Json::texts(&done.deleted_files));
    let m = with_member(m, "workspaces_purged", Json::Array(none));
    let m = with_member(m, "binary_path", Json::opt_text(binary));
    let m = with_member(m, "script_url", Json::text(platform_script_url(windows)));
    assert(member_views(m@) =~= uninstall_report(
        dry_run,
        *done,
        opt_str_view(binary),
        if windows {
            UNINSTALL_PS1_URL@
        } else {
            UNINSTALL_SH_URL@
        },
    )->Object_0);
    Json::object(m)
}

/// How the program itself is removed.
pub open spec fn removal_hint(windows: bool, binary: Option<Seq<char>>) -> Seq<Seq<char>> {
    let s = seq![
        "To finish, remove the knack binary by running the platform uninstall script:"@,
        if windows {
            "  iwr "@ + UNINSTALL_PS1_URL@ + " | iex"@
        } else {
            "  curl -fsSL "@ + UNINSTALL_SH_URL@ + " | sh"@
        },
    ];
    match binary {
        Some(p) => s + seq![
            ""@,
            "Or remove the binary manually:"@,
            (if windows {
                "  Remove-Item \""@
            } else {
                "  rm \""@
            }) + p + "\""@,
        ],
        None => s,
    }
}

fn push_hint(out: &mut Vec<String>, windows: bool, binary: Option<&str>)
    ensures
        views(final(out)@) == views(old(out)@) + removal_hint(windows, opt_str_view(binary)),
{
    let ghost was = views(out@);
    push_line(
        out,
        "To finish, remove the knack binary by running the platform uninstall script:".to_owned(),
    );
    if windows {
        push_line(out, concat3("  iwr ", UNINSTALL_PS1_URL, " | iex"));
    } else {
        push_line(out, concat3("  curl -fsSL ", UNINSTALL_SH_URL, " | sh"));
    }
    match binary {
        Some(p) => {
            push_line(out, "".to_owned());
            push_line(out, "Or remove the binary manually:".to_owned());
            let verb = if windows {
                "  Remove-Item \""
            } else {
                "  rm \""
            };
            push_line(out, concat3(verb, p, "\""));
        },
        None => {},
    }
    assert(views(out@) =~= was + removal_hint(windows, opt_str_view(binary)));
}

/// How the program itself is removed.
pub fn print_binary_removal_hint(windows: bool, binary: Option<&str>) -> (r: Vec<String>)
    ensures
        views(r@) == removal_hint(windows, opt_str_view(binary)),
{
    let mut out: Vec<String> = Vec::new();
    push_hint(&mut out, windows, binary);
    assert(views(out@) =~= removal_hint(windows, opt_str_view(binary)));
    out
}

/// What people are told in a rehearsal.
pub open spec fn rehearsal_text(
    keep_auth: bool,
    purge: bool,
    windows: bool,
    binary: Option<Seq<char>>,
) -> Seq<Seq<char>> {
    seq![
        "[dry-run] would:"@,
        "  - strip knack shims from every detected agent config"@,
        if keep_auth {
            "  - keep auth (~/.knack/auth.json + keyring)"@
        } else {
            "  - clear auth (~/.knack/auth.json + keyring)"@
        },
        if purge {
            "  - purge workspace .knack/ directories"@
        } else {
            "  - keep workspace .knack/ directories"@
        },
        "  - remove ~/.knack/installed.json and ~/.knack/update-check.json"@,
        ""@,
    ] + removal_hint(windows, binary)
}

/// What people are told in a rehearsal.
pub fn rehearsal_lines(
    args: &UninstallArgs,
    windows: bool,
    binary: Option<&str>,
) -> (r: Vec<String>)
    ensures
        views(r@) == rehearsal_text(
            args.keep_auth,
            args.purge_workspaces,
            windows,
            opt_str_view(binary),
        ),
{
    let mut out: Vec<String> = Vec::new();
    push_line(&mut out, "[dry-run] would:".to_owned());
    push_line(&mut out, "  - strip knack shims from every detected agent config".to_owned());
    let auth = if args.keep_auth {
        "  - keep auth (~/.knack/auth.json + keyring)"
    } else {
        "  - clear auth (~/.knack/auth.json + keyring)"
    };
    push_line(&mut out, auth.to_owned());
    let workspaces = if args.purge_workspaces {
        "  - purge workspace .knack/ directories"
    } else {
        "  - keep workspace .knack/ directories"
    };
    push_line(&mut out, workspaces.to_owned());
    push_line(
        &mut out,
        "  - remove ~/.knack/installed.json and ~/.knack/update-check.json".to_owned(),
    );
    push_line(&mut out, "".to_owned());
    push_hint(&mut out, windows, binary);
    assert(views(out@) =~= rehearsal_text(
        args.keep_auth,
        args.purge_workspaces,
        windows,
        opt_str_view(binary),
    ));
    out
}

pub open spec fn block_lines(blocks: Seq<(Seq<char>, Seq<char>)>) -> Seq<Seq<char>> {
    Seq::new(blocks.len(), |i: int| "Removed "@ + blocks[i].0 + " block: "@ + blocks[i].1)
}

pub open spec fn one_if(cond: bool, line: Seq<char>) -> Seq<Seq<char>> {
    if cond {
        seq![line]
    } else {
        seq![]
    }
}

/// What people are told of what was done.
pub open spec fn done_text(
    d: Removals,
    account: Seq<char>,
    keep_auth: bool,
    purge: bool,
    windows: bool,
    binary: Option<Seq<char>>,
) -> Seq<Seq<char>> {
    let files = views(d.deleted_files@);
    block_lines(crate::api::request::pair_views(d.blocks@)) + one_if(
        d.shims > 0,
        "Removed "@ + decimal(d.shims as nat) + " per-skill shim file(s)."@,
    ) + one_if(
        d.blocks@.len() == 0 && d.shims == 0,
        "No knack shims or config blocks found."@,
    ) + one_if(d.cleared_auth, "Cleared auth (account '"@ + account + "')."@) + one_if(
        !d.cleared_auth && keep_auth,
        "Kept auth (--keep-auth)."@,
    ) + Seq::new(files.len(), |i: int| "Removed cache: "@ + files[i]) + one_if(
        purge,
        "Workspace tracking not yet implemented. Remove .knack/ directories manually in each project."@,
    ) + seq![""@] + removal_hint(windows, binary)
}

fn push_if(out: &mut Vec<String>, cond: bool, line: String)
    ensures
        views(final(out)@) == views(old(out)@) + one_if(cond, line@),
{
    let ghost was = views(out@);
    if cond {
        push_line(out, line);
    }
    assert(views(out@) =~= was + one_if(cond, line@));
}

/// What people are told of what was done.
pub fn done_lines(
    done: &Removals,
    account: &str,
    args: &UninstallArgs,
    windows: bool,
    binary: Option<&str>,
) -> (r: Vec<String>)
    ensures
        views(r@) == done_text(
            *done,
            account@,
            args.keep_auth,
            args.purge_workspaces,
            windows,
            opt_str_view(binary),
        ),
{
    let ghost b = crate::api::request::pair_views(done.blocks@);
    let mut out: Vec<String> = Vec::new();
    let mut i: usize = 0;
    while i < done.blocks.len()
        invariant
            i <= done.blocks.len(),
            b == crate::api::request::pair_views(done.blocks@),
            out@.len() == i,
            forall|j: int|
                0 <= j < i ==> (#[trigger] out@[j])@ == "Removed "@ + b[j].0 + " block: "@ + b[j].1,
        decreases done.blocks.len() - i,
    {
        out.push(
            concat4(
                "Removed ",
                done.blocks[i].0.as_str(),
                " block: ",
                done.blocks[i].1.as_str(),
            ),
        );
        i += 1;
    }
    assert(views(out@) =~= block_lines(b));
    let n = usize_text(done.shims);
    push_if(
        &mut out,
        done.shims > 0,
        concat3("Removed ", n.as_str(), " per-skill shim file(s)."),
    );
    push_if(
        &mut out,
        done.blocks.len() == 0 && done.shims == 0,
        "No knack shims or config blocks found.".to_owned(),
    );
    push_if(&mut out, done.cleared_auth, concat3("Cleared auth (account '", account, "')."));
    push_if(
        &mut out,
        !done.cleared_auth && args.keep_auth,
        "Kept auth (--keep-auth).".to_owned(),
    );
    let ghost files = views(done.deleted_files@);
    let ghost so_far = views(out@);
    let mut k: usize = 0;
    assert(so_far =~= so_far + Seq::new(0, |i: int| "Removed cache: "@ + files[i]));
    while k < done.deleted_files.len()
        invariant
            k <= done.deleted_files.len(),
            files == views(done.deleted_files@),
            views(out@) == so_far + Seq::new(k as nat, |i: int| "Removed cache: "@ + files[i]),
        decreases done.deleted_files.len() - k,
    {
        push_line(
            &mut out,
            crate::errors::prefixed("Removed cache: ", done.deleted_files[k].as_str()),
        );
        assert(views(out@) =~= so_far + Seq::new(
            (k + 1) as nat,
            |i: int| "Removed cache: "@ + files[i],
        ));
        k += 1;
    }
    assert(files.len() == k);
    push_if(
        &mut out,
        args.purge_workspaces,
        "Workspace tracking not yet implemented. Remove .knack/ directories manually in each project.".to_owned(),
    );
    push_if(&mut out, true, "".to_owned());
    assert(one_if(true, ""@) =~= seq![""@]);
    push_hint(&mut out, windows, binary);
    out
}

} // verus!
