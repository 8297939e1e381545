//! `knack upgrade`: the latest version in place of this one.

use vstd::prelude::*;

use crate::errors::{prefixed, CliError, ErrorView};
use crate::json::{member_views, no_members, with_member, Json, JsonView};
use crate::numbers::{i64_text, signed_decimal};
use crate::text::views;

verus! {

pub const INSTALL_SH_CMD: &'static str = "curl -fsSL https://cli.getknack.ai/install.sh | sh";

pub const INSTALL_PS1_CMD: &'static str = "iwr https://cli.getknack.ai/install.ps1 | iex";

/// The arguments of `knack upgrade`.
#[derive(Debug, Clone)]
pub struct UpgradeArgs {
    pub print: bool,
    pub run: bool,
}

/// The system that the program runs on.
#[derive(Debug, Clone, Copy, PartialEq, Eq, Structural)]
pub enum Platform {
    Windows,
    Macos,
    Linux,
}

/// Whether the command is run: unless it is only to be printed, and never on Windows,
/// where a running program cannot be replaced.
pub fn decide_should_run(args: &UpgradeArgs, platform: Platform) -> (r: bool)
    ensures
        r == (!args.print && platform != Platform::Windows),
{
    if args.print {
        return false;
    }
    match platform {
        Platform::Windows => false,
        _ => true,
    }
}

/// The command that installs the latest version.
pub fn platform_install_oneliner(platform: Platform) -> (r: &'static str)
    ensures
        r@ == (if platform == Platform::Windows {
            INSTALL_PS1_CMD@
        } else {
            INSTALL_SH_CMD@
        }),
{
    match platform {
        Platform::Windows => INSTALL_PS1_CMD,
        _ => INSTALL_SH_CMD,
    }
}

/// The name of a system.
pub fn platform_label(platform: Platform) -> (r: &'static str)
    ensures
        r@ == (match platform {
            Platform::Windows => "windows"@,
            Platform::Macos => "macos"@,
            Platform::Linux => "linux"@,
        }),
{
    match platform {
        Platform::Windows => "windows",
        Platform::Macos => "macos",
        Platform::Linux => "linux",
    }
}

/// What is reported of a command that is offered.
pub open spec fn command_report(
    command: Seq<char>,
    platform: Seq<char>,
    auto_run: bool,
) -> JsonView {
    JsonView::Object(
        seq![
            ("command"@, JsonView::Text(command)),
            ("platform"@, JsonView::Text(platform)),
            ("auto_run"@, JsonView::Bool(auto_run)),
        ],
    )
}

/// What is reported of a command that is offered.
pub fn command_json(command: &str, platform: &str, auto_run: bool) -> (r: Json)
    ensures
        r.value() == command_report(command@, platform@, auto_run),
{
    let m = with_member(no_members(), "command", Json::text(command));
    let m = with_member(m, "platform", Json::text(platform));
    let m = with_member(m, "auto_run", Json::Bool(auto_run));
    assert(member_views(m@) =~= command_report(command@, platform@, auto_run)->Object_0);
    Json::object(m)
}

/// What people are told before an upgrade.
pub fn upgrade_lines(args: &UpgradeArgs, platform: Platform) -> (r: Vec<String>)
    ensures
        views(r@) == (if platform == Platform::Windows && args.run {
            seq![
                "Self-replace is not safe on Windows (the running knack.exe is file-locked)."@,
                "Run this in a fresh PowerShell to upgrade:"@,
                "  "@ + INSTALL_PS1_CMD@,
            ]
        } else if platform == Platform::Windows {
            seq!["Run this to upgrade knack:"@, "  "@ + INSTALL_PS1_CMD@]
        } else if args.print {
            seq!["Run this to upgrade knack:"@, "  "@ + INSTALL_SH_CMD@]
        } else {
            seq!["Upgrading via:"@, "  "@ + INSTALL_SH_CMD@]
        }),
{
    let windows = match platform {
        Platform::Windows => true,
        _ => false,
    };
    let mut out: Vec<String> = Vec::new();
    let command = prefixed("  ", platform_install_oneliner(platform));
    if windows && args.run {
        out.push(
            "Self-replace is not safe on Windows (the running knack.exe is file-locked).".to_owned(),
        );
        out.push("Run this in a fresh PowerShell to upgrade:".to_owned());
        out.push(command);
        assert(views(out@) =~= seq![
            "Self-replace is not safe on Windows (the running knack.exe is file-locked)."@,
            "Run this in a fresh PowerShell to upgrade:"@,
            "  "@ + INSTALL_PS1_CMD@,
        ]);
    } else if decide_should_run(args, platform) {
        out.push("Upgrading via:".to_owned());
        out.push(command);
        assert(views(out@) =~= seq!["Upgrading via:"@, "  "@ + INSTALL_SH_CMD@]);
    } else {
        out.push("Run this to upgrade knack:".to_owned());
        out.push(command);
        assert(views(out@) =~= seq![
            "Run this to upgrade knack:"@,
            "  "@ + (if windows {
                INSTALL_PS1_CMD@
            } else {
                INSTALL_SH_CMD@
            }),
        ]);
    }
    out
}

/// What an upgrade ends with, by the code that the script ended with, if it ended
/// with one.
pub fn upgrade_result(code: Option<i32>) -> (r: Result<(), CliError>)
    ensures
        match code {
            Some(0) => r is Ok,
            Some(c) => r is Err && r->Err_0@ == ErrorView::Internal(
                "upgrade script exited with status "@ + signed_decimal(c as int),
            ),
            None => r is Err && r->Err_0@ == ErrorView::Internal(
                "upgrade script exited with status "@ + signed_decimal(-1),
            ),
        },
{
    let c: i32 = match code {
        Some(c) => c,
        None => -1,
    };
    if c == 0 {
        return Ok(());
    }
    let n = i64_text(c as i64);
    Err(CliError::Internal(prefixed("upgrade script exited with status ", n.as_str())))
}

} // verus!
