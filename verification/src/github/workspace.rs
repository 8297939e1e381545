//! Whether telemetry is pushed.
//!
//! The flag has the first word, then the environment, then the workspace's own
//! `knack.yaml`; what nobody forbids is done.

use vstd::prelude::*;

use crate::github::runs::{is_push_disabled, push_disabled};
use crate::text::opt_str_view;
use crate::yaml::{field_result, map_field, yaml_map_field, FieldView, YamlField};

verus! {

/// Whether to push.
#[derive(Debug, Clone, Copy, PartialEq, Eq, Structural)]
pub enum PushPolicy {
    Push,
    Skip,
}

/// What a workspace says of pushing, by what stands under `auto_push`.
pub open spec fn auto_push_of(f: Result<FieldView, Seq<char>>) -> Result<
    Option<bool>,
    Seq<char>,
> {
    match f {
        Ok(FieldView::Missing) => Ok(None),
        Ok(FieldView::Null) => Ok(None),
        Ok(FieldView::Bool(b)) => Ok(Some(b)),
        Ok(_) => Err("auto_push: expected a boolean"@),
        Err(e) => Err(e),
    }
}

/// What a workspace says of pushing, if it has the file at all.
pub open spec fn workspace_auto_push(text: Option<Seq<char>>) -> Result<
    Option<bool>,
    Seq<char>,
> {
    match text {
        None => Ok(None),
        Some(t) => auto_push_of(yaml_map_field(t, "auto_push"@)),
    }
}

/// A result, or the message of the error.
pub open spec fn outcome<T>(r: Result<T, String>) -> Result<T, Seq<char>> {
    match r {
        Ok(v) => Ok(v),
        Err(e) => Err(e@),
    }
}

/// What a workspace says of pushing, by what stands under `auto_push`: anything but
/// a truth value is an error.
pub fn auto_push_from(field: Result<YamlField, String>) -> (r: Result<Option<bool>, String>)
    ensures
        outcome(r) == auto_push_of(field_result(field)),
{
    match field {
        Ok(YamlField::Missing) => Ok(None),
        Ok(YamlField::Null) => Ok(None),
        Ok(YamlField::Bool(b)) => Ok(Some(b)),
        Ok(_) => Err("auto_push: expected a boolean".to_owned()),
        Err(e) => Err(e),
    }
}

/// What a workspace says of pushing, by the text of its `knack.yaml`, if there is
/// one. Nothing is said where the file or the entry is missing; a file that cannot
/// be read as it should is an error.
pub fn read_workspace_auto_push(text: Option<&str>) -> (r: Result<Option<bool>, String>)
    ensures
        outcome(r) == workspace_auto_push(opt_str_view(text)),
{
    match text {
        None => Ok(None),
        Some(t) => auto_push_from(map_field(t, "auto_push")),
    }
}

/// Whether to push: neither flag, nor environment, nor workspace forbids it. The
/// workspace is asked last, and only then can its file be at fault.
pub open spec fn policy(
    no_push: bool,
    env: Option<Seq<char>>,
    workspace: Result<Option<bool>, Seq<char>>,
) -> Result<PushPolicy, Seq<char>> {
    if no_push || push_disabled(env) {
        Ok(PushPolicy::Skip)
    } else {
        match workspace {
            Ok(Some(false)) => Ok(PushPolicy::Skip),
            Ok(_) => Ok(PushPolicy::Push),
            Err(e) => Err(e),
        }
    }
}

impl PushPolicy {
    /// Whether to push.
    pub fn should_push(self) -> (r: bool)
        ensures
            r == (self == PushPolicy::Push),
    {
        match self {
            PushPolicy::Push => true,
            PushPolicy::Skip => false,
        }
    }

    /// Whether to push, by the flag, by the value of `KNACK_AUTO_PUSH`, and by what
    /// the workspace says.
    pub fn decide(
        no_push: bool,
        env: Option<&str>,
        workspace: Result<Option<bool>, String>,
    ) -> (r: Result<PushPolicy, String>)
        ensures
            outcome(r) == policy(no_push, opt_str_view(env), outcome(workspace)),
    {
        if no_push {
            return Ok(PushPolicy::Skip);
        }
        if is_push_disabled(env) {
            return Ok(PushPolicy::Skip);
        }
        match workspace {
            Ok(Some(b)) => if b {
                Ok(PushPolicy::Push)
            } else {
                Ok(PushPolicy::Skip)
            },
            Ok(None) => Ok(PushPolicy::Push),
            Err(e) => Err(e),
        }
    }

    /// Whether to push, by the flag, by the value of `KNACK_AUTO_PUSH`, and by the
    /// text of the workspace's `knack.yaml`, if there is one.
    pub fn resolve(no_push: bool, env: Option<&str>, text: Option<&str>) -> (r: Result<
        PushPolicy,
        String,
    >)
        ensures
            outcome(r) == policy(
                no_push,
                opt_str_view(env),
                workspace_auto_push(opt_str_view(text)),
            ),
    {
        PushPolicy::decide(no_push, env, read_workspace_auto_push(text))
    }
}

/// The flag beats everything: nothing is pushed, and a file at fault does not show.
pub proof fn law_flag_beats_all(env: Option<Seq<char>>, workspace: Result<Option<bool>, Seq<char>>)
    ensures
        policy(true, env, workspace) == Ok::<PushPolicy, Seq<char>>(PushPolicy::Skip),
{
}

/// The environment beats the workspace.
pub proof fn law_environment_beats_workspace(
    env: Option<Seq<char>>,
    workspace: Result<Option<bool>, Seq<char>>,
)
    requires
        push_disabled(env),
    ensures
        policy(false, env, workspace) == Ok::<PushPolicy, Seq<char>>(PushPolicy::Skip),
{
}

/// What nobody forbids is done; what cannot be read is not passed over.
pub proof fn law_default_is_push(env: Option<Seq<char>>, fault: Seq<char>)
    requires
        !push_disabled(env),
    ensures
        policy(false, env, workspace_auto_push(None)) == Ok::<PushPolicy, Seq<char>>(PushPolicy::Push),
        policy(false, env, Err(fault)) == Err::<PushPolicy, Seq<char>>(fault),
{
}

} // verus!
