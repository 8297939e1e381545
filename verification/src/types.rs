//! The types that the backends share.

use vstd::prelude::*;

use crate::errors::prefixed;
use crate::time::Timestamp;

verus! {

/// How a run ended.
#[derive(Debug, Clone, Copy, PartialEq, Eq, Structural)]
pub enum RunStatus {
    Succeeded,
    Failed,
    Aborted,
}

/// The name of a status in the log.
pub open spec fn status_name(s: RunStatus) -> Seq<char> {
    match s {
        RunStatus::Succeeded => "succeeded"@,
        RunStatus::Failed => "failed"@,
        RunStatus::Aborted => "aborted"@,
    }
}

impl RunStatus {
    /// The name of the status in the log.
    pub fn as_str(self) -> (r: &'static str)
        ensures
            r@ == status_name(self),
    {
        match self {
            RunStatus::Succeeded => "succeeded",
            RunStatus::Failed => "failed",
            RunStatus::Aborted => "aborted",
        }
    }
}

/// A finished run, as a backend is told of it.
#[derive(Debug, Clone)]
pub struct RunLog {
    pub run_id: String,
    pub skill: String,
    pub status: RunStatus,
    pub duration_ms: u64,
    pub input_tokens: u64,
    pub output_tokens: u64,
    pub agent: String,
    pub started_at: Timestamp,
}

/// Where a skill was found.
#[derive(Debug, Clone, Copy, PartialEq, Eq, Structural)]
pub enum SkillSource {
    Cloud,
    Github,
}

/// A skill in a listing.
#[derive(Debug, Clone)]
pub struct SkillSummary {
    pub slug: String,
    pub author: String,
    pub version: String,
    pub description: Option<String>,
    pub updated_at: Timestamp,
    pub source: SkillSource,
}

/// A file of a skill, under its path within the skill's folder.
#[derive(Debug, Clone)]
pub struct SkillFile {
    pub path: String,
    pub bytes: Vec<u8>,
}

/// What a skill version consists of.
#[derive(Debug, Clone)]
pub struct SkillManifest {
    pub slug: String,
    pub version: String,
    pub description: Option<String>,
    pub entry: String,
    pub assets: Vec<String>,
    pub created_at: Timestamp,
}

/// A skill version with its files.
#[derive(Debug, Clone)]
pub struct SkillPackage {
    pub slug: String,
    pub version: String,
    pub manifest: SkillManifest,
    pub files: Vec<SkillFile>,
}

/// What publishing a skill gives.
#[derive(Debug, Clone)]
pub struct PublishReceipt {
    pub slug: String,
    pub version: String,
    pub url: String,
}

/// What can go wrong in a backend.
#[derive(Debug)]
pub enum BackendError {
    NotFound(String),
    Auth(String),
    Network(String),
    Conflict(String),
    Invalid(String),
    Other(String),
}

/// What a backend's error says to a person.
pub open spec fn backend_message(e: BackendError) -> Seq<char> {
    match e {
        BackendError::NotFound(m) => "not found: "@ + m@,
        BackendError::Auth(m) => "auth: "@ + m@,
        BackendError::Network(m) => "network: "@ + m@,
        BackendError::Conflict(m) => "conflict: "@ + m@,
        BackendError::Invalid(m) => "invalid: "@ + m@,
        BackendError::Other(m) => "backend: "@ + m@,
    }
}

impl BackendError {
    /// What the error says to a person.
    pub fn message(&self) -> (r: String)
        ensures
            r@ == backend_message(*self),
    {
        match self {
            BackendError::NotFound(m) => prefixed("not found: ", m.as_str()),
            BackendError::Auth(m) => prefixed("auth: ", m.as_str()),
            BackendError::Network(m) => prefixed("network: ", m.as_str()),
            BackendError::Conflict(m) => prefixed("conflict: ", m.as_str()),
            BackendError::Invalid(m) => prefixed("invalid: ", m.as_str()),
            BackendError::Other(m) => prefixed("backend: ", m.as_str()),
        }
    }
}

pub type BackendResult<T> = Result<T, BackendError>;

} // verus!
