//! How a version of a skill comes from the server to disk, by what is known so far.

use vstd::prelude::*;

use crate::api::error::status_line;
use crate::commands::link::{bundle_error, pick_version, skill_not_found};
use crate::errors::{copy_error, CliError, ErrorView};
use crate::slug::{parse_slug_at_version, slug_parts};
use crate::text::{opt_str, opt_view};

verus! {

/// A version as the server knows it.
#[derive(Debug)]
pub struct ServerVersion {
    pub version: String,
    /// There is an archive with all its files.
    pub packed: bool,
    pub skill_md: String,
    pub intuition_md: String,
    pub meta_yaml: String,
    pub tests_yaml: String,
}

/// What is known while a version is fetched. What was not asked for yet is not there.
#[derive(Debug)]
pub struct FetchFacts {
    pub version: Option<Result<ServerVersion, CliError>>,
    /// The folder that the files go to was made.
    pub folder: Option<Result<(), CliError>>,
    /// The address of the archive.
    pub link: Option<Result<String, CliError>>,
    /// The status with which the archive was answered.
    pub answered: Option<Result<u16, CliError>>,
    pub unpacked: Option<Result<(), CliError>>,
    /// The texts were written.
    pub written: Option<Result<(), CliError>>,
}

/// What is done next.
#[derive(Debug)]
pub enum FetchAction {
    Fail(CliError),
    FindSkill { slug: String },
    GetVersion { skill_id: String, version: String },
    MakeFolder,
    /// Asks for the address of the archive.
    AskLink { skill_id: String, version: String },
    Download { url: String },
    Unpack,
    WriteTexts,
    Done,
}

/// What is done next, as a mathematical value.
pub ghost enum FetchView {
    Fail(ErrorView),
    FindSkill { slug: Seq<char> },
    GetVersion { skill_id: Seq<char>, version: Seq<char> },
    MakeFolder,
    AskLink { skill_id: Seq<char>, version: Seq<char> },
    Download { url: Seq<char> },
    Unpack,
    WriteTexts,
    Done,
}

impl View for FetchAction {
    type V = FetchView;

    open spec fn view(&self) -> FetchView {
        match *self {
            FetchAction::Fail(e) => FetchView::Fail(e@),
            FetchAction::FindSkill { slug } => FetchView::FindSkill { slug: slug@ },
            FetchAction::GetVersion { skill_id, version } => FetchView::GetVersion {
                skill_id: skill_id@,
                version: version@,
            },
            FetchAction::MakeFolder => FetchView::MakeFolder,
            FetchAction::AskLink { skill_id, version } => FetchView::AskLink {
                skill_id: skill_id@,
                version: version@,
            },
            FetchAction::Download { url } => FetchView::Download { url: url@ },
            FetchAction::Unpack => FetchView::Unpack,
            FetchAction::WriteTexts => FetchView::WriteTexts,
            FetchAction::Done => FetchView::Done,
        }
    }
}

/// The error for an archive that could not be fetched.
pub open spec fn download_failed(status: int) -> ErrorView {
    ErrorView::Server {
        status,
        code: "BUNDLE_DOWNLOAD_FAILED"@,
        message: "R2 GET returned "@ + status_line(status),
    }
}

/// What is done next, once a version is asked for: its archive is unpacked, or its
/// texts are written where it has none.
pub open spec fn fetch_next(skill_id: Seq<char>, version: Seq<char>, f: FetchFacts) -> FetchView {
    match f.version {
        None => FetchView::GetVersion { skill_id, version },
        Some(Err(e)) => FetchView::Fail(e@),
        Some(Ok(v)) => match f.folder {
            None => FetchView::MakeFolder,
            Some(Err(e)) => FetchView::Fail(e@),
            Some(Ok(_)) => if v.packed {
                unpack_next(skill_id, v.version@, f)
            } else {
                match f.written {
                    None => FetchView::WriteTexts,
                    Some(Err(e)) => FetchView::Fail(e@),
                    Some(Ok(_)) => FetchView::Done,
                }
            },
        },
    }
}

/// What is done next with an archive.
pub open spec fn unpack_next(skill_id: Seq<char>, version: Seq<char>, f: FetchFacts) -> FetchView {
    match f.link {
        None => FetchView::AskLink { skill_id, version },
        Some(Err(e)) => FetchView::Fail(e@),
        Some(Ok(url)) => match f.answered {
            None => FetchView::Download { url: url@ },
            Some(Err(e)) => FetchView::Fail(e@),
            Some(Ok(status)) => if 200 <= status <= 299 {
                match f.unpacked {
                    None => FetchView::Unpack,
                    Some(Err(e)) => FetchView::Fail(e@),
                    Some(Ok(_)) => FetchView::Done,
                }
            } else {
                FetchView::Fail(download_failed(status as int))
            },
        },
    }
}

/// A status is one of three digits.
pub open spec fn sound(f: FetchFacts) -> bool {
    f.answered matches Some(Ok(status)) ==> 100 <= status <= 999
}

fn next_with_archive(skill_id: &str, version: &str, f: &FetchFacts) -> (r: FetchAction)
    requires
        sound(*f),
    ensures
        r@ == unpack_next(skill_id@, version@, *f),
{
    match &f.link {
        None => FetchAction::AskLink {
            skill_id: skill_id.to_owned(),
            version: version.to_owned(),
        },
        Some(Err(e)) => FetchAction::Fail(copy_error(e)),
        Some(Ok(url)) => match &f.answered {
            None => FetchAction::Download { url: url.clone() },
            Some(Err(e)) => FetchAction::Fail(copy_error(e)),
            Some(Ok(status)) => {
                if 200 <= *status && *status <= 299 {
                    match &f.unpacked {
                        None => FetchAction::Unpack,
                        Some(Err(e)) => FetchAction::Fail(copy_error(e)),
                        Some(Ok(_)) => FetchAction::Done,
                    }
                } else {
                    FetchAction::Fail(bundle_error(*status))
                }
            },
        },
    }
}

/// What is done next, once a version is asked for.
pub fn fetch(skill_id: &str, version: &str, f: &FetchFacts) -> (r: FetchAction)
    requires
        sound(*f),
    ensures
        r@ == fetch_next(skill_id@, version@, *f),
{
    match &f.version {
        None => FetchAction::GetVersion {
            skill_id: skill_id.to_owned(),
            version: version.to_owned(),
        },
        Some(Err(e)) => FetchAction::Fail(copy_error(e)),
        Some(Ok(v)) => match &f.folder {
            None => FetchAction::MakeFolder,
            Some(Err(e)) => FetchAction::Fail(copy_error(e)),
            Some(Ok(_)) => {
                if v.packed {
                    next_with_archive(skill_id, v.version.as_str(), f)
                } else {
                    match &f.written {
                        None => FetchAction::WriteTexts,
                        Some(Err(e)) => FetchAction::Fail(copy_error(e)),
                        Some(Ok(_)) => FetchAction::Done,
                    }
                }
            },
        },
    }
}

/// Nothing is unpacked but an archive that came whole, and no texts are written where
/// there is an archive.
pub proof fn law_archives_come_first(id: Seq<char>, version: Seq<char>, f: FetchFacts)
    ensures
        fetch_next(id, version, f) is Unpack ==> (f.answered matches Some(Ok(status)) && 200 <= status
            <= 299),
        fetch_next(id, version, f) is WriteTexts ==> (f.version matches Some(Ok(v)) && !v.packed),
{
}

// ---------------------------------------------------------------------------
// By the name of a skill
// ---------------------------------------------------------------------------

/// A skill as the server knows it.
#[derive(Debug)]
pub struct NamedSkill {
    pub id: String,
    pub slug: String,
    pub current_version_semver: Option<String>,
}

/// What was found under a name.
pub type Lookup = Option<Result<Option<NamedSkill>, CliError>>;

/// The version that is fetched: the one in the name, else the one that is published.
pub open spec fn version_wanted(spec: Seq<char>, current: Option<Seq<char>>) -> Option<Seq<char>> {
    match slug_parts(spec).1 {
        Some(v) => Some(v),
        None => current,
    }
}

/// What is done next to fetch a skill by its name, with a version or without.
pub open spec fn named_next(spec: Seq<char>, skill: Lookup, f: FetchFacts) -> FetchView {
    match skill {
        None => FetchView::FindSkill { slug: slug_parts(spec).0 },
        Some(Err(e)) => FetchView::Fail(e@),
        Some(Ok(None)) => FetchView::Fail(
            ErrorView::NotFound("skill `"@ + slug_parts(spec).0 + "` not found"@),
        ),
        Some(Ok(Some(s))) => match version_wanted(spec, opt_view(s.current_version_semver)) {
            Some(v) => fetch_next(s.id@, v, f),
            None => FetchView::Fail(
                ErrorView::NotFound(
                    "skill `"@ + slug_parts(spec).0 + "` has no published version"@,
                ),
            ),
        },
    }
}

/// What is done next to fetch a skill by its name.
pub fn fetch_named(spec: &str, skill: &Lookup, f: &FetchFacts) -> (r: FetchAction)
    requires
        sound(*f),
    ensures
        r@ == named_next(spec@, *skill, *f),
{
    let (slug, wanted) = parse_slug_at_version(spec);
    match skill {
        None => FetchAction::FindSkill { slug: slug.to_owned() },
        Some(Err(e)) => FetchAction::Fail(copy_error(e)),
        Some(Ok(None)) => FetchAction::Fail(skill_not_found(slug)),
        Some(Ok(Some(s))) => {
            let current = opt_str(&s.current_version_semver);
            match pick_version(slug, wanted, current) {
                Ok(v) => fetch(s.id.as_str(), v.as_str(), f),
                Err(e) => FetchAction::Fail(e),
            }
        },
    }
}

} // verus!
