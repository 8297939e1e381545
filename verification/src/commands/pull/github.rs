//! `knack pull` from a repository, step by step.

use vstd::prelude::*;

use crate::commands::pull::{
    external_failed, github_pull_json, github_report, own_failed, pull_source, PullArgs, PullSource,
};
use crate::config::{below, join_path};
use crate::errors::{prefixed, CliError, ErrorView};
use crate::github::external::{spec_of, ExternalSpec, SpecView};
use crate::numbers::{decimal, usize_text};
use crate::output::{display_path, shown_path, Told};
use crate::slug::slug_parts;
use crate::text::{concat3, concat4, concat6, has_prefix, opt_view, views};
use crate::types::SkillPackage;

verus! {

/// Why a file is not on disk.
#[derive(Debug)]
pub enum FileFault {
    /// The directory that it lies in could not be made.
    Folder { path: String, error: String },
    File { error: String },
}

/// What is known while a skill is pulled from a repository.
#[derive(Debug)]
pub struct GithubPullFacts {
    pub pulled: Option<Result<SkillPackage, String>>,
    /// Whether the skill's directory could be made.
    pub folder: Option<Result<(), String>>,
    /// How each file went, in turn.
    pub written: Vec<Result<(), FileFault>>,
}

/// What is done next while a skill is pulled from a repository.
#[derive(Debug)]
pub enum GithubPullStep {
    PullExternal(ExternalSpec),
    PullOwn { slug: String, version: Option<String> },
    MakeFolder(String),
    /// Writes one of the files.
    WriteFile { index: usize, dest: String },
    Done(Told),
    Fail(CliError),
}

/// Where a skill is pulled from, as a mathematical value.
pub ghost enum PullFrom {
    External(SpecView),
    Own { slug: Seq<char>, version: Option<Seq<char>> },
}

/// Where a skill is pulled from, or what is wrong with the text that says so.
pub open spec fn pull_from(spec: Seq<char>) -> Result<PullFrom, ErrorView> {
    if has_prefix(spec, "@"@) {
        match spec_of(spec) {
            Ok(x) => Ok(PullFrom::External(x)),
            Err(m) => Err(
                ErrorView::User {
                    code: "INVALID_EXTERNAL_SPEC"@,
                    message: m,
                    hint: Some(
                        "valid forms: `@owner/slug`, `@owner/repo:slug`, `@owner/repo:slug@v0.1.0`"@,
                    ),
                },
            ),
        }
    } else {
        Ok(PullFrom::Own { slug: slug_parts(spec).0, version: slug_parts(spec).1 })
    }
}

/// The first file that is not on disk, from `from` on.
pub open spec fn first_fault(w: Seq<Result<(), FileFault>>, from: int) -> Option<int>
    decreases w.len() - from,
{
    if from < 0 || from >= w.len() {
        None
    } else if w[from] is Err {
        Some(from)
    } else {
        first_fault(w, from + 1)
    }
}

/// The error for a file that is not on disk.
pub open spec fn fault_error(f: FileFault, dest: Seq<char>) -> ErrorView {
    match f {
        FileFault::Folder { path, error } => ErrorView::Internal(
            "mkdir "@ + path@ + ": "@ + error@,
        ),
        FileFault::File { error } => ErrorView::Internal("write "@ + dest + ": "@ + error@),
    }
}

/// What people are told of a skill that was pulled.
pub open spec fn github_lines(p: SkillPackage, dir: Seq<char>) -> Seq<Seq<char>> {
    seq![
        "✓ "@ + p.slug@ + " v"@ + p.version@ + " → "@ + shown_path(dir),
        "  ("@ + decimal(p.files@.len()) + " files)"@,
    ]
}

/// The file of a fault is one of the package.
pub open spec fn faults_fit(f: GithubPullFacts) -> bool {
    f.pulled matches Some(Ok(p)) ==> f.written@.len() <= p.files@.len()
}

impl GithubPullStep {
    /// The step puts the package below `root`: first its directory, then each file, and
    /// at the first that fails it is over.
    pub open spec fn writes(&self, p: SkillPackage, root: Seq<char>, f: GithubPullFacts) -> bool {
        let dir = below(root, p.slug@);
        match f.folder {
            None => self matches GithubPullStep::MakeFolder(d) && d@ == dir,
            Some(Err(e)) => self matches GithubPullStep::Fail(x) && x@ == ErrorView::Internal(
                "create target dir: "@ + e@,
            ),
            Some(Ok(_)) => match first_fault(f.written@, 0) {
                Some(i) => self matches GithubPullStep::Fail(x) && x@ == fault_error(
                    f.written@[i]->Err_0,
                    below(dir, p.files@[i].path@),
                ),
                None => if f.written@.len() < p.files@.len() {
                    self matches GithubPullStep::WriteFile { index, dest } && index
                        == f.written@.len() && dest@ == below(dir, p.files@[index as int].path@)
                } else {
                    self matches GithubPullStep::Done(t) && t.report.value() == github_report(
                        p,
                        dir,
                    ) && views(t.lines@) == github_lines(p, dir)
                },
            },
        }
    }

    /// The step is the one that is due.
    pub open spec fn is_next(&self, args: PullArgs, root: Seq<char>, f: GithubPullFacts) -> bool {
        match pull_from(args.slug_at_version@) {
            Err(e) => self matches GithubPullStep::Fail(x) && x@ == e,
            Ok(from) => match f.pulled {
                None => match from {
                    PullFrom::External(s) => self matches GithubPullStep::PullExternal(x) && x@ == s,
                    PullFrom::Own { slug, version } => self matches GithubPullStep::PullOwn {
                        slug: a,
                        version: b,
                    } && a@ == slug && opt_view(*b) == version,
                },
                Some(Err(e)) => self matches GithubPullStep::Fail(x) && x@ == ErrorView::NotFound(
                    (if from is External {
                        "external pull failed: "@
                    } else {
                        "github pull: "@
                    }) + e@,
                ),
                Some(Ok(p)) => self.writes(p, root, f),
            },
        }
    }
}

fn tell_fault(f: &FileFault, dest: &str) -> (r: CliError)
    ensures
        r@ == fault_error(*f, dest@),
{
    match f {
        FileFault::Folder { path, error } => CliError::Internal(
            concat4("mkdir ", path.as_str(), ": ", error.as_str()),
        ),
        FileFault::File { error } => CliError::Internal(
            concat4("write ", dest, ": ", error.as_str()),
        ),
    }
}

/// Puts a package on disk below a directory: what is done next.
fn write_package(p: &SkillPackage, root: &str, f: &GithubPullFacts) -> (r: GithubPullStep)
    requires
        f.written@.len() <= p.files@.len(),
    ensures
        r.writes(*p, root@, *f),
{
    let dir = join_path(root, p.slug.as_str());
    match &f.folder {
        None => {
            return GithubPullStep::MakeFolder(dir);
        },
        Some(Err(e)) => {
            return GithubPullStep::Fail(
                CliError::Internal(prefixed("create target dir: ", e.as_str())),
            );
        },
        Some(Ok(_)) => {},
    }
    let mut i: usize = 0;
    while i < f.written.len()
        invariant
            i <= f.written.len(),
            f.written@.len() <= p.files@.len(),
            dir@ == below(root@, p.slug@),
            f.folder matches Some(Ok(_)),
            first_fault(f.written@, 0) == first_fault(f.written@, i as int),
        decreases f.written.len() - i,
    {
        match &f.written[i] {
            Ok(_) => {},
            Err(e) => {
                let dest = join_path(dir.as_str(), p.files[i].path.as_str());
                return GithubPullStep::Fail(tell_fault(e, dest.as_str()));
            },
        }
        i += 1;
    }
    if i < p.files.len() {
        return GithubPullStep::WriteFile {
            index: i,
            dest: join_path(dir.as_str(), p.files[i].path.as_str()),
        };
    }
    let shown = display_path(dir.as_str());
    let n = usize_text(p.files.len());
    let mut lines: Vec<String> = Vec::new();
    lines.push(
        concat6("✓ ", p.slug.as_str(), " v", p.version.as_str(), " → ", shown.as_str()),
    );
    lines.push(concat3("  (", n.as_str(), " files)"));
    assert(views(lines@) =~= github_lines(*p, dir@));
    GithubPullStep::Done(Told { report: github_pull_json(p, dir.as_str()), lines })
}

/// What is done next while a skill is pulled from a repository into the directory
/// `root`.
pub fn github_pull(args: &PullArgs, root: &str, f: &GithubPullFacts) -> (r: GithubPullStep)
    requires
        faults_fit(*f),
    ensures
        r.is_next(*args, root@, *f),
{
    let from = match pull_source(args.slug_at_version.as_str()) {
        Ok(s) => s,
        Err(e) => {
            return GithubPullStep::Fail(e);
        },
    };
    match &f.pulled {
        Some(Ok(p)) => write_package(p, root, f),
        Some(Err(e)) => match from {
            PullSource::External(_) => GithubPullStep::Fail(external_failed(e.as_str())),
            PullSource::Own { slug: _, version: _ } => GithubPullStep::Fail(own_failed(e.as_str())),
        },
        None => match from {
            PullSource::External(s) => GithubPullStep::PullExternal(s),
            PullSource::Own { slug, version } => GithubPullStep::PullOwn { slug, version },
        },
    }
}

/// Nothing is reported as pulled before every file is on disk.
pub proof fn law_pulled_means_written(
    step: GithubPullStep,
    args: PullArgs,
    root: Seq<char>,
    f: GithubPullFacts,
)
    requires
        step.is_next(args, root, f),
        step is Done,
    ensures
        f.pulled matches Some(Ok(p)) && f.written@.len() >= p.files@.len() && forall|i: int|
            0 <= i < p.files@.len() ==> #[trigger] f.written@[i] is Ok,
{
    let w = f.written@;
    assert forall|i: int| 0 <= i < w.len() implies #[trigger] w[i] is Ok by {
        lemma_no_fault(w, 0, i);
    }
}

proof fn lemma_no_fault(w: Seq<Result<(), FileFault>>, from: int, i: int)
    requires
        0 <= from <= i < w.len(),
        first_fault(w, from) is None,
    ensures
        w[i] is Ok,
    decreases i - from,
{
    if from < i {
        lemma_no_fault(w, from + 1, i);
    }
}

} // verus!
