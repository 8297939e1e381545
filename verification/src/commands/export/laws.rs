//! What is exported, skill by skill.

use vstd::prelude::*;
use vstd::arithmetic::power2::{lemma_pow2_unfold, pow2};

use crate::commands::export::{
    doubled, export_next, exported_lines, skip_reason, skipped_skills, target_dir, unsafe_reason,
    ExportFacts, ExportView, PathState, SkillExport, SkillOutcome, BUNDLE_GET_MAX_ATTEMPTS,
    BUNDLE_GET_TIMEOUT_S,
};
use crate::picks::{lemma_picked, positions};
use crate::time::Timestamp;

verus! {

proof fn lemma_exported(s: Seq<SkillExport>, n: int, f: spec_fn(int) -> Option<Seq<char>>)
    requires
        0 <= n <= s.len(),
        forall|i: int| #[trigger]
            f(i) == (match s[i].outcome {
                SkillOutcome::Exported(v) => Some(
                    s[i].scope@ + "/"@ + s[i].slug@ + " (v"@ + v@ + ")"@,
                ),
                _ => None,
            }),
    ensures
        exported_lines(s, n) == positions(n).filter_map(f),
    decreases n,
{
    lemma_picked(n, f);
    if n > 0 {
        lemma_exported(s, n - 1, f);
    }
}

/// Every skill that was exported is told of, with its scope and its version, and no other.
pub proof fn law_every_exported_skill_is_told(s: Seq<SkillExport>)
    ensures
        exported_lines(s, s.len() as int) == positions(s.len() as int).filter_map(
            |i: int|
                match s[i].outcome {
                    SkillOutcome::Exported(v) => Some(
                        s[i].scope@ + "/"@ + s[i].slug@ + " (v"@ + v@ + ")"@,
                    ),
                    _ => None,
                },
        ),
{
    let f = |i: int|
        match s[i].outcome {
            SkillOutcome::Exported(v) => Some(s[i].scope@ + "/"@ + s[i].slug@ + " (v"@ + v@ + ")"@),
            _ => None,
        };
    lemma_exported(s, s.len() as int, f);
}

proof fn lemma_skipped(
    s: Seq<SkillExport>,
    n: int,
    f: spec_fn(int) -> Option<(Seq<char>, Seq<char>)>,
)
    requires
        0 <= n <= s.len(),
        forall|i: int| #[trigger]
            f(i) == (match s[i].outcome {
                SkillOutcome::NoVersion => Some((s[i].slug@, "no published version"@)),
                SkillOutcome::NoBundle => Some((s[i].slug@, "legacy version (no bundle)"@)),
                SkillOutcome::Failed(e) => Some((s[i].slug@, e@)),
                SkillOutcome::MkdirFailed(e) => Some((s[i].slug@, "mkdir: "@ + e@)),
                SkillOutcome::UnpackFailed(e) => Some((s[i].slug@, "unpack: "@ + e@)),
                SkillOutcome::Exported(_) => None,
            }),
    ensures
        skipped_skills(s, n) == positions(n).filter_map(f),
    decreases n,
{
    lemma_picked(n, f);
    if n > 0 {
        lemma_skipped(s, n - 1, f);
    }
}

/// Every skill that was not exported is told of with the reason, and no other.
pub proof fn law_every_skipped_skill_is_told(s: Seq<SkillExport>)
    ensures
        skipped_skills(s, s.len() as int) == positions(s.len() as int).filter_map(
            |i: int|
                match s[i].outcome {
                    SkillOutcome::NoVersion => Some((s[i].slug@, "no published version"@)),
                    SkillOutcome::NoBundle => Some((s[i].slug@, "legacy version (no bundle)"@)),
                    SkillOutcome::Failed(e) => Some((s[i].slug@, e@)),
                    SkillOutcome::MkdirFailed(e) => Some((s[i].slug@, "mkdir: "@ + e@)),
                    SkillOutcome::UnpackFailed(e) => Some((s[i].slug@, "unpack: "@ + e@)),
                    SkillOutcome::Exported(_) => None,
                },
        ),
{
    let f = |i: int|
        match s[i].outcome {
            SkillOutcome::NoVersion => Some((s[i].slug@, "no published version"@)),
            SkillOutcome::NoBundle => Some((s[i].slug@, "legacy version (no bundle)"@)),
            SkillOutcome::Failed(e) => Some((s[i].slug@, e@)),
            SkillOutcome::MkdirFailed(e) => Some((s[i].slug@, "mkdir: "@ + e@)),
            SkillOutcome::UnpackFailed(e) => Some((s[i].slug@, "unpack: "@ + e@)),
            SkillOutcome::Exported(_) => None,
        };
    lemma_skipped(s, s.len() as int, f);
}

/// Every skill is told of once: as exported or as skipped.
pub proof fn law_no_skill_is_lost(s: Seq<SkillExport>, n: int)
    requires
        0 <= n <= s.len(),
    ensures
        exported_lines(s, n).len() + skipped_skills(s, n).len() == n,
    decreases n,
{
    if n > 0 {
        law_no_skill_is_lost(s, n - 1);
        assert(skip_reason(s[n - 1].outcome) is None <==> s[n - 1].outcome is Exported);
    }
}

/// The wait before another try is a power of two in seconds; three tries are made, of one
/// minute each.
pub proof fn law_waits_are_powers_of_two(n: nat)
    ensures
        doubled(n) == pow2(n),
        BUNDLE_GET_MAX_ATTEMPTS == 3,
        BUNDLE_GET_TIMEOUT_S == 60,
    decreases n,
{
    if n == 0 {
        vstd::arithmetic::power2::lemma2_to64();
    } else {
        law_waits_are_powers_of_two((n - 1) as nat);
        lemma_pow2_unfold(n);
    }
}

/// A directory that is named is where the skills go, whenever it is. They may go to one that
/// is empty or not there yet, and to no other place.
pub proof fn law_skills_go_to_empty_places(dir: Seq<char>, now: Timestamp, p: PathState)
    ensures
        target_dir(Some(dir), now) == Some(dir),
        unsafe_reason(p) is None <==> p is Missing || p is Empty,
{
}

/// A skill is exported in its published version, from the archive of it, step by step, and
/// counts as exported only when the archive is unpacked.
pub proof fn law_exports_go_step_by_step(
    f: ExportFacts,
    v: Seq<char>,
    at: Seq<char>,
    packed: bool,
    url: Seq<char>,
)
    requires
        f.current is Some && f.current->0@ == v,
    ensures
        f.version is None ==> export_next(f) == (ExportView::GetVersion { id: f.id@, version: v }),
        (f.version matches Some(Ok((x, y))) && x@ == at && y == packed) ==> {
            &&& !packed ==> export_next(f) == ExportView::Skipped("legacy version (no bundle)"@)
            &&& packed && f.link is None ==> export_next(f) == (ExportView::AskLink {
                id: f.id@,
                version: at,
            })
            &&& packed && (f.link matches Some(Ok(u)) && u@ == url) ==> {
                &&& f.fetched is None ==> export_next(f) == (ExportView::Fetch { url })
                &&& f.fetched matches Some(Err(e)) ==> export_next(f) == ExportView::Skipped(e@)
                &&& f.fetched is Some && f.fetched->0 is Ok ==> {
                    &&& f.folder is None ==> export_next(f) == (ExportView::MakeFolder {
                        dir: f.dir@,
                    })
                    &&& f.folder is Some && f.folder->0 is Ok ==> {
                        &&& f.unpacked is None ==> export_next(f) == (ExportView::Unpack {
                            dir: f.dir@,
                        })
                        &&& f.unpacked is Some && f.unpacked->0 is Ok ==> export_next(f)
                            == ExportView::Exported(at)
                    }
                }
            }
        },
        export_next(f) is Exported ==> f.unpacked is Some && f.unpacked->0 is Ok && f.fetched
            is Some && f.fetched->0 is Ok,
{
}

/// A skill that was never published is left out.
pub proof fn law_unpublished_skills_are_left_out(f: ExportFacts)
    requires
        f.current is None,
    ensures
        export_next(f) == ExportView::Skipped("no published version"@),
{
}

} // verus!
