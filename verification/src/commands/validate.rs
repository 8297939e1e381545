//! `knack validate`: the check of a skill's folder before it is published.

use vstd::prelude::*;

use crate::json::{member_views, no_members, with_member, Json, JsonView};
use crate::skill_validators::ValidationReport;
use crate::text::concat3;

verus! {

/// The arguments of `knack validate`.
#[derive(Debug, Clone)]
pub struct ValidateArgs {
    pub dir: String,
}

/// What is reported of a folder: that nothing is wrong with it, or else what is.
pub fn run(args: &ValidateArgs, report: ValidationReport) -> (r: Result<Json, ValidationReport>)
    ensures
        if report@.len() == 0 {
            r is Ok && r->Ok_0.value() == JsonView::Object(
                seq![("dir"@, JsonView::Text(args.dir@)), ("ok"@, JsonView::Bool(true))],
            )
        } else {
            r is Err && r->Err_0 == report
        },
{
    if !report.is_ok() {
        return Err(report);
    }
    let m = with_member(no_members(), "dir", Json::text(args.dir.as_str()));
    let m = with_member(m, "ok", Json::Bool(true));
    assert(member_views(m@) =~= seq![
        ("dir"@, JsonView::Text(args.dir@)),
        ("ok"@, JsonView::Bool(true)),
    ]);
    Ok(Json::object(m))
}

/// What people are told of a folder that nothing is wrong with.
pub fn clean_line(dir: &str) -> (r: String)
    ensures
        r@ == "✓ "@ + dir@ + " validates cleanly"@,
{
    concat3("✓ ", dir, " validates cleanly")
}

} // verus!
