//! Whether the repository has a CI workflow.

use vstd::prelude::*;
use crate::report::{Finding, FindingView, Status};
use crate::checks::{path_exists, path_view, PathProbe};

verus! {

/// The findings of this check.
pub open spec fn findings(workflow: (Seq<char>, bool)) -> Seq<FindingView> {
    seq![
        path_view(
            "ci.workflow"@,
            "GitHub Actions workflow exists (.github/workflows/ci.yml)"@,
            workflow,
            Status::Warn,
        ),
    ]
}

/// Whether the repository has a CI workflow.
pub fn check(workflow: &PathProbe) -> (r: Vec<Finding>)
    ensures
        r@.map_values(|f: Finding| f@) == findings(workflow@),
{
    let mut out: Vec<Finding> = Vec::new();
    out.push(path_exists(
        "ci.workflow",
        "GitHub Actions workflow exists (.github/workflows/ci.yml)",
        workflow,
        Status::Warn,
    ));
    assert(out@.map_values(|f: Finding| f@) =~= findings(workflow@));
    out
}

} // verus!
