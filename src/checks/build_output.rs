//! Whether the build outputs of backend and frontend are present.

use vstd::prelude::*;
use crate::report::{Finding, FindingView, Status};
use crate::checks::{path_exists, path_view, PathProbe};

verus! {

/// The findings of this check.
pub open spec fn findings(be_dist: (Seq<char>, bool), fe_dist: (Seq<char>, bool)) -> Seq<FindingView> {
    seq![
        path_view(
            "build.be_dist"@,
            "Backend build output exists (apps/be/dist/index.js)"@,
            be_dist,
            Status::Warn,
        ),
        path_view(
            "build.fe_dist"@,
            "Frontend build output exists (apps/fe/dist)"@,
            fe_dist,
            Status::Warn,
        ),
    ]
}

/// Whether the build outputs of backend and frontend are present.
pub fn check(be_dist: &PathProbe, fe_dist: &PathProbe) -> (r: Vec<Finding>)
    ensures
        r@.map_values(|f: Finding| f@) == findings(be_dist@, fe_dist@),
{
    let mut out: Vec<Finding> = Vec::new();
    out.push(path_exists(
        "build.be_dist",
        "Backend build output exists (apps/be/dist/index.js)",
        be_dist,
        Status::Warn,
    ));
    out.push(path_exists(
        "build.fe_dist",
        "Frontend build output exists (apps/fe/dist)",
        fe_dist,
        Status::Warn,
    ));
    assert(out@.map_values(|f: Finding| f@) =~= findings(be_dist@, fe_dist@));
    out
}

} // verus!
