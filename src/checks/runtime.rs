//! Whether the bun and node runtimes are installed.

use vstd::prelude::*;
use crate::report::{Finding, FindingView, Status};
use crate::checks::{flag_finding, flag_view};

verus! {

/// The findings of this check.
pub open spec fn findings(bun: bool, node: bool) -> Seq<FindingView> {
    seq![
        flag_view(
            "runtime.bun"@,
            "bun is available in PATH"@,
            bun,
            Status::Fail,
            "bun command found"@,
            "bun command not found"@,
        ),
        flag_view(
            "runtime.node"@,
            "node is available in PATH (often needed for pm2/npm workflows)"@,
            node,
            Status::Warn,
            "node command found"@,
            "node command not found"@,
        ),
    ]
}

/// Whether the bun and node runtimes are installed.
pub fn check(bun: bool, node: bool) -> (r: Vec<Finding>)
    ensures
        r@.map_values(|f: Finding| f@) == findings(bun, node),
{
    let mut out: Vec<Finding> = Vec::new();
    out.push(flag_finding(
        "runtime.bun",
        "bun is available in PATH",
        bun,
        Status::Fail,
        "bun command found",
        "bun command not found",
    ));
    out.push(flag_finding(
        "runtime.node",
        "node is available in PATH (often needed for pm2/npm workflows)",
        node,
        Status::Warn,
        "node command found",
        "node command not found",
    ));
    assert(out@.map_values(|f: Finding| f@) =~= findings(bun, node));
    out
}

} // verus!
