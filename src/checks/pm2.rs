//! Whether pm2 is installed and has an ecosystem file in the repository.

use vstd::prelude::*;
use crate::report::{Finding, FindingView, Status};
use crate::checks::{flag_finding, flag_view};

verus! {

/// The findings of this check.
pub open spec fn findings(command: bool, ecosystem: bool) -> Seq<FindingView> {
    seq![
        flag_view(
            "pm2.command"@,
            "pm2 is available in PATH"@,
            command,
            Status::Warn,
            "pm2 command found"@,
            "pm2 command not found (install with: npm i -g pm2)"@,
        ),
        flag_view(
            "pm2.ecosystem"@,
            "pm2 ecosystem config exists in repo"@,
            ecosystem,
            Status::Warn,
            "Found ecosystem.config.*"@,
            "No ecosystem.config.* detected"@,
        ),
    ]
}

/// Whether pm2 is installed and has an ecosystem file in the repository.
pub fn check(command: bool, ecosystem: bool) -> (r: Vec<Finding>)
    ensures
        r@.map_values(|f: Finding| f@) == findings(command, ecosystem),
{
    let mut out: Vec<Finding> = Vec::new();
    out.push(flag_finding(
        "pm2.command",
        "pm2 is available in PATH",
        command,
        Status::Warn,
        "pm2 command found",
        "pm2 command not found (install with: npm i -g pm2)",
    ));
    out.push(flag_finding(
        "pm2.ecosystem",
        "pm2 ecosystem config exists in repo",
        ecosystem,
        Status::Warn,
        "Found ecosystem.config.*",
        "No ecosystem.config.* detected",
    ));
    assert(out@.map_values(|f: Finding| f@) =~= findings(command, ecosystem));
    out
}

} // verus!
