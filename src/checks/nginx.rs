//! Whether nginx is installed and configured in the repository.

use vstd::prelude::*;
use crate::report::{Finding, FindingView, Status};
use crate::checks::{flag_finding, flag_view};

verus! {

/// The findings of this check.
pub open spec fn findings(command: bool, config_in_repo: bool) -> Seq<FindingView> {
    seq![
        flag_view(
            "nginx.command"@,
            "nginx is available in PATH"@,
            command,
            Status::Warn,
            "nginx command found"@,
            "nginx command not found (install via apt/brew or ensure PATH is set)"@,
        ),
        flag_view(
            "nginx.config_repo"@,
            "nginx config exists in repo"@,
            config_in_repo,
            Status::Warn,
            "Found nginx-related config file(s)"@,
            "No nginx config detected (consider adding an nginx/ folder or *.conf)"@,
        ),
    ]
}

/// Whether nginx is installed and configured in the repository.
pub fn check(command: bool, config_in_repo: bool) -> (r: Vec<Finding>)
    ensures
        r@.map_values(|f: Finding| f@) == findings(command, config_in_repo),
{
    let mut out: Vec<Finding> = Vec::new();
    out.push(flag_finding(
        "nginx.command",
        "nginx is available in PATH",
        command,
        Status::Warn,
        "nginx command found",
        "nginx command not found (install via apt/brew or ensure PATH is set)",
    ));
    out.push(flag_finding(
        "nginx.config_repo",
        "nginx config exists in repo",
        config_in_repo,
        Status::Warn,
        "Found nginx-related config file(s)",
        "No nginx config detected (consider adding an nginx/ folder or *.conf)",
    ));
    assert(out@.map_values(|f: Finding| f@) =~= findings(command, config_in_repo));
    out
}

} // verus!
