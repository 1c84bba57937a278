//! The production-readiness checks. Each check takes what was observed on
//! the machine (whether a path exists, whether a command is installed, the
//! text of a file) and decides the findings.

pub mod build_output;
pub mod ci;
pub mod env;
pub mod nginx;
pub mod pm2;
pub mod runtime;

use vstd::prelude::*;
use crate::report::{build_report, finding, with_meta, Finding, FindingView, Report, Status};

verus! {

/// Which checks to run.
#[derive(Debug, Clone, Copy, PartialEq, Eq, Structural)]
pub enum CheckTarget {
    All,
    Nginx,
    Pm2,
    Build,
    Env,
    Ci,
    Runtime,
}

/// A path that a check looks for, and whether it was found.
#[derive(Debug, Clone)]
pub struct PathProbe {
    pub path: String,
    pub exists: bool,
}

impl View for PathProbe {
    type V = (Seq<char>, bool);

    open spec fn view(&self) -> (Seq<char>, bool) {
        (self.path@, self.exists)
    }
}

/// What was observed on the machine for every check.
#[derive(Debug, Clone)]
pub struct Probes {
    pub nginx_command: bool,
    pub nginx_config_in_repo: bool,
    pub pm2_command: bool,
    pub pm2_ecosystem: bool,
    pub be_dist: PathProbe,
    pub fe_dist: PathProbe,
    pub env_example: PathProbe,
    pub env_file: PathProbe,
    /// The text of the env example file; empty where it could not be read.
    pub env_example_text: String,
    /// The text of the env file; empty where it could not be read.
    pub env_text: String,
    pub ci_workflow: PathProbe,
    pub bun_command: bool,
    pub node_command: bool,
}

/// A finding on whether something is present: `Pass` with `found` where it
/// is, `missing` with `not_found` where it is not.
pub open spec fn flag_view(
    id: Seq<char>,
    title: Seq<char>,
    present: bool,
    missing: Status,
    found: Seq<char>,
    not_found: Seq<char>,
) -> FindingView {
    FindingView {
        id,
        title,
        status: if present { Status::Pass } else { missing },
        details: if present { found } else { not_found },
        meta: seq![],
    }
}

/// A finding on whether a path exists, which names the path under `path`.
pub open spec fn path_view(id: Seq<char>, title: Seq<char>, probe: (Seq<char>, bool), missing: Status) -> FindingView {
    FindingView {
        meta: seq![("path"@, probe.0)],
        ..flag_view(id, title, probe.1, missing, "Found"@, "Not found"@)
    }
}

/// A finding on whether something is present.
pub fn flag_finding(id: &str, title: &str, present: bool, missing: Status, found: &str, not_found: &str) -> (f: Finding)
    ensures
        f@ == flag_view(id@, title@, present, missing, found@, not_found@),
{
    if present {
        finding(id, title, Status::Pass, found)
    } else {
        finding(id, title, missing, not_found)
    }
}

/// A finding on whether the path of `probe` exists.
pub fn path_exists(id: &str, title: &str, probe: &PathProbe, missing: Status) -> (f: Finding)
    ensures
        f@ == path_view(id@, title@, probe@, missing),
{
    let f = flag_finding(id, title, probe.exists, missing, "Found", "Not found");
    with_meta(f, "path", probe.path.clone())
}

/// The checks that `target` stands for, in the order they run.
pub open spec fn targets_of(target: CheckTarget) -> Seq<CheckTarget> {
    if target == CheckTarget::All {
        seq![CheckTarget::Nginx, CheckTarget::Pm2, CheckTarget::Build, CheckTarget::Env, CheckTarget::Ci, CheckTarget::Runtime]
    } else {
        seq![target]
    }
}

/// The checks that `target` stands for, in the order they run.
pub fn check_targets(target: CheckTarget) -> (r: Vec<CheckTarget>)
    ensures
        r@ == targets_of(target),
{
    let r = match target {
        CheckTarget::All => vec![
            CheckTarget::Nginx,
            CheckTarget::Pm2,
            CheckTarget::Build,
            CheckTarget::Env,
            CheckTarget::Ci,
            CheckTarget::Runtime,
        ],
        other => vec![other],
    };
    assert(r@ =~= targets_of(target));
    r
}

/// The findings of one check on what `p` observed.
pub open spec fn target_findings(t: CheckTarget, p: Probes) -> Seq<FindingView> {
    match t {
        CheckTarget::Nginx => nginx::findings(p.nginx_command, p.nginx_config_in_repo),
        CheckTarget::Pm2 => pm2::findings(p.pm2_command, p.pm2_ecosystem),
        CheckTarget::Build => build_output::findings(p.be_dist@, p.fe_dist@),
        CheckTarget::Env => env::findings(p.env_example@, p.env_file@, p.env_example_text@, p.env_text@),
        CheckTarget::Ci => ci::findings(p.ci_workflow@),
        CheckTarget::Runtime => runtime::findings(p.bun_command, p.node_command),
        CheckTarget::All => seq![],
    }
}

/// The findings of the checks `ts`, one check after the other.
pub open spec fn all_findings(ts: Seq<CheckTarget>, p: Probes) -> Seq<FindingView>
    decreases ts.len(),
{
    if ts.len() == 0 {
        seq![]
    } else {
        all_findings(ts.drop_last(), p) + target_findings(ts.last(), p)
    }
}

fn run_target(t: CheckTarget, p: &Probes) -> (r: Vec<Finding>)
    ensures
        r@.map_values(|f: Finding| f@) == target_findings(t, *p),
{
    match t {
        CheckTarget::Nginx => nginx::check(p.nginx_command, p.nginx_config_in_repo),
        CheckTarget::Pm2 => pm2::check(p.pm2_command, p.pm2_ecosystem),
        CheckTarget::Build => build_output::check(&p.be_dist, &p.fe_dist),
        CheckTarget::Env => env::check(&p.env_example, &p.env_file, p.env_example_text.as_str(), p.env_text.as_str()),
        CheckTarget::Ci => ci::check(&p.ci_workflow),
        CheckTarget::Runtime => runtime::check(p.bun_command, p.node_command),
        CheckTarget::All => {
            let r: Vec<Finding> = Vec::new();
            assert(r@.map_values(|f: Finding| f@) =~= seq![]);
            r
        },
    }
}

/// Runs the checks that `target` stands for on what `probes` observed under
/// `root`, and gathers their findings, in order, into a report.
pub fn run_checks(root: String, target: CheckTarget, probes: &Probes) -> (r: Report)
    ensures
        r.root@ == root@,
        r.findings@.map_values(|f: Finding| f@) == all_findings(targets_of(target), *probes),
        r.counts.ok == crate::report::count_status(r.findings@, Status::Pass, r.findings@.len() as int),
        r.counts.warn == crate::report::count_status(r.findings@, Status::Warn, r.findings@.len() as int),
        r.counts.fail == crate::report::count_status(r.findings@, Status::Fail, r.findings@.len() as int),
{
    let targets = check_targets(target);
    let mut findings: Vec<Finding> = Vec::new();
    let mut k: usize = 0;
    while k < targets.len()
        invariant
            k <= targets@.len(),
            targets@ == targets_of(target),
            findings@.map_values(|f: Finding| f@) == all_findings(targets@.take(k as int), *probes),
        decreases targets@.len() - k,
    {
        let mut more = run_target(targets[k], probes);
        let ghost before = findings@;
        let ghost extra = more@;
        findings.append(&mut more);
        assert(targets@.take(k + 1).drop_last() =~= targets@.take(k as int));
        assert(findings@.map_values(|f: Finding| f@) =~= before.map_values(|f: Finding| f@) + extra.map_values(|f: Finding| f@));
        k = k + 1;
    }
    assert(targets@.take(k as int) =~= targets@);
    build_report(root, findings)
}

} // verus!
