//! Whether the backend's env files are present and complete.

use vstd::prelude::*;
use crate::checks::{path_exists, path_view, PathProbe};
use crate::env_keys::{ascending, env_keys, missing_env_keys};
use crate::report::{finding, with_meta, Finding, FindingView, Status};
use crate::text::{decimal, decimal_text, join_texts, joined};
use vstd::string::StringExecFns;

verus! {

/// The findings of this check. The keys are compared only where both files exist.
pub open spec fn findings(
    example: (Seq<char>, bool),
    env: (Seq<char>, bool),
    example_text: Seq<char>,
    env_text: Seq<char>,
) -> Seq<FindingView> {
    let base = seq![
        path_view("env.be_example"@, "Backend env example exists (apps/be/.env.example)"@, example, Status::Fail),
        path_view("env.be"@, "Backend env file exists (apps/be/.env)"@, env, Status::Warn),
    ];
    if example.1 && env.1 {
        let missing = ascending(env_keys(example_text).difference(env_keys(env_text)));
        if missing.len() == 0 {
            base.push(FindingView {
                id: "env.required_keys"@,
                title: "Backend .env contains all keys from .env.example"@,
                status: Status::Pass,
                details: "No missing keys"@,
                meta: seq![],
            })
        } else {
            base.push(FindingView {
                id: "env.required_keys"@,
                title: "Backend .env contains all keys from .env.example"@,
                status: Status::Warn,
                details: "Missing keys: "@ + joined(missing, ", "@),
                meta: seq![("count"@, decimal(missing.len()))],
            })
        }
    } else {
        base
    }
}

/// Whether the backend's env files are present, and whether the env file
/// defines every key of the example.
pub fn check(example: &PathProbe, env: &PathProbe, example_text: &str, env_text: &str) -> (r: Vec<Finding>)
    ensures
        r@.map_values(|f: Finding| f@) == findings(example@, env@, example_text@, env_text@),
{
    let mut out: Vec<Finding> = Vec::new();
    out.push(path_exists("env.be_example", "Backend env example exists (apps/be/.env.example)", example, Status::Fail));
    out.push(path_exists("env.be", "Backend env file exists (apps/be/.env)", env, Status::Warn));
    if example.exists && env.exists {
        let missing = missing_env_keys(example_text, env_text);
        if missing.len() == 0 {
            out.push(finding(
                "env.required_keys",
                "Backend .env contains all keys from .env.example",
                Status::Pass,
                "No missing keys",
            ));
        } else {
            let mut details = String::from_str("Missing keys: ");
            let list = join_texts(&missing, ", ");
            details.append(list.as_str());
            let f = finding(
                "env.required_keys",
                "Backend .env contains all keys from .env.example",
                Status::Warn,
                details.as_str(),
            );
            out.push(with_meta(f, "count", decimal_text(missing.len())));
        }
    }
    assert(out@.map_values(|f: Finding| f@) =~= findings(example@, env@, example_text@, env_text@));
    out
}

} // verus!
