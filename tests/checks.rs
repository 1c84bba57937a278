use route_analyzer::checks::{check_targets, run_checks, CheckTarget, PathProbe, Probes};
use route_analyzer::env_keys::{missing_env_keys, parse_env_keys};
use route_analyzer::file_tree::{is_listed_entry, order_file_nodes, should_ignore, FileNode};
use route_analyzer::report::{exit_code, finding, report_text, Report, Status, StatusCounts};
use route_analyzer::repo::{ecosystem_file_names, has_pm2_ecosystem, has_repo_nginx_config, is_walked_name};
use route_analyzer::text::decimal_text;

fn probe(path: &str, exists: bool) -> PathProbe {
    PathProbe { path: path.to_string(), exists }
}

fn probes() -> Probes {
    Probes {
        nginx_command: true,
        nginx_config_in_repo: false,
        pm2_command: false,
        pm2_ecosystem: true,
        be_dist: probe("/repo/apps/be/dist/index.js", true),
        fe_dist: probe("/repo/apps/fe/dist", false),
        env_example: probe("/repo/apps/be/.env.example", true),
        env_file: probe("/repo/apps/be/.env", true),
        env_example_text: "A=1\nB=2\n# C=3\nD=4\n".to_string(),
        env_text: "A=9\n".to_string(),
        ci_workflow: probe("/repo/.github/workflows/ci.yml", true),
        bun_command: false,
        node_command: true,
    }
}

#[test]
fn env_keys_are_parsed_line_by_line() {
    let keys = parse_env_keys("B=1\r\n# A=2\n\n  A = x=y \nnoequals\n=5\nB=3");
    assert_eq!(keys, vec!["A".to_string(), "B".to_string()]);
    assert!(parse_env_keys("").is_empty());
}

#[test]
fn missing_keys_are_sorted() {
    let m = missing_env_keys("Z=1\nA=1\nM=1", "M=2");
    assert_eq!(m, vec!["A".to_string(), "Z".to_string()]);
    assert!(missing_env_keys("A=1", "A=2\nB=3").is_empty());
}

#[test]
fn all_targets_run_in_order() {
    let t = check_targets(CheckTarget::All);
    assert_eq!(
        t,
        vec![CheckTarget::Nginx, CheckTarget::Pm2, CheckTarget::Build, CheckTarget::Env, CheckTarget::Ci, CheckTarget::Runtime]
    );
    assert_eq!(check_targets(CheckTarget::Ci), vec![CheckTarget::Ci]);
}

#[test]
fn full_run_counts_statuses() {
    let r = run_checks("/repo".to_string(), CheckTarget::All, &probes());
    let ids: Vec<&str> = r.findings.iter().map(|f| f.id.as_str()).collect();
    assert_eq!(
        ids,
        vec![
            "nginx.command", "nginx.config_repo", "pm2.command", "pm2.ecosystem", "build.be_dist", "build.fe_dist",
            "env.be_example", "env.be", "env.required_keys", "ci.workflow", "runtime.bun", "runtime.node",
        ]
    );
    assert_eq!(r.counts, StatusCounts { ok: 7, warn: 4, fail: 1 });
    let keys = &r.findings[8];
    assert_eq!(keys.status, Status::Warn);
    assert_eq!(keys.details, "Missing keys: B, D");
    assert_eq!(keys.meta, vec![("count".to_string(), "2".to_string())]);
    assert_eq!(r.findings[4].meta, vec![("path".to_string(), "/repo/apps/be/dist/index.js".to_string())]);
    assert_eq!(r.findings[5].details, "Not found");
    assert_eq!(r.findings[10].status, Status::Fail);
    assert_eq!(exit_code(&r, false), 2);
}

#[test]
fn env_check_skips_keys_without_both_files() {
    let mut p = probes();
    p.env_file.exists = false;
    let r = run_checks("/repo".to_string(), CheckTarget::Env, &p);
    assert_eq!(r.findings.len(), 2);
    assert_eq!(r.findings[0].status, Status::Pass);
    assert_eq!(r.findings[1].status, Status::Warn);
    p.env_file.exists = true;
    p.env_text = "A=1\nB=1\nD=1".to_string();
    let r = run_checks("/repo".to_string(), CheckTarget::Env, &p);
    assert_eq!(r.findings[2].details, "No missing keys");
    assert_eq!(r.findings[2].status, Status::Pass);
}

fn report_of(statuses: &[Status]) -> Report {
    let findings = statuses.iter().map(|s| finding("x", "t", *s, "d")).collect();
    Report { root: String::new(), counts: StatusCounts { ok: 0, warn: 0, fail: 0 }, findings }
}

#[test]
fn exit_codes() {
    assert_eq!(exit_code(&report_of(&[Status::Pass]), true), 0);
    assert_eq!(exit_code(&report_of(&[Status::Pass, Status::Warn]), false), 1);
    assert_eq!(exit_code(&report_of(&[Status::Warn]), true), 2);
    assert_eq!(exit_code(&report_of(&[Status::Warn, Status::Fail]), false), 2);
    assert_eq!(exit_code(&report_of(&[]), false), 0);
}

#[test]
fn decimal_numerals() {
    assert_eq!(decimal_text(0), "0");
    assert_eq!(decimal_text(7), "7");
    assert_eq!(decimal_text(1207), "1207");
}

fn path(parts: &[&str]) -> Vec<String> {
    parts.iter().map(|s| s.to_string()).collect()
}

#[test]
fn nginx_config_detection() {
    assert!(has_repo_nginx_config(&vec![path(&["/", "repo", "deploy", "Site-NGINX.Conf"])]));
    assert!(has_repo_nginx_config(&vec![path(&["/", "repo", "README.md"]), path(&["/", "repo", "Nginx", "x.txt"])]));
    assert!(!has_repo_nginx_config(&vec![path(&["/", "repo", "nginx.txt"]), path(&["/", "repo", "app.conf"])]));
    assert!(!has_repo_nginx_config(&vec![]));
}

#[test]
fn pm2_ecosystem_detection() {
    assert!(has_pm2_ecosystem(&path(&["package.json", "ecosystem.config.cjs"])));
    assert!(!has_pm2_ecosystem(&path(&["package.json", "ecosystem.config.ts"])));
}

fn node(name: &str, is_dir: bool) -> FileNode {
    FileNode { name: name.to_string(), path: format!("/p/{name}"), is_dir, children: None, extension: None }
}

#[test]
fn listing_order_and_filter() {
    let r = order_file_nodes(vec![node("b.ts", false), node("Src", true), node("a.ts", false), node("B.md", false), node("lib", true)]);
    let names: Vec<&str> = r.iter().map(|n| n.name.as_str()).collect();
    assert_eq!(names, vec!["lib", "Src", "a.ts", "B.md", "b.ts"]);
    assert!(should_ignore("node_modules"));
    assert!(!should_ignore("src"));
    assert!(is_listed_entry(".env.example", false));
    assert!(!is_listed_entry(".env", false));
    assert!(!is_listed_entry("dist", true));
    assert!(is_listed_entry("dist", false));
}

#[test]
fn printed_report() {
    let mut p = probes();
    p.env_file.exists = false;
    let r = run_checks("/repo".to_string(), CheckTarget::Ci, &p);
    assert_eq!(
        report_text(&r),
        "Root: /repo\nCounts: ok=1 warn=0 fail=0\n\n[Ok] GitHub Actions workflow exists (.github/workflows/ci.yml) (ci.workflow)\n  Found\n  - path: /repo/.github/workflows/ci.yml\n\n"
    );
    let r = run_checks("/repo".to_string(), CheckTarget::Runtime, &p);
    assert_eq!(
        report_text(&r),
        "Root: /repo\nCounts: ok=1 warn=0 fail=1\n\n[Fail] bun is available in PATH (runtime.bun)\n  bun command not found\n\n[Ok] node is available in PATH (often needed for pm2/npm workflows) (runtime.node)\n  node command found\n\n"
    );
}

#[test]
fn walk_skips_dependency_and_build_dirs() {
    assert!(!is_walked_name("node_modules"));
    assert!(!is_walked_name("target"));
    assert!(!is_walked_name(".git"));
    assert!(is_walked_name("nginx"));
}

#[test]
fn ecosystem_candidates() {
    let names = ecosystem_file_names();
    assert_eq!(names.len(), 5);
    assert!(has_pm2_ecosystem(&names));
    assert!(names.contains(&"ecosystem.config.yaml".to_string()));
}
