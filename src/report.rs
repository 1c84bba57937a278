//! Findings of the readiness checks, and the report that gathers them.

use vstd::prelude::*;
use vstd::string::StringExecFns;
use crate::text::{decimal, decimal_text};

verus! {

/// How a check came out; `Pass < Warn < Fail`; `Pass` is shown as `ok`.
#[derive(Debug, Clone, Copy, PartialEq, Eq, Structural, PartialOrd, Ord)]
pub enum Status {
    Pass,
    Warn,
    Fail,
}

/// The outcome of one check. `meta` holds extra key/value details in the
/// order they were added; each check gives a finding at most one.
#[derive(Debug, Clone)]
pub struct Finding {
    pub id: String,
    pub title: String,
    pub status: Status,
    pub details: String,
    pub meta: Vec<(String, String)>,
}

pub ghost struct FindingView {
    pub id: Seq<char>,
    pub title: Seq<char>,
    pub status: Status,
    pub details: Seq<char>,
    pub meta: Seq<(Seq<char>, Seq<char>)>,
}

impl View for Finding {
    type V = FindingView;

    open spec fn view(&self) -> FindingView {
        FindingView {
            id: self.id@,
            title: self.title@,
            status: self.status,
            details: self.details@,
            meta: self.meta@.map_values(|kv: (String, String)| (kv.0@, kv.1@)),
        }
    }
}

/// The views of a sequence of findings.
pub open spec fn findings_view(v: Seq<Finding>) -> Seq<FindingView> {
    v.map_values(|f: Finding| f@)
}

/// How many findings came out with each status.
#[derive(Debug, Clone, Copy, PartialEq, Eq, Structural)]
pub struct StatusCounts {
    pub ok: usize,
    pub warn: usize,
    pub fail: usize,
}

/// All findings of one run, with the root that was checked.
#[derive(Debug, Clone)]
pub struct Report {
    pub root: String,
    pub counts: StatusCounts,
    pub findings: Vec<Finding>,
}

/// A finding with no extra details.
pub fn finding(id: &str, title: &str, status: Status, details: &str) -> (f: Finding)
    ensures
        f@ == (FindingView { id: id@, title: title@, status, details: details@, meta: seq![] }),
{
    let f = Finding {
        id: String::from_str(id),
        title: String::from_str(title),
        status,
        details: String::from_str(details),
        meta: Vec::new(),
    };
    assert(f@.meta =~= seq![]);
    f
}

/// `f` with the single extra detail `key: value`.
pub(crate) fn with_meta(f: Finding, key: &str, value: String) -> (r: Finding)
    requires
        f@.meta.len() == 0,
    ensures
        r@ == (FindingView { meta: seq![(key@, value@)], ..f@ }),
{
    let mut f = f;
    f.meta.push((String::from_str(key), value));
    assert(f@.meta =~= seq![(key@, value@)]);
    f
}

/// The number of the first `n` findings with status `s`.
pub open spec fn count_status(v: Seq<Finding>, s: Status, n: int) -> nat
    decreases n,
{
    if n <= 0 {
        0
    } else {
        count_status(v, s, n - 1) + if v[n - 1].status == s { 1nat } else { 0nat }
    }
}

/// Whether some finding has status `s`.
pub open spec fn any_status(v: Seq<Finding>, s: Status) -> bool {
    exists|i: int| 0 <= i < v.len() && #[trigger] v[i].status == s
}

proof fn lemma_count_bounded(v: Seq<Finding>, s: Status, n: int)
    ensures
        count_status(v, s, n) <= if n < 0 { 0 } else { n },
    decreases n,
{
    if n > 0 {
        lemma_count_bounded(v, s, n - 1);
    }
}

/// Gathers the findings of a run over `root` into a report with the count
/// of each status.
pub fn build_report(root: String, findings: Vec<Finding>) -> (r: Report)
    ensures
        r.root@ == root@,
        r.findings@ == findings@,
        r.counts.ok == count_status(findings@, Status::Pass, findings@.len() as int),
        r.counts.warn == count_status(findings@, Status::Warn, findings@.len() as int),
        r.counts.fail == count_status(findings@, Status::Fail, findings@.len() as int),
{
    let mut counts = StatusCounts { ok: 0, warn: 0, fail: 0 };
    let mut i: usize = 0;
    while i < findings.len()
        invariant
            i <= findings@.len(),
            counts.ok == count_status(findings@, Status::Pass, i as int),
            counts.warn == count_status(findings@, Status::Warn, i as int),
            counts.fail == count_status(findings@, Status::Fail, i as int),
        decreases findings@.len() - i,
    {
        proof {
            lemma_count_bounded(findings@, Status::Pass, i as int);
            lemma_count_bounded(findings@, Status::Warn, i as int);
            lemma_count_bounded(findings@, Status::Fail, i as int);
        }
        match findings[i].status {
            Status::Pass => counts.ok = counts.ok + 1,
            Status::Warn => counts.warn = counts.warn + 1,
            Status::Fail => counts.fail = counts.fail + 1,
        }
        i = i + 1;
    }
    Report { root, counts, findings }
}

/// The process exit code for a report: 2 where a check failed, or where a
/// check warned under `strict`; 1 where a check warned; 0 otherwise.
pub open spec fn exit_code_of(findings: Seq<Finding>, strict: bool) -> i32 {
    if any_status(findings, Status::Fail) {
        2
    } else if strict && any_status(findings, Status::Warn) {
        2
    } else if any_status(findings, Status::Warn) {
        1
    } else {
        0
    }
}

fn has_status(findings: &Vec<Finding>, s: Status) -> (r: bool)
    ensures
        r == any_status(findings@, s),
{
    let mut i: usize = 0;
    while i < findings.len()
        invariant
            i <= findings@.len(),
            forall|k: int| 0 <= k < i ==> findings@[k].status != s,
        decreases findings@.len() - i,
    {
        if findings[i].status == s {
            return true;
        }
        i = i + 1;
    }
    false
}

/// The process exit code for `report`.
pub fn exit_code(report: &Report, strict: bool) -> (r: i32)
    ensures
        r == exit_code_of(report.findings@, strict),
{
    let has_fail = has_status(&report.findings, Status::Fail);
    let has_warn = has_status(&report.findings, Status::Warn);
    if has_fail {
        return 2;
    }
    if strict && has_warn {
        return 2;
    }
    if has_warn {
        return 1;
    }
    0
}

/// How a status is shown in the printed report.
pub open spec fn status_label(s: Status) -> Seq<char> {
    match s {
        Status::Pass => "Ok"@,
        Status::Warn => "Warn"@,
        Status::Fail => "Fail"@,
    }
}

fn status_label_text(s: Status) -> (r: &'static str)
    ensures
        r@ == status_label(s),
{
    match s {
        Status::Pass => "Ok",
        Status::Warn => "Warn",
        Status::Fail => "Fail",
    }
}

/// One line `  - key: value` for each extra detail.
pub open spec fn meta_lines(meta: Seq<(Seq<char>, Seq<char>)>) -> Seq<char>
    decreases meta.len(),
{
    if meta.len() == 0 {
        seq![]
    } else {
        meta_lines(meta.drop_last()) + "  - "@ + meta.last().0 + ": "@ + meta.last().1 + "\n"@
    }
}

/// The printed lines of one finding, and an empty line after them.
pub open spec fn finding_text(f: FindingView) -> Seq<char> {
    "["@ + status_label(f.status) + "] "@ + f.title + " ("@ + f.id + ")\n"@ + "  "@ + f.details + "\n"@
        + meta_lines(f.meta) + "\n"@
}

/// The printed lines of the findings, in order.
pub open spec fn findings_text(fs: Seq<FindingView>) -> Seq<char>
    decreases fs.len(),
{
    if fs.len() == 0 {
        seq![]
    } else {
        findings_text(fs.drop_last()) + finding_text(fs.last())
    }
}

/// The printed report: the root, the counts, an empty line, then each finding.
pub open spec fn report_text_of(root: Seq<char>, counts: StatusCounts, fs: Seq<FindingView>) -> Seq<char> {
    "Root: "@ + root + "\n"@ + "Counts: ok="@ + decimal(counts.ok as nat) + " warn="@ + decimal(counts.warn as nat)
        + " fail="@ + decimal(counts.fail as nat) + "\n"@ + "\n"@ + findings_text(fs)
}

fn finding_lines(f: &Finding) -> (r: String)
    ensures
        r@ == finding_text(f@),
{
    let mut r = String::from_str("[");
    r.append(status_label_text(f.status));
    r.append("] ");
    r.append(f.title.as_str());
    r.append(" (");
    r.append(f.id.as_str());
    r.append(")\n");
    r.append("  ");
    r.append(f.details.as_str());
    r.append("\n");
    let ghost head = r@;
    let ghost mv = f@.meta;
    let mut i: usize = 0;
    while i < f.meta.len()
        invariant
            i <= f.meta@.len(),
            mv == f@.meta,
            mv.len() == f.meta@.len(),
            r@ == head + meta_lines(mv.take(i as int)),
        decreases f.meta@.len() - i,
    {
        assert(mv.take(i + 1).drop_last() =~= mv.take(i as int));
        assert(mv.take(i + 1).last() == (f.meta@[i as int].0@, f.meta@[i as int].1@));
        r.append("  - ");
        r.append(f.meta[i].0.as_str());
        r.append(": ");
        r.append(f.meta[i].1.as_str());
        r.append("\n");
        assert(r@ =~= head + meta_lines(mv.take(i + 1)));
        i = i + 1;
    }
    assert(mv.take(i as int) =~= mv);
    r.append("\n");
    assert(r@ =~= finding_text(f@));
    r
}

/// The report as it is printed for people.
pub fn report_text(report: &Report) -> (r: String)
    ensures
        r@ == report_text_of(report.root@, report.counts, findings_view(report.findings@)),
{
    let mut r = String::from_str("Root: ");
    r.append(report.root.as_str());
    r.append("\n");
    r.append("Counts: ok=");
    r.append(decimal_text(report.counts.ok).as_str());
    r.append(" warn=");
    r.append(decimal_text(report.counts.warn).as_str());
    r.append(" fail=");
    r.append(decimal_text(report.counts.fail).as_str());
    r.append("\n");
    r.append("\n");
    let ghost head = r@;
    let ghost fv = findings_view(report.findings@);
    let mut i: usize = 0;
    while i < report.findings.len()
        invariant
            i <= report.findings@.len(),
            fv == findings_view(report.findings@),
            r@ == head + findings_text(fv.take(i as int)),
        decreases report.findings@.len() - i,
    {
        assert(fv.take(i + 1).drop_last() =~= fv.take(i as int));
        assert(fv.take(i + 1).last() == report.findings@[i as int]@);
        let lines = finding_lines(&report.findings[i]);
        r.append(lines.as_str());
        assert(r@ =~= head + findings_text(fv.take(i + 1)));
        i = i + 1;
    }
    assert(fv.take(i as int) =~= fv);
    assert(r@ =~= report_text_of(report.root@, report.counts, fv));
    r
}

} // verus!
