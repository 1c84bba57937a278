//! The routing record of one file, and of every route file below a root.

use vstd::prelude::*;
use vstd::string::{StrSliceExecFns, StringExecFns};
use crate::exports::{classify, classify_exports, exports_view, ExportInfo, ScanState};
use crate::patterns::{
    default_export_pattern, function_export_pattern, function_export_names, groups_or_none,
    has_default_export, named_export_lists, named_export_pattern, regex_finds, regex_first_groups,
    value_export_names, value_export_pattern,
};
use crate::text::{same_text, strings_view, has_suffix, text_less, text_lt, lemma_text_lt_transitive, lemma_text_lt_total, lemma_text_lt_irreflexive};
use crate::url_path::{file_path_to_url_path, relative_or_whole, url_of, ts_ext, tsx_ext};

verus! {

/// A problem met while analysing a file; it never stops the analysis of others.
#[derive(Debug, Clone)]
pub struct ParseError {
    pub message: String,
    pub line: Option<usize>,
    pub column: Option<usize>,
}

/// One documented response of a route.
#[derive(Debug, Clone)]
pub struct ResponseSchema {
    pub status_code: i32,
    pub schema: String,
    pub description: Option<String>,
}

/// Metadata that a route may declare through its `options` export.
#[derive(Debug, Clone)]
pub struct RouteOptions {
    pub tags: Option<Vec<String>>,
    pub summary: Option<String>,
    pub description: Option<String>,
    pub request_schema: Option<String>,
    pub response_schemas: Vec<ResponseSchema>,
}

/// The routing record of one file.
#[derive(Debug, Clone)]
pub struct RouteAnalysis {
    pub file_path: String,
    pub url_path: String,
    /// The bound HTTP method in capitals, or empty where none was found.
    pub method: String,
    pub has_handler: bool,
    pub has_options: bool,
    /// Structured metadata; this analysis leaves it absent.
    pub options: Option<RouteOptions>,
    pub exports: Vec<ExportInfo>,
    pub errors: Vec<ParseError>,
}

/// What the four export passes find in the text `content`.
pub open spec fn source_scan(content: Seq<char>) -> ScanState {
    classify(
        groups_or_none(regex_first_groups(value_export_pattern(), content)),
        groups_or_none(regex_first_groups(function_export_pattern(), content)),
        regex_finds(default_export_pattern(), content) == Some(true),
        groups_or_none(regex_first_groups(named_export_pattern(), content)),
    )
}

/// The message recorded when a file cannot be read for the reason `reason`.
pub open spec fn read_failure_message(reason: Seq<char>) -> Seq<char> {
    "Failed to read file: "@ + reason
}

/// `a` is the record of the file `file_path` below `routes_dir` whose read
/// gave `content`: its text, or the reason it could not be read.
pub open spec fn is_analysis_of(
    a: RouteAnalysis,
    file_path: Seq<char>,
    routes_dir: Seq<char>,
    content: Result<Seq<char>, Seq<char>>,
) -> bool {
    &&& a.file_path@ == file_path
    &&& a.url_path@ == url_of(relative_or_whole(file_path, routes_dir))
    &&& a.options is None
    &&& match content {
        Ok(text) => {
            let st = source_scan(text);
            &&& a.method@ == st.method
            &&& a.has_handler == st.has_handler
            &&& a.has_options == st.has_options
            &&& exports_view(a.exports@) == st.exports
            &&& a.errors@.len() == 0
        },
        Err(reason) => {
            &&& a.method@.len() == 0
            &&& !a.has_handler
            &&& !a.has_options
            &&& a.exports@.len() == 0
            &&& a.errors@.len() == 1
            &&& a.errors@[0].message@ == read_failure_message(reason)
            &&& a.errors@[0].line is None
            &&& a.errors@[0].column is None
        },
    }
}

pub open spec fn read_view(content: Result<&str, &str>) -> Result<Seq<char>, Seq<char>> {
    match content {
        Ok(t) => Ok(t@),
        Err(e) => Err(e@),
    }
}

/// Analyses the file `file_path` below `routes_dir`, given the result of
/// reading it: its text, or a description of why it could not be read.
pub fn analyze_route_source(file_path: &str, routes_dir: &str, content: Result<&str, &str>) -> (r: RouteAnalysis)
    ensures
        is_analysis_of(r, file_path@, routes_dir@, read_view(content)),
{
    let url_path = file_path_to_url_path(file_path, routes_dir);
    match content {
        Err(reason) => {
            let mut message = String::from_str("Failed to read file: ");
            message.append(reason);
            let mut errors: Vec<ParseError> = Vec::new();
            errors.push(ParseError { message, line: None, column: None });
            RouteAnalysis {
                file_path: String::from_str(file_path),
                url_path,
                method: String::new(),
                has_handler: false,
                has_options: false,
                options: None,
                exports: Vec::new(),
                errors,
            }
        },
        Ok(text) => {
            let values = value_export_names(text);
            let functions = function_export_names(text);
            let has_default = has_default_export(text);
            let lists = named_export_lists(text);
            let scan = classify_exports(&values, &functions, has_default, &lists);
            RouteAnalysis {
                file_path: String::from_str(file_path),
                url_path,
                method: scan.method,
                has_handler: scan.has_handler,
                has_options: scan.has_options,
                options: None,
                exports: scan.exports,
                errors: Vec::new(),
            }
        },
    }
}

/// The paths of route files, each with the result of reading it.
pub open spec fn inputs_view(files: Seq<(String, Result<String, String>)>, i: int) -> (Seq<char>, Result<Seq<char>, Seq<char>>) {
    (files[i].0@, match files[i].1 {
        Ok(t) => Ok(t@),
        Err(e) => Err(e@),
    })
}

/// The URL paths of the records, in order.
pub open spec fn url_paths(r: Seq<RouteAnalysis>) -> Seq<Seq<char>> {
    r.map_values(|a: RouteAnalysis| a.url_path@)
}

/// The URL path of a listed file.
pub open spec fn listed_url(routes_dir: Seq<char>, f: (String, Result<String, String>)) -> Seq<char> {
    url_of(relative_or_whole(f.0@, routes_dir))
}

/// The URL paths of the listed files, in the order of the listing.
pub open spec fn listed_urls(routes_dir: Seq<char>, files: Seq<(String, Result<String, String>)>) -> Seq<Seq<char>> {
    files.map_values(|f: (String, Result<String, String>)| listed_url(routes_dir, f))
}

/// `perm` orders the numbers below `n`, each once.
pub open spec fn is_permutation(perm: Seq<int>, n: int) -> bool {
    &&& perm.len() == n
    &&& forall|i: int| 0 <= i < n ==> 0 <= #[trigger] perm[i] < n
    &&& forall|i: int, j: int| 0 <= i < j < n ==> perm[i] != perm[j]
}

/// Ascending by URL path, in the order of characters.
pub open spec fn sorted_by_url_path(r: Seq<RouteAnalysis>) -> bool {
    forall|i: int, j: int| 0 <= i < j < r.len() ==> !text_lt(#[trigger] r[j].url_path@, #[trigger] r[i].url_path@)
}

/// `r` holds the record of the file `files[perm[i]]` at position `i`.
pub open spec fn records_of(
    r: Seq<RouteAnalysis>,
    perm: Seq<int>,
    routes_dir: Seq<char>,
    files: Seq<(String, Result<String, String>)>,
) -> bool {
    forall|i: int| 0 <= i < r.len() ==> is_analysis_of(#[trigger] r[i], inputs_view(files, perm[i]).0, routes_dir, inputs_view(files, perm[i]).1)
}

/// Records with equal URL paths keep the order of their files.
pub open spec fn keeps_input_order(r: Seq<RouteAnalysis>, perm: Seq<int>) -> bool {
    forall|i: int, j: int| 0 <= i < j < r.len() && #[trigger] r[i].url_path@ == #[trigger] r[j].url_path@ ==> perm[i] < perm[j]
}

/// Analyses each route file below `routes_dir`, given with the result of
/// reading it, and returns the records ordered by URL path. A file that could
/// not be read gets a record with its error; the others are not affected.
/// Records with equal URL paths keep the order in which their files came.
pub fn analyze_routes(routes_dir: &str, files: &Vec<(String, Result<String, String>)>) -> (r: Vec<RouteAnalysis>)
    ensures
        r@.len() == files@.len(),
        sorted_by_url_path(r@),
        exists|perm: Seq<int>|
            is_permutation(perm, files@.len() as int) && records_of(r@, perm, routes_dir@, files@)
                && keeps_input_order(r@, perm),
        url_paths(r@).to_multiset() == listed_urls(routes_dir@, files@).to_multiset(),
{
    let mut out: Vec<RouteAnalysis> = Vec::new();
    let ghost mut perm: Seq<int> = seq![];
    assert(url_paths(out@) =~= listed_urls(routes_dir@, files@.take(0)));
    let mut k: usize = 0;
    while k < files.len()
        invariant
            k <= files@.len(),
            out@.len() == k,
            is_permutation(perm, k as int),
            records_of(out@, perm, routes_dir@, files@),
            keeps_input_order(out@, perm),
            sorted_by_url_path(out@),
            url_paths(out@).to_multiset() == listed_urls(routes_dir@, files@.take(k as int)).to_multiset(),
        decreases files@.len() - k,
    {
        let content: Result<&str, &str> = match &files[k].1 {
            Ok(t) => Ok(t.as_str()),
            Err(e) => Err(e.as_str()),
        };
        let a = analyze_route_source(files[k].0.as_str(), routes_dir, content);
        assert(is_analysis_of(a, inputs_view(files@, k as int).0, routes_dir@, inputs_view(files@, k as int).1));
        let mut pos: usize = k;
        while pos > 0 && text_less(a.url_path.as_str(), out[pos - 1].url_path.as_str())
            invariant
                pos <= k,
                out@.len() == k,
                forall|i: int| pos <= i < k ==> text_lt(a.url_path@, #[trigger] out@[i].url_path@),
            decreases pos,
        {
            pos = pos - 1;
        }
        let ghost old_out = out@;
        let ghost old_perm = perm;
        proof {
            let u = url_paths(old_out);
            assert(url_paths(old_out.insert(pos as int, a)) =~= u.insert(pos as int, a.url_path@));
            vstd::seq_lib::to_multiset_insert(u, pos as int, a.url_path@);
            let l = listed_urls(routes_dir@, files@.take(k as int));
            assert(listed_urls(routes_dir@, files@.take(k + 1)) =~= l.push(a.url_path@));
            l.to_multiset_ensures();
        }
        proof {
            old_out.insert_ensures(pos as int, a);
            old_perm.insert_ensures(pos as int, k as int);
            if pos > 0 {
                assert(!text_lt(a.url_path@, old_out[pos - 1].url_path@));
            }
            assert forall|i: int| 0 <= i < pos implies !text_lt(a.url_path@, #[trigger] old_out[i].url_path@) by {
                if i < pos - 1 {
                    if text_lt(a.url_path@, old_out[i].url_path@) {
                        lemma_text_lt_total(old_out[pos - 1].url_path@, a.url_path@);
                        if old_out[pos - 1].url_path@ != a.url_path@ {
                            lemma_text_lt_transitive(old_out[pos - 1].url_path@, a.url_path@, old_out[i].url_path@);
                        }
                    }
                }
            }
            assert forall|i: int| pos <= i < k implies !text_lt(#[trigger] old_out[i].url_path@, a.url_path@) by {
                if text_lt(old_out[i].url_path@, a.url_path@) {
                    lemma_text_lt_transitive(a.url_path@, old_out[i].url_path@, a.url_path@);
                    lemma_text_lt_irreflexive(a.url_path@);
                }
            }
        }
        out.insert(pos, a);
        proof {
            perm = old_perm.insert(pos as int, k as int);
            assert forall|i: int| 0 <= i < k + 1 implies 0 <= #[trigger] perm[i] < k + 1 by {
                if i > pos {
                    assert(perm[i] == old_perm[i - 1]);
                }
            }
            assert forall|i: int, j: int| 0 <= i < j < k + 1 implies perm[i] != perm[j] by {
                if i > pos {
                    assert(perm[i] == old_perm[i - 1]);
                }
                if j > pos {
                    assert(perm[j] == old_perm[j - 1]);
                }
            }
            assert forall|i: int| 0 <= i < out@.len() implies is_analysis_of(#[trigger] out@[i], inputs_view(files@, perm[i]).0, routes_dir@, inputs_view(files@, perm[i]).1) by {
                if i > pos {
                    assert(out@[i] == old_out[i - 1]);
                    assert(perm[i] == old_perm[i - 1]);
                }
            }
            assert forall|i: int, j: int| 0 <= i < j < out@.len() implies !text_lt(#[trigger] out@[j].url_path@, #[trigger] out@[i].url_path@) by {
                if i > pos {
                    assert(out@[i] == old_out[i - 1]);
                }
                if j > pos {
                    assert(out@[j] == old_out[j - 1]);
                }
            }
            assert forall|i: int, j: int| 0 <= i < j < out@.len() && #[trigger] out@[i].url_path@ == #[trigger] out@[j].url_path@ implies perm[i] < perm[j] by {
                if i > pos {
                    assert(out@[i] == old_out[i - 1]);
                    assert(perm[i] == old_perm[i - 1]);
                }
                if j > pos {
                    assert(out@[j] == old_out[j - 1]);
                    assert(perm[j] == old_perm[j - 1]);
                }
                if j == pos + 0 && i < pos {
                    assert(perm[j] == k);
                }
                if i == pos {
                    lemma_text_lt_irreflexive(a.url_path@);
                }
            }
        }
        k = k + 1;
    }
    assert(files@.take(k as int) =~= files@);
    out
}

/// Entries that the route scan passes over, with all that lies below them:
/// hidden ones (`.name`) and shared or middleware ones (`_name`).
pub open spec fn is_skipped_entry(name: Seq<char>) -> bool {
    name.len() > 0 && (name[0] == '.' || name[0] == '_')
}

/// Names whose extension, as `Path::extension` reads it, is `ts` or `tsx`.
pub open spec fn is_route_source_name(name: Seq<char>) -> bool {
    (has_suffix(name, ts_ext()) && name.len() > 3) || (has_suffix(name, tsx_ext()) && name.len() > 4)
}

/// Whether the scan for route files passes over the entry `name`.
pub fn is_skipped_entry_name(name: &str) -> (r: bool)
    ensures
        r == is_skipped_entry(name@),
{
    name.unicode_len() > 0 && (name.get_char(0) == '.' || name.get_char(0) == '_')
}

/// Whether a file named `name` is a route source file.
pub fn has_route_extension(name: &str) -> (r: bool)
    ensures
        r == is_route_source_name(name@),
{
    let n = name.unicode_len();
    proof {
        reveal_strlit(".ts");
        reveal_strlit(".tsx");
        assert(".ts"@ =~= ts_ext());
        assert(".tsx"@ =~= tsx_ext());
    }
    (crate::text::ends_with_text(name, ".ts") && n > 3) || (crate::text::ends_with_text(name, ".tsx") && n > 4)
}

/// Whether a file at `dirs` / `name` below the routes root is analysed:
/// no directory on the way and not the file itself is skipped, and the file
/// is a route source file.
pub open spec fn is_collected(dirs: Seq<Seq<char>>, name: Seq<char>) -> bool {
    &&& forall|k: int| 0 <= k < dirs.len() ==> !is_skipped_entry(#[trigger] dirs[k])
    &&& !is_skipped_entry(name)
    &&& is_route_source_name(name)
}

/// Whether the file `name`, reached through the directories `dirs` below
/// the routes root, is one that the route scan analyses.
pub fn is_collected_file(dirs: &Vec<String>, name: &str) -> (r: bool)
    ensures
        r == is_collected(strings_view(dirs@), name@),
{
    let mut k: usize = 0;
    while k < dirs.len()
        invariant
            k <= dirs@.len(),
            forall|i: int| 0 <= i < k ==> !is_skipped_entry(#[trigger] strings_view(dirs@)[i]),
        decreases dirs@.len() - k,
    {
        if is_skipped_entry_name(dirs[k].as_str()) {
            assert(is_skipped_entry(strings_view(dirs@)[k as int]));
            return false;
        }
        k = k + 1;
    }
    !is_skipped_entry_name(name) && has_route_extension(name)
}

/// The first position at or after `i` where `pat` occurs in `s`, if any.
pub open spec fn find_from(s: Seq<char>, pat: Seq<char>, i: int) -> Option<int>
    decreases s.len() + 1 - i,
{
    if i < 0 || i + pat.len() > s.len() {
        None
    } else if s.subrange(i, i + pat.len()) == pat {
        Some(i)
    } else {
        find_from(s, pat, i + 1)
    }
}

fn find_text(s: &str, pat: &str) -> (r: Option<usize>)
    ensures
        match r {
            Some(k) => find_from(s@, pat@, 0) == Some(k as int) && k + pat@.len() <= s@.len() <= usize::MAX,
            None => find_from(s@, pat@, 0) is None,
        },
{
    let n = s.unicode_len();
    let m = pat.unicode_len();
    if m > n {
        return None;
    }
    if m == 0 {
        assert(s@.subrange(0, 0) =~= pat@);
        return Some(0);
    }
    let mut i: usize = 0;
    while n - i >= m
        invariant
            n == s@.len(),
            m == pat@.len(),
            1 <= m <= n,
            i <= n,
            find_from(s@, pat@, 0) == find_from(s@, pat@, i as int),
        decreases n - i,
    {
        if same_text(s.substring_char(i, i + m), pat) {
            return Some(i);
        }
        i = i + 1;
    }
    None
}

/// A name for what `std::path::Path::parent` gives for `path`.
pub uninterp spec fn parent_of(path: Seq<char>) -> Option<Seq<char>>;

/// Relies on `std::path::Path::parent`; the parent is handed back as text.
#[verifier::external_body]
fn parent_text(path: &str) -> (r: Option<String>)
    ensures
        match r {
            Some(p) => parent_of(path@) == Some(p@),
            None => parent_of(path@) is None,
        },
{
    std::path::Path::new(path).parent().map(|p| p.to_string_lossy().to_string())
}

/// The routes root that a route file lies in, where the caller names none:
/// the path up to and with its first `/routes/`, else up to and with its
/// first `/routes-admin/`, else the file's directory, else empty.
pub open spec fn inferred_routes_dir(path: Seq<char>) -> Seq<char> {
    match find_from(path, "/routes/"@, 0) {
        Some(k) => path.subrange(0, k + "/routes/"@.len()),
        None => match find_from(path, "/routes-admin/"@, 0) {
            Some(k) => path.subrange(0, k + "/routes-admin/"@.len()),
            None => match parent_of(path) {
                Some(p) => p,
                None => seq![],
            },
        },
    }
}

/// The routes root that the route file `path` lies in.
pub fn infer_routes_dir(path: &str) -> (r: String)
    ensures
        r@ == inferred_routes_dir(path@),
{
    match find_text(path, "/routes/") {
        Some(k) => String::from_str(path.substring_char(0, k + "/routes/".unicode_len())),
        None => match find_text(path, "/routes-admin/") {
            Some(k) => String::from_str(path.substring_char(0, k + "/routes-admin/".unicode_len())),
            None => match parent_text(path) {
                Some(p) => p,
                None => String::new(),
            },
        },
    }
}

/// Each text is no less than the ones before it.
pub open spec fn ascending_texts(a: Seq<Seq<char>>) -> bool {
    forall|i: int, j: int| 0 <= i < j < a.len() ==> !text_lt(#[trigger] a[j], #[trigger] a[i])
}

proof fn lemma_ascending_unique(a: Seq<Seq<char>>, b: Seq<Seq<char>>)
    requires
        ascending_texts(a),
        ascending_texts(b),
        a.to_multiset() == b.to_multiset(),
    ensures
        a == b,
    decreases a.len(),
{
    a.to_multiset_ensures();
    b.to_multiset_ensures();
    if a.len() == 0 {
        assert(a =~= b);
    } else {
        assert(b.len() > 0);
        assert(a.contains(a[0]));
        assert(a.to_multiset().count(a[0]) > 0);
        assert(b.contains(a[0]));
        assert(b.contains(b[0]));
        assert(b.to_multiset().count(b[0]) > 0);
        assert(a.contains(b[0]));
        let j = choose|j: int| 0 <= j < b.len() && b[j] == a[0];
        let i = choose|i: int| 0 <= i < a.len() && a[i] == b[0];
        if j > 0 {
            assert(!text_lt(b[j], b[0]));
        }
        if i > 0 {
            assert(!text_lt(a[i], a[0]));
        }
        lemma_text_lt_total(a[0], b[0]);
        assert(a[0] == b[0]);
        let ta = a.remove(0);
        let tb = b.remove(0);
        assert(ta.to_multiset() == tb.to_multiset());
        assert forall|p: int, q: int| 0 <= p < q < ta.len() implies !text_lt(#[trigger] ta[q], #[trigger] ta[p]) by {
            assert(ta[q] == a[q + 1] && ta[p] == a[p + 1]);
        }
        assert forall|p: int, q: int| 0 <= p < q < tb.len() implies !text_lt(#[trigger] tb[q], #[trigger] tb[p]) by {
            assert(tb[q] == b[q + 1] && tb[p] == b[p + 1]);
        }
        lemma_ascending_unique(ta, tb);
        assert(a =~= seq![a[0]] + ta);
        assert(b =~= seq![b[0]] + tb);
    }
}

proof fn lemma_map_multiset(s1: Seq<(String, Result<String, String>)>, s2: Seq<(String, Result<String, String>)>, root: Seq<char>)
    requires
        s1.to_multiset() == s2.to_multiset(),
    ensures
        listed_urls(root, s1).to_multiset() == listed_urls(root, s2).to_multiset(),
    decreases s1.len(),
{
    s1.to_multiset_ensures();
    s2.to_multiset_ensures();
    if s1.len() == 0 {
        assert(s2.len() == 0);
        assert(listed_urls(root, s1) =~= listed_urls(root, s2));
    } else {
        let x = s1.last();
        assert(s1.contains(x)) by {
            assert(s1[s1.len() - 1] == x);
        }
        assert(s1.to_multiset().count(x) > 0);
        assert(s2.contains(x));
        let j = choose|j: int| 0 <= j < s2.len() && s2[j] == x;
        let r1 = s1.drop_last();
        let r2 = s2.remove(j);
        assert(s1.remove(s1.len() - 1) =~= r1);
        assert(r1.to_multiset() == r2.to_multiset());
        lemma_map_multiset(r1, r2, root);
        let m1 = listed_urls(root, s1);
        let m2 = listed_urls(root, s2);
        assert(m1 =~= listed_urls(root, r1).push(listed_url(root, x)));
        assert(listed_urls(root, r2) =~= m2.remove(j));
        listed_urls(root, r1).to_multiset_ensures();
        m2.to_multiset_ensures();
        assert(m2.contains(listed_url(root, x))) by {
            assert(m2[j] == listed_url(root, x));
        }
        assert(m1.to_multiset() =~= m2.to_multiset());
    }
}

/// However the route files are listed, their records come out with the
/// same URL paths in the same order: two results of `analyze_routes` over
/// listings that hold the same files, each with the same read result, agree
/// on their sequence of URL paths.
pub proof fn lemma_listing_order_irrelevant(
    routes_dir: Seq<char>,
    files1: Seq<(String, Result<String, String>)>,
    files2: Seq<(String, Result<String, String>)>,
    r1: Seq<RouteAnalysis>,
    r2: Seq<RouteAnalysis>,
)
    requires
        files1.to_multiset() == files2.to_multiset(),
        sorted_by_url_path(r1),
        sorted_by_url_path(r2),
        url_paths(r1).to_multiset() == listed_urls(routes_dir, files1).to_multiset(),
        url_paths(r2).to_multiset() == listed_urls(routes_dir, files2).to_multiset(),
    ensures
        url_paths(r1) == url_paths(r2),
{
    lemma_map_multiset(files1, files2, routes_dir);
    let u1 = url_paths(r1);
    let u2 = url_paths(r2);
    assert forall|i: int, j: int| 0 <= i < j < u1.len() implies !text_lt(#[trigger] u1[j], #[trigger] u1[i]) by {
        assert(!text_lt(r1[j].url_path@, r1[i].url_path@));
    }
    assert forall|i: int, j: int| 0 <= i < j < u2.len() implies !text_lt(#[trigger] u2[j], #[trigger] u2[i]) by {
        assert(!text_lt(r2[j].url_path@, r2[i].url_path@));
    }
    lemma_ascending_unique(u1, u2);
}

} // verus!
