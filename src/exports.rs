//! Classification of a route file's exported declarations, and the HTTP
//! method, handler and options flags that they resolve to.
//!
//! Four passes run in a fixed order: value exports, function exports, the
//! default export, and grouped re-exports. The first pass to bind a method
//! wins; the handler and options flags only ever go from false to true.

use vstd::prelude::*;
use vstd::string::{StrSliceExecFns, StringExecFns};
use crate::text::{
    before_alias, cut_alias, eq_ignore_ascii_case_text, find_sep, pieces_from, same_ignoring_ascii_case,
    same_text, strings_view, trim_text, trimmed,
};

verus! {

/// One exported symbol of a route file.
#[derive(Debug, Clone)]
pub struct ExportInfo {
    pub name: String,
    /// `variable`, `function`, `default` or `named`.
    pub kind: String,
    /// `handler`, `options`, or absent.
    pub value_type: Option<String>,
}

pub ghost struct ExportView {
    pub name: Seq<char>,
    pub kind: Seq<char>,
    pub value_type: Option<Seq<char>>,
}

pub open spec fn opt_view(o: Option<String>) -> Option<Seq<char>> {
    match o {
        Some(s) => Some(s@),
        None => None,
    }
}

impl View for ExportInfo {
    type V = ExportView;

    open spec fn view(&self) -> ExportView {
        ExportView { name: self.name@, kind: self.kind@, value_type: opt_view(self.value_type) }
    }
}

/// The views of a sequence of exports.
pub open spec fn exports_view(v: Seq<ExportInfo>) -> Seq<ExportView> {
    v.map_values(|e: ExportInfo| e@)
}

/// What the passes have found so far in one file.
#[derive(Debug, Clone)]
pub struct ExportScan {
    /// The bound HTTP method in capitals, or empty while none is bound.
    pub method: String,
    pub has_handler: bool,
    pub has_options: bool,
    pub exports: Vec<ExportInfo>,
}

pub ghost struct ScanState {
    pub method: Seq<char>,
    pub has_handler: bool,
    pub has_options: bool,
    pub exports: Seq<ExportView>,
}

impl View for ExportScan {
    type V = ScanState;

    open spec fn view(&self) -> ScanState {
        ScanState {
            method: self.method@,
            has_handler: self.has_handler,
            has_options: self.has_options,
            exports: exports_view(self.exports@),
        }
    }
}

/// Nothing found yet.
pub open spec fn empty_scan() -> ScanState {
    ScanState { method: seq![], has_handler: false, has_options: false, exports: seq![] }
}

/// The method, in capitals, that an export named `name` binds: one of the
/// verbs `get post put patch delete head options`, in any case of its ASCII
/// letters. (No character but an ASCII capital lowercases to a letter of
/// these names.)
pub open spec fn verb_of(name: Seq<char>) -> Option<Seq<char>> {
    if same_ignoring_ascii_case(name, "get"@) {
        Some("GET"@)
    } else if same_ignoring_ascii_case(name, "post"@) {
        Some("POST"@)
    } else if same_ignoring_ascii_case(name, "put"@) {
        Some("PUT"@)
    } else if same_ignoring_ascii_case(name, "patch"@) {
        Some("PATCH"@)
    } else if same_ignoring_ascii_case(name, "delete"@) {
        Some("DELETE"@)
    } else if same_ignoring_ascii_case(name, "head"@) {
        Some("HEAD"@)
    } else if same_ignoring_ascii_case(name, "options"@) {
        Some("OPTIONS"@)
    } else {
        None
    }
}

pub open spec fn export_view(name: Seq<char>, kind: Seq<char>, value_type: Option<Seq<char>>) -> ExportView {
    ExportView { name, kind, value_type }
}

/// `st` with the handler found and `m` bound, unless a method is bound already.
pub open spec fn bind_handler(st: ScanState, m: Seq<char>) -> ScanState {
    ScanState {
        method: if st.method.len() == 0 { m } else { st.method },
        has_handler: true,
        ..st
    }
}

pub open spec fn with_export(st: ScanState, e: ExportView) -> ScanState {
    ScanState { exports: st.exports.push(e), ..st }
}

/// A value export `export const name ...`. The exact name `options` declares
/// the route's metadata; a verb binds its method; `handler` binds `GET`.
pub open spec fn value_step(st: ScanState, name: Seq<char>) -> ScanState {
    if name == "options"@ {
        with_export(
            ScanState { has_options: true, ..st },
            export_view(name, "variable"@, Some("options"@)),
        )
    } else if verb_of(name) is Some {
        with_export(
            bind_handler(st, verb_of(name)->0),
            export_view(name, "variable"@, Some("handler"@)),
        )
    } else if name == "handler"@ {
        with_export(bind_handler(st, "GET"@), export_view(name, "variable"@, Some("handler"@)))
    } else {
        with_export(st, export_view(name, "variable"@, None))
    }
}

/// A function export `export [async] function name(`: a verb, `options`
/// among them, binds its method and `handler` binds `GET`, each recorded as
/// a handler; any other function is recorded with no role.
pub open spec fn function_step(st: ScanState, name: Seq<char>) -> ScanState {
    if verb_of(name) is Some {
        with_export(bind_handler(st, verb_of(name)->0), export_view(name, "function"@, Some("handler"@)))
    } else if name == "handler"@ {
        with_export(bind_handler(st, "GET"@), export_view(name, "function"@, Some("handler"@)))
    } else {
        with_export(st, export_view(name, "function"@, None))
    }
}

/// An unnamed `export default`: recorded, and taken as a `GET` handler where
/// no handler has been found before it.
pub open spec fn default_step(st: ScanState, present: bool) -> ScanState {
    if !present {
        st
    } else {
        let st1 = with_export(st, export_view("default"@, "default"@, None));
        if st.has_handler {
            st1
        } else {
            bind_handler(st1, "GET"@)
        }
    }
}

/// One entry of a re-export list `export { a, b as c }`: the name before
/// ` as `, trimmed. The exact name `options` declares metadata and a verb
/// binds its method; other names are not recorded.
pub open spec fn named_step(st: ScanState, entry: Seq<char>) -> ScanState {
    let name = trimmed(before_alias(entry));
    if name.len() == 0 {
        st
    } else if name == "options"@ {
        with_export(ScanState { has_options: true, ..st }, export_view(name, "named"@, Some("options"@)))
    } else if verb_of(name) is Some {
        with_export(bind_handler(st, verb_of(name)->0), export_view(name, "named"@, Some("handler"@)))
    } else {
        st
    }
}

/// The value-export pass over the captured names, in order.
pub open spec fn value_pass(st: ScanState, names: Seq<Seq<char>>) -> ScanState
    decreases names.len(),
{
    if names.len() == 0 {
        st
    } else {
        value_step(value_pass(st, names.drop_last()), names.last())
    }
}

/// The function-export pass over the captured names, in order.
pub open spec fn function_pass(st: ScanState, names: Seq<Seq<char>>) -> ScanState
    decreases names.len(),
{
    if names.len() == 0 {
        st
    } else {
        function_step(function_pass(st, names.drop_last()), names.last())
    }
}

/// The entries of one re-export list, in order.
pub open spec fn named_entries(st: ScanState, entries: Seq<Seq<char>>) -> ScanState
    decreases entries.len(),
{
    if entries.len() == 0 {
        st
    } else {
        named_step(named_entries(st, entries.drop_last()), entries.last())
    }
}

/// The re-export pass over the captured lists, each split at `,`.
pub open spec fn named_pass(st: ScanState, lists: Seq<Seq<char>>) -> ScanState
    decreases lists.len(),
{
    if lists.len() == 0 {
        st
    } else {
        named_entries(named_pass(st, lists.drop_last()), pieces_from(lists.last(), ',', 0))
    }
}

/// All four passes, in their order, from nothing found.
pub open spec fn classify(
    values: Seq<Seq<char>>,
    functions: Seq<Seq<char>>,
    has_default: bool,
    lists: Seq<Seq<char>>,
) -> ScanState {
    named_pass(default_step(function_pass(value_pass(empty_scan(), values), functions), has_default), lists)
}

fn verb_for(name: &str) -> (r: Option<String>)
    ensures
        opt_view(r) == verb_of(name@),
{
    if eq_ignore_ascii_case_text(name, "get") {
        Some(String::from_str("GET"))
    } else if eq_ignore_ascii_case_text(name, "post") {
        Some(String::from_str("POST"))
    } else if eq_ignore_ascii_case_text(name, "put") {
        Some(String::from_str("PUT"))
    } else if eq_ignore_ascii_case_text(name, "patch") {
        Some(String::from_str("PATCH"))
    } else if eq_ignore_ascii_case_text(name, "delete") {
        Some(String::from_str("DELETE"))
    } else if eq_ignore_ascii_case_text(name, "head") {
        Some(String::from_str("HEAD"))
    } else if eq_ignore_ascii_case_text(name, "options") {
        Some(String::from_str("OPTIONS"))
    } else {
        None
    }
}

fn make_export(name: &str, kind: &str, value_type: Option<&str>) -> (e: ExportInfo)
    ensures
        e@ == export_view(name@, kind@, match value_type { Some(t) => Some(t@), None => None }),
{
    let value_type = match value_type {
        Some(t) => Some(String::from_str(t)),
        None => None,
    };
    ExportInfo { name: String::from_str(name), kind: String::from_str(kind), value_type }
}

impl ExportScan {
    /// Nothing found yet.
    pub fn new() -> (r: ExportScan)
        ensures
            r@ == empty_scan(),
    {
        let r = ExportScan { method: String::new(), has_handler: false, has_options: false, exports: Vec::new() };
        assert(r@.exports =~= seq![]);
        r
    }

    fn push_export(&mut self, e: ExportInfo)
        ensures
            final(self)@ == with_export(old(self)@, e@),
    {
        self.exports.push(e);
        assert(final(self)@.exports =~= old(self)@.exports.push(e@));
    }

    fn bind(&mut self, m: String)
        ensures
            final(self)@ == bind_handler(old(self)@, m@),
    {
        if self.method.as_str().unicode_len() == 0 {
            self.method = m;
        }
        self.has_handler = true;
    }

    /// Records a value export named `name`.
    pub fn add_value_export(&mut self, name: &str)
        ensures
            final(self)@ == value_step(old(self)@, name@),
    {
        if same_text(name, "options") {
            self.has_options = true;
            self.push_export(make_export(name, "variable", Some("options")));
        } else {
            match verb_for(name) {
                Some(m) => {
                    self.bind(m);
                    self.push_export(make_export(name, "variable", Some("handler")));
                },
                None => {
                    if same_text(name, "handler") {
                        self.bind(String::from_str("GET"));
                        self.push_export(make_export(name, "variable", Some("handler")));
                    } else {
                        self.push_export(make_export(name, "variable", None));
                    }
                },
            }
        }
    }

    /// Records a function export named `name`.
    pub fn add_function_export(&mut self, name: &str)
        ensures
            final(self)@ == function_step(old(self)@, name@),
    {
        match verb_for(name) {
            Some(m) => {
                self.bind(m);
                self.push_export(make_export(name, "function", Some("handler")));
            },
            None => {
                if same_text(name, "handler") {
                    self.bind(String::from_str("GET"));
                    self.push_export(make_export(name, "function", Some("handler")));
                } else {
                    self.push_export(make_export(name, "function", None));
                }
            },
        }
    }

    /// Records an unnamed default export, where the file has one.
    pub fn add_default_export(&mut self, present: bool)
        ensures
            final(self)@ == default_step(old(self)@, present),
    {
        if present {
            let had_handler = self.has_handler;
            self.push_export(make_export("default", "default", None));
            if !had_handler {
                self.bind(String::from_str("GET"));
            }
        }
    }

    /// Records one entry of a re-export list.
    pub fn add_named_entry(&mut self, entry: &str)
        ensures
            final(self)@ == named_step(old(self)@, entry@),
    {
        let name = trim_text(cut_alias(entry));
        if name.unicode_len() == 0 {
        } else if same_text(name, "options") {
            self.has_options = true;
            self.push_export(make_export(name, "named", Some("options")));
        } else {
            match verb_for(name) {
                Some(m) => {
                    self.bind(m);
                    self.push_export(make_export(name, "named", Some("handler")));
                },
                None => {},
            }
        }
    }

    /// Records every entry of one re-export list, split at `,`.
    pub fn add_named_list(&mut self, list: &str)
        ensures
            final(self)@ == named_entries(old(self)@, pieces_from(list@, ',', 0)),
    {
        let n = list.unicode_len();
        let ghost start = self@;
        let ghost mut done: Seq<Seq<char>> = seq![];
        let mut i: usize = 0;
        while i < n
            invariant
                n == list@.len(),
                i <= n,
                pieces_from(list@, ',', 0) == done + pieces_from(list@, ',', i as int),
                self@ == named_entries(start, done),
            decreases n - i,
        {
            let j = find_sep(list, ',', i);
            if j == i {
                i = i + 1;
            } else {
                let entry = list.substring_char(i, j);
                assert(pieces_from(list@, ',', i as int) == seq![entry@] + pieces_from(list@, ',', j + 1));
                self.add_named_entry(entry);
                proof {
                    assert(done.push(entry@).drop_last() =~= done);
                    assert(pieces_from(list@, ',', 0) =~= done.push(entry@) + pieces_from(list@, ',', j + 1));
                    done = done.push(entry@);
                }
                i = if j < n { j + 1 } else { j };
            }
        }
        assert(done + pieces_from(list@, ',', i as int) =~= done);
    }
}

/// Runs the four passes over what the export patterns captured in a file:
/// the names of value exports and of function exports, whether an unnamed
/// default export occurs, and the bodies of re-export lists, each in the
/// order of the text.
pub fn classify_exports(
    values: &Vec<String>,
    functions: &Vec<String>,
    has_default: bool,
    lists: &Vec<String>,
) -> (r: ExportScan)
    ensures
        r@ == classify(strings_view(values@), strings_view(functions@), has_default, strings_view(lists@)),
{
    let mut scan = ExportScan::new();
    let mut k: usize = 0;
    while k < values.len()
        invariant
            k <= values@.len(),
            scan@ == value_pass(empty_scan(), strings_view(values@.take(k as int))),
        decreases values@.len() - k,
    {
        scan.add_value_export(values[k].as_str());
        assert(strings_view(values@.take(k + 1)).drop_last() =~= strings_view(values@.take(k as int)));
        k = k + 1;
    }
    assert(values@.take(k as int) =~= values@);
    let ghost after_values = scan@;
    k = 0;
    while k < functions.len()
        invariant
            k <= functions@.len(),
            scan@ == function_pass(after_values, strings_view(functions@.take(k as int))),
        decreases functions@.len() - k,
    {
        scan.add_function_export(functions[k].as_str());
        assert(strings_view(functions@.take(k + 1)).drop_last() =~= strings_view(functions@.take(k as int)));
        k = k + 1;
    }
    assert(functions@.take(k as int) =~= functions@);
    scan.add_default_export(has_default);
    let ghost after_default = scan@;
    k = 0;
    while k < lists.len()
        invariant
            k <= lists@.len(),
            scan@ == named_pass(after_default, strings_view(lists@.take(k as int))),
        decreases lists@.len() - k,
    {
        scan.add_named_list(lists[k].as_str());
        assert(strings_view(lists@.take(k + 1)).drop_last() =~= strings_view(lists@.take(k as int)));
        k = k + 1;
    }
    assert(lists@.take(k as int) =~= lists@);
    scan
}

/// `b` keeps all that `a` had found: the flags stay set, a bound method stays
/// bound, and the exports of `a` stay at the front of those of `b`.
pub open spec fn keeps_findings(a: ScanState, b: ScanState) -> bool {
    &&& a.has_handler ==> b.has_handler
    &&& a.has_options ==> b.has_options
    &&& a.method.len() > 0 ==> b.method == a.method
    &&& a.exports.len() <= b.exports.len()
    &&& b.exports.subrange(0, a.exports.len() as int) == a.exports
}

proof fn lemma_keeps_transitive(a: ScanState, b: ScanState, c: ScanState)
    requires
        keeps_findings(a, b),
        keeps_findings(b, c),
    ensures
        keeps_findings(a, c),
{
    assert(c.exports.subrange(0, a.exports.len() as int) =~= c.exports.subrange(0, b.exports.len() as int).subrange(0, a.exports.len() as int));
}

proof fn lemma_keeps_push(st: ScanState, e: ExportView)
    ensures
        keeps_findings(st, with_export(st, e)),
{
    assert(st.exports.push(e).subrange(0, st.exports.len() as int) =~= st.exports);
}

proof fn lemma_keeps_reflexive(st: ScanState)
    ensures
        keeps_findings(st, st),
{
    assert(st.exports.subrange(0, st.exports.len() as int) =~= st.exports);
}

proof fn lemma_value_pass_keeps(st: ScanState, names: Seq<Seq<char>>)
    ensures
        keeps_findings(st, value_pass(st, names)),
    decreases names.len(),
{
    if names.len() == 0 {
        lemma_keeps_reflexive(st);
    } else {
        let mid = value_pass(st, names.drop_last());
        lemma_value_pass_keeps(st, names.drop_last());
        let name = names.last();
        if name == "options"@ {
            lemma_keeps_push(ScanState { has_options: true, ..mid }, export_view(name, "variable"@, Some("options"@)));
        } else if verb_of(name) is Some {
            lemma_keeps_push(bind_handler(mid, verb_of(name)->0), export_view(name, "variable"@, Some("handler"@)));
        } else if name == "handler"@ {
            lemma_keeps_push(bind_handler(mid, "GET"@), export_view(name, "variable"@, Some("handler"@)));
        } else {
            lemma_keeps_push(mid, export_view(name, "variable"@, None));
        }
        lemma_keeps_transitive(st, mid, value_pass(st, names));
    }
}

proof fn lemma_function_pass_keeps(st: ScanState, names: Seq<Seq<char>>)
    ensures
        keeps_findings(st, function_pass(st, names)),
    decreases names.len(),
{
    if names.len() == 0 {
        lemma_keeps_reflexive(st);
    } else {
        let mid = function_pass(st, names.drop_last());
        lemma_function_pass_keeps(st, names.drop_last());
        let name = names.last();
        if verb_of(name) is Some {
            lemma_keeps_push(bind_handler(mid, verb_of(name)->0), export_view(name, "function"@, Some("handler"@)));
        } else if name == "handler"@ {
            lemma_keeps_push(bind_handler(mid, "GET"@), export_view(name, "function"@, Some("handler"@)));
        } else {
            lemma_keeps_push(mid, export_view(name, "function"@, None));
        }
        lemma_keeps_transitive(st, mid, function_pass(st, names));
    }
}

proof fn lemma_default_step_keeps(st: ScanState, present: bool)
    ensures
        keeps_findings(st, default_step(st, present)),
{
    if present {
        lemma_keeps_push(st, export_view("default"@, "default"@, None));
    } else {
        lemma_keeps_reflexive(st);
    }
}

proof fn lemma_named_entries_keep(st: ScanState, entries: Seq<Seq<char>>)
    ensures
        keeps_findings(st, named_entries(st, entries)),
    decreases entries.len(),
{
    if entries.len() == 0 {
        lemma_keeps_reflexive(st);
    } else {
        let mid = named_entries(st, entries.drop_last());
        lemma_named_entries_keep(st, entries.drop_last());
        let name = trimmed(before_alias(entries.last()));
        if name.len() == 0 {
            lemma_keeps_reflexive(mid);
        } else if name == "options"@ {
            lemma_keeps_push(ScanState { has_options: true, ..mid }, export_view(name, "named"@, Some("options"@)));
        } else if verb_of(name) is Some {
            lemma_keeps_push(bind_handler(mid, verb_of(name)->0), export_view(name, "named"@, Some("handler"@)));
        } else {
            lemma_keeps_reflexive(mid);
        }
        lemma_keeps_transitive(st, mid, named_entries(st, entries));
    }
}

proof fn lemma_named_pass_keeps(st: ScanState, lists: Seq<Seq<char>>)
    ensures
        keeps_findings(st, named_pass(st, lists)),
    decreases lists.len(),
{
    if lists.len() == 0 {
        lemma_keeps_reflexive(st);
    } else {
        let mid = named_pass(st, lists.drop_last());
        lemma_named_pass_keeps(st, lists.drop_last());
        lemma_named_entries_keep(mid, pieces_from(lists.last(), ',', 0));
        lemma_keeps_transitive(st, mid, named_pass(st, lists));
    }
}

/// Whatever has been found in a file stays found through every further
/// pass, whatever that pass captures: `has_handler` and `has_options` never
/// go back to false, a bound method is never replaced, and earlier exports
/// are never removed or reordered.
pub proof fn lemma_passes_keep_findings(
    st: ScanState,
    values: Seq<Seq<char>>,
    functions: Seq<Seq<char>>,
    has_default: bool,
    lists: Seq<Seq<char>>,
)
    ensures
        keeps_findings(st, value_pass(st, values)),
        keeps_findings(st, function_pass(st, functions)),
        keeps_findings(st, default_step(st, has_default)),
        keeps_findings(st, named_pass(st, lists)),
{
    lemma_value_pass_keeps(st, values);
    lemma_function_pass_keeps(st, functions);
    lemma_default_step_keeps(st, has_default);
    lemma_named_pass_keeps(st, lists);
}

/// The first pass to bind a method decides it: where the value-export pass
/// binds one, the file's method is that one, whatever the function, default
/// and re-export passes find; where it binds none and the function pass
/// does, the function pass decides.
pub proof fn lemma_method_precedence(
    values: Seq<Seq<char>>,
    functions: Seq<Seq<char>>,
    has_default: bool,
    lists: Seq<Seq<char>>,
)
    ensures
        value_pass(empty_scan(), values).method.len() > 0
            ==> classify(values, functions, has_default, lists).method == value_pass(empty_scan(), values).method,
        function_pass(value_pass(empty_scan(), values), functions).method.len() > 0
            ==> classify(values, functions, has_default, lists).method
                == function_pass(value_pass(empty_scan(), values), functions).method,
{
    let s1 = value_pass(empty_scan(), values);
    let s2 = function_pass(s1, functions);
    let s3 = default_step(s2, has_default);
    let s4 = named_pass(s3, lists);
    lemma_function_pass_keeps(s1, functions);
    lemma_default_step_keeps(s2, has_default);
    lemma_named_pass_keeps(s3, lists);
    lemma_keeps_transitive(s2, s3, s4);
    lemma_keeps_transitive(s1, s2, s4);
}

proof fn lemma_keeps_contains(a: ScanState, b: ScanState, e: ExportView)
    requires
        keeps_findings(a, b),
        a.exports.contains(e),
    ensures
        b.exports.contains(e),
{
    let i = choose|i: int| 0 <= i < a.exports.len() && a.exports[i] == e;
    assert(b.exports.subrange(0, a.exports.len() as int)[i] == b.exports[i]);
}

/// The export that a value export named `options` records.
pub open spec fn options_export() -> ExportView {
    export_view("options"@, "variable"@, Some("options"@))
}

proof fn lemma_value_pass_options(st: ScanState, names: Seq<Seq<char>>)
    requires
        exists|k: int| 0 <= k < names.len() && names[k] == "options"@,
    ensures
        value_pass(st, names).has_options,
        value_pass(st, names).exports.contains(options_export()),
    decreases names.len(),
{
    let mid = value_pass(st, names.drop_last());
    let last = value_pass(st, names);
    if names.last() == "options"@ {
        assert(last.exports.last() == options_export());
        assert(last.exports[last.exports.len() - 1] == options_export());
    } else {
        let k = choose|k: int| 0 <= k < names.len() && names[k] == "options"@;
        assert(k < names.len() - 1);
        assert(names.drop_last()[k] == "options"@);
        lemma_value_pass_options(st, names.drop_last());
        lemma_value_pass_keeps(mid, seq![names.last()]);
        assert(seq![names.last()].drop_last() =~= Seq::<Seq<char>>::empty());
        assert(value_pass(mid, seq![names.last()].drop_last()) == mid);
        assert(seq![names.last()].last() == names.last());
        assert(value_pass(mid, seq![names.last()]) == last);
        lemma_keeps_contains(mid, last, options_export());
    }
}

/// A value export named exactly `options` declares the route's metadata,
/// whatever else the file holds: `has_options` is set and the export is
/// recorded with the role `options`. Such an export binds no method and
/// finds no handler by itself.
pub proof fn lemma_options_export(
    values: Seq<Seq<char>>,
    functions: Seq<Seq<char>>,
    has_default: bool,
    lists: Seq<Seq<char>>,
)
    requires
        exists|k: int| 0 <= k < values.len() && values[k] == "options"@,
    ensures
        classify(values, functions, has_default, lists).has_options,
        classify(values, functions, has_default, lists).exports.contains(options_export()),
        forall|st: ScanState| #[trigger] value_step(st, "options"@).method == st.method
            && value_step(st, "options"@).has_handler == st.has_handler,
{
    let s1 = value_pass(empty_scan(), values);
    let s2 = function_pass(s1, functions);
    let s3 = default_step(s2, has_default);
    let s4 = named_pass(s3, lists);
    lemma_value_pass_options(empty_scan(), values);
    lemma_function_pass_keeps(s1, functions);
    lemma_default_step_keeps(s2, has_default);
    lemma_named_pass_keeps(s3, lists);
    lemma_keeps_transitive(s2, s3, s4);
    lemma_keeps_transitive(s1, s2, s4);
    lemma_keeps_contains(s1, s4, options_export());
}

} // verus!
