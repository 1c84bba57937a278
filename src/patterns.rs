//! The textual patterns that find exported declarations, run by the `regex` crate.

use vstd::prelude::*;
use crate::text::strings_view;

verus! {

/// A name for what `regex` finds: the text of capture group 1 in each
/// successive non-overlapping match of `pattern` in `text`, or nothing where
/// `pattern` does not compile.
pub uninterp spec fn regex_first_groups(pattern: Seq<char>, text: Seq<char>) -> Option<Seq<Seq<char>>>;

/// A name for whether `pattern` matches somewhere in `text`, or nothing where
/// `pattern` does not compile.
pub uninterp spec fn regex_finds(pattern: Seq<char>, text: Seq<char>) -> Option<bool>;

/// Relies on `regex::Regex::new` to compile `pattern` and on
/// `regex::Regex::captures_iter` for the matches; group 1 is taken from each.
#[verifier::external_body]
fn first_groups(pattern: &str, text: &str) -> (r: Option<Vec<String>>)
    ensures
        match r {
            Some(v) => regex_first_groups(pattern@, text@) == Some(strings_view(v@)),
            None => regex_first_groups(pattern@, text@) is None,
        },
{
    match regex::Regex::new(pattern) {
        Ok(re) => Some(
            re.captures_iter(text).map(|c| c.get(1).map_or(String::new(), |m| m.as_str().to_string())).collect(),
        ),
        Err(_) => None,
    }
}

/// Relies on `regex::Regex::new` to compile `pattern` and on
/// `regex::Regex::is_match`.
#[verifier::external_body]
fn finds(pattern: &str, text: &str) -> (r: Option<bool>)
    ensures
        r == regex_finds(pattern@, text@),
{
    match regex::Regex::new(pattern) {
        Ok(re) => Some(re.is_match(text)),
        Err(_) => None,
    }
}

/// `export const NAME =` (or `:` for a type annotation).
pub open spec fn value_export_pattern() -> Seq<char> {
    r"export\s+const\s+(\w+)\s*[=:]"@
}

/// `export function NAME(`, possibly `async`.
pub open spec fn function_export_pattern() -> Seq<char> {
    r"export\s+(?:async\s+)?function\s+(\w+)\s*\("@
}

/// `export default `.
pub open spec fn default_export_pattern() -> Seq<char> {
    r"export\s+default\s+"@
}

/// `export { LIST }`.
pub open spec fn named_export_pattern() -> Seq<char> {
    r"export\s*\{\s*([^}]+)\s*\}"@
}

/// The captures, or none where the pattern could not be run.
pub open spec fn groups_or_none(g: Option<Seq<Seq<char>>>) -> Seq<Seq<char>> {
    match g {
        Some(v) => v,
        None => seq![],
    }
}

/// Names of the value exports in `text`, in order.
pub fn value_export_names(text: &str) -> (r: Vec<String>)
    ensures
        strings_view(r@) == groups_or_none(regex_first_groups(value_export_pattern(), text@)),
{
    match first_groups(r"export\s+const\s+(\w+)\s*[=:]", text) {
        Some(v) => v,
        None => {
            let v: Vec<String> = Vec::new();
            assert(strings_view(v@) =~= seq![]);
            v
        },
    }
}

/// Names of the function exports in `text`, in order.
pub fn function_export_names(text: &str) -> (r: Vec<String>)
    ensures
        strings_view(r@) == groups_or_none(regex_first_groups(function_export_pattern(), text@)),
{
    match first_groups(r"export\s+(?:async\s+)?function\s+(\w+)\s*\(", text) {
        Some(v) => v,
        None => {
            let v: Vec<String> = Vec::new();
            assert(strings_view(v@) =~= seq![]);
            v
        },
    }
}

/// Bodies of the re-export lists in `text`, in order.
pub fn named_export_lists(text: &str) -> (r: Vec<String>)
    ensures
        strings_view(r@) == groups_or_none(regex_first_groups(named_export_pattern(), text@)),
{
    match first_groups(r"export\s*\{\s*([^}]+)\s*\}", text) {
        Some(v) => v,
        None => {
            let v: Vec<String> = Vec::new();
            assert(strings_view(v@) =~= seq![]);
            v
        },
    }
}

/// Whether `text` holds an unnamed default export.
pub fn has_default_export(text: &str) -> (r: bool)
    ensures
        r == (regex_finds(default_export_pattern(), text@) == Some(true)),
{
    match finds(r"export\s+default\s+", text) {
        Some(b) => b,
        None => false,
    }
}

} // verus!
