//! What the files of a repository tell about its deployment set-up.

use vstd::prelude::*;
use vstd::string::{StrSliceExecFns, StringExecFns};
use crate::text::{eq_ignore_ascii_case_text, same_ignoring_ascii_case, same_text, strings_view};

verus! {

/// `name` ends with `.conf`, letters in any case. (Only ASCII capitals
/// lowercase to the characters of `.conf` and `nginx`, so this is what
/// comparing the lowercased name gives.)
pub open spec fn ends_with_conf(name: Seq<char>) -> bool {
    name.len() >= 5 && same_ignoring_ascii_case(name.subrange(name.len() - 5, name.len() as int), ".conf"@)
}

/// `name` holds `nginx`, letters in any case.
pub open spec fn mentions_nginx(name: Seq<char>) -> bool {
    exists|s: int| 0 <= s && s + 5 <= name.len() && same_ignoring_ascii_case(#[trigger] name.subrange(s, s + 5), "nginx"@)
}

/// A file that sets up nginx: its name is `*.conf` and mentions nginx, or
/// one of the components of its path is `nginx`.
pub open spec fn is_nginx_file(components: Seq<Seq<char>>) -> bool {
    (components.len() > 0 && ends_with_conf(components.last()) && mentions_nginx(components.last()))
        || exists|k: int| 0 <= k < components.len() && same_ignoring_ascii_case(#[trigger] components[k], "nginx"@)
}

fn text_mentions_nginx(name: &str) -> (r: bool)
    ensures
        r == mentions_nginx(name@),
{
    let n = name.unicode_len();
    if n < 5 {
        return false;
    }
    let mut s: usize = 0;
    while s <= n - 5
        invariant
            n == name@.len(),
            n >= 5,
            s <= n - 4,
            forall|t: int| 0 <= t < s ==> !same_ignoring_ascii_case(#[trigger] name@.subrange(t, t + 5), "nginx"@),
        decreases n - s,
    {
        if eq_ignore_ascii_case_text(name.substring_char(s, s + 5), "nginx") {
            return true;
        }
        s = s + 1;
    }
    false
}

fn file_sets_up_nginx(components: &Vec<String>) -> (r: bool)
    ensures
        r == is_nginx_file(strings_view(components@)),
{
    let ghost c = strings_view(components@);
    let m = components.len();
    if m > 0 {
        let name = components[m - 1].as_str();
        let n = name.unicode_len();
        if n >= 5 && eq_ignore_ascii_case_text(name.substring_char(n - 5, n), ".conf") && text_mentions_nginx(name) {
            return true;
        }
    }
    let mut k: usize = 0;
    while k < m
        invariant
            m == components@.len(),
            c == strings_view(components@),
            k <= m,
            forall|t: int| 0 <= t < k ==> !same_ignoring_ascii_case(#[trigger] c[t], "nginx"@),
        decreases m - k,
    {
        if eq_ignore_ascii_case_text(components[k].as_str(), "nginx") {
            assert(same_ignoring_ascii_case(c[k as int], "nginx"@));
            return true;
        }
        k = k + 1;
    }
    false
}

/// Whether one of the repository's files, each given by the components of
/// its path, sets up nginx.
pub fn has_repo_nginx_config(files: &Vec<Vec<String>>) -> (r: bool)
    ensures
        r == exists|i: int| 0 <= i < files@.len() && is_nginx_file(strings_view(#[trigger] files@[i]@)),
{
    let mut i: usize = 0;
    while i < files.len()
        invariant
            i <= files@.len(),
            forall|t: int| 0 <= t < i ==> !is_nginx_file(strings_view(#[trigger] files@[t]@)),
        decreases files@.len() - i,
    {
        if file_sets_up_nginx(&files[i]) {
            return true;
        }
        i = i + 1;
    }
    false
}

/// The names that a pm2 ecosystem file may have.
pub open spec fn is_ecosystem_name(name: Seq<char>) -> bool {
    name == "ecosystem.config.js"@ || name == "ecosystem.config.cjs"@ || name == "ecosystem.config.json"@
        || name == "ecosystem.config.yml"@ || name == "ecosystem.config.yaml"@
}

/// The names, at the repository's root, that a pm2 ecosystem file may have.
pub fn ecosystem_file_names() -> (r: Vec<String>)
    ensures
        forall|i: int| 0 <= i < r@.len() ==> is_ecosystem_name(#[trigger] r@[i]@),
        forall|n: Seq<char>| is_ecosystem_name(n) ==> exists|i: int| 0 <= i < r@.len() && #[trigger] r@[i]@ == n,
{
    let r = vec![
        String::from_str("ecosystem.config.js"),
        String::from_str("ecosystem.config.cjs"),
        String::from_str("ecosystem.config.json"),
        String::from_str("ecosystem.config.yml"),
        String::from_str("ecosystem.config.yaml"),
    ];
    assert forall|n: Seq<char>| is_ecosystem_name(n) implies exists|i: int| 0 <= i < r@.len() && #[trigger] r@[i]@ == n by {
        if n == "ecosystem.config.js"@ {
            assert(r@[0]@ == n);
        } else if n == "ecosystem.config.cjs"@ {
            assert(r@[1]@ == n);
        } else if n == "ecosystem.config.json"@ {
            assert(r@[2]@ == n);
        } else if n == "ecosystem.config.yml"@ {
            assert(r@[3]@ == n);
        } else {
            assert(r@[4]@ == n);
        }
    }
    r
}

/// Whether one of the names of files found at the repository's root is that
/// of a pm2 ecosystem file.
pub fn has_pm2_ecosystem(root_entries: &Vec<String>) -> (r: bool)
    ensures
        r == exists|i: int| 0 <= i < root_entries@.len() && is_ecosystem_name(#[trigger] root_entries@[i]@),
{
    let mut i: usize = 0;
    while i < root_entries.len()
        invariant
            i <= root_entries@.len(),
            forall|t: int| 0 <= t < i ==> !is_ecosystem_name(#[trigger] root_entries@[t]@),
        decreases root_entries@.len() - i,
    {
        let n = root_entries[i].as_str();
        if same_text(n, "ecosystem.config.js") || same_text(n, "ecosystem.config.cjs")
            || same_text(n, "ecosystem.config.json") || same_text(n, "ecosystem.config.yml")
            || same_text(n, "ecosystem.config.yaml") {
            return true;
        }
        i = i + 1;
    }
    false
}

/// Directories and files that the repository walk passes over.
pub open spec fn is_unwalked_name(name: Seq<char>) -> bool {
    name == "node_modules"@ || name == "target"@ || name == ".git"@
}

/// Whether the repository walk looks at the entry `name`.
pub fn is_walked_name(name: &str) -> (r: bool)
    ensures
        r == !is_unwalked_name(name@),
{
    !(same_text(name, "node_modules") || same_text(name, "target") || same_text(name, ".git"))
}

} // verus!
