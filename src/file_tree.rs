//! The entries of a directory as the editor lists them: hidden entries and
//! build or tool directories left out, directories first, then by name
//! without regard to case.

use vstd::prelude::*;
use vstd::string::StrSliceExecFns;
use crate::analysis::is_permutation;
use crate::text::{lemma_text_lt_irreflexive, lemma_text_lt_total, lemma_text_lt_transitive, same_text, text_less, text_lt};

verus! {

/// One entry of a directory listing.
#[derive(Debug)]
pub struct FileNode {
    pub name: String,
    pub path: String,
    pub is_dir: bool,
    /// Left absent: the children of a directory are listed on demand.
    pub children: Option<Vec<FileNode>>,
    /// The extension of a file, absent for a directory.
    pub extension: Option<String>,
}

/// Directories that hold dependencies, builds or tool caches.
pub open spec fn is_ignored_dir_name(name: Seq<char>) -> bool {
    name == "node_modules"@ || name == ".git"@ || name == "target"@ || name == "dist"@ || name == ".next"@
        || name == ".turbo"@ || name == ".cache"@ || name == ".output"@ || name == ".nuxt"@
}

/// Whether a directory named `name` is left out of listings.
pub fn should_ignore(name: &str) -> (r: bool)
    ensures
        r == is_ignored_dir_name(name@),
{
    same_text(name, "node_modules") || same_text(name, ".git") || same_text(name, "target")
        || same_text(name, "dist") || same_text(name, ".next") || same_text(name, ".turbo")
        || same_text(name, ".cache") || same_text(name, ".output") || same_text(name, ".nuxt")
}

/// Listings show every entry but hidden ones (the env example excepted) and
/// ignored directories.
pub open spec fn is_listed(name: Seq<char>, is_dir: bool) -> bool {
    !(name.len() > 0 && name[0] == '.' && name != ".env.example"@) && !(is_dir && is_ignored_dir_name(name))
}

/// Whether the entry `name` is shown in a listing.
pub fn is_listed_entry(name: &str, is_dir: bool) -> (r: bool)
    ensures
        r == is_listed(name@, is_dir),
{
    if name.unicode_len() > 0 && name.get_char(0) == '.' && !same_text(name, ".env.example") {
        return false;
    }
    !(is_dir && should_ignore(name))
}

/// A name for what `str::to_lowercase` gives; it depends on the characters alone.
pub uninterp spec fn lower_of(s: Seq<char>) -> Seq<char>;

/// Relies on `str::to_lowercase` for the lowercase form of `s`.
#[verifier::external_body]
fn lowercase(s: &str) -> (r: String)
    ensures
        r@ == lower_of(s@),
{
    s.to_lowercase()
}

/// `a` is listed before `b`: directories first, then by lowercase name.
pub open spec fn node_before(a: FileNode, b: FileNode) -> bool {
    (a.is_dir && !b.is_dir) || (a.is_dir == b.is_dir && text_lt(lower_of(a.name@), lower_of(b.name@)))
}

/// Neither of `a` and `b` is listed before the other.
pub open spec fn same_rank(a: FileNode, b: FileNode) -> bool {
    a.is_dir == b.is_dir && lower_of(a.name@) == lower_of(b.name@)
}

proof fn lemma_node_order(a: FileNode, b: FileNode, c: FileNode)
    ensures
        !node_before(a, a),
        node_before(a, b) || node_before(b, a) || same_rank(a, b),
        node_before(a, b) && node_before(b, c) ==> node_before(a, c),
        node_before(a, b) && same_rank(b, c) ==> node_before(a, c),
        same_rank(a, b) && node_before(b, c) ==> node_before(a, c),
        same_rank(a, b) ==> !node_before(a, b),
{
    lemma_text_lt_irreflexive(lower_of(a.name@));
    lemma_text_lt_irreflexive(lower_of(b.name@));
    lemma_text_lt_total(lower_of(a.name@), lower_of(b.name@));
    if text_lt(lower_of(a.name@), lower_of(b.name@)) && text_lt(lower_of(b.name@), lower_of(c.name@)) {
        lemma_text_lt_transitive(lower_of(a.name@), lower_of(b.name@), lower_of(c.name@));
    }
}

fn lists_before(a: &FileNode, b: &FileNode) -> (r: bool)
    ensures
        r == node_before(*a, *b),
{
    if a.is_dir != b.is_dir {
        return a.is_dir;
    }
    let la = lowercase(a.name.as_str());
    let lb = lowercase(b.name.as_str());
    text_less(la.as_str(), lb.as_str())
}

/// Orders a listing: directories first, then by lowercase name; entries of
/// the same rank keep their order.
pub fn order_file_nodes(nodes: Vec<FileNode>) -> (r: Vec<FileNode>)
    ensures
        r@.len() == nodes@.len(),
        forall|i: int, j: int| 0 <= i < j < r@.len() ==> !node_before(#[trigger] r@[j], #[trigger] r@[i]),
        exists|perm: Seq<int>|
            is_permutation(perm, nodes@.len() as int)
                && (forall|i: int| 0 <= i < r@.len() ==> #[trigger] r@[i] == nodes@[perm[i]])
                && (forall|i: int, j: int| 0 <= i < j < r@.len() && same_rank(#[trigger] r@[i], #[trigger] r@[j]) ==> perm[i] < perm[j]),
{
    let ghost input = nodes@;
    let n = nodes.len();
    let mut rest = nodes;
    let mut out: Vec<FileNode> = Vec::new();
    let ghost mut perm: Seq<int> = seq![];
    while rest.len() > 0
        invariant
            n == input.len(),
            rest@ == input.take(rest@.len() as int),
            out@.len() + rest@.len() == n,
            perm.len() == out@.len(),
            forall|i: int| 0 <= i < out@.len() ==> rest@.len() <= #[trigger] perm[i] < n,
            forall|i: int, j: int| 0 <= i < j < out@.len() ==> perm[i] != perm[j],
            forall|i: int| 0 <= i < out@.len() ==> #[trigger] out@[i] == input[perm[i]],
            forall|i: int, j: int| 0 <= i < j < out@.len() ==> !node_before(#[trigger] out@[j], #[trigger] out@[i]),
            forall|i: int, j: int| 0 <= i < j < out@.len() && same_rank(#[trigger] out@[i], #[trigger] out@[j]) ==> perm[i] < perm[j],
        decreases rest@.len(),
    {
        let x = rest.pop().unwrap();
        let k = rest.len();
        assert(x == input[k as int]);
        assert(rest@ =~= input.take(k as int));
        let mut pos: usize = 0;
        while pos < out.len() && lists_before(&out[pos], &x)
            invariant
                pos <= out@.len(),
                forall|i: int| 0 <= i < pos ==> node_before(#[trigger] out@[i], x),
            decreases out@.len() - pos,
        {
            pos = pos + 1;
        }
        let ghost old_out = out@;
        let ghost old_perm = perm;
        proof {
            old_out.insert_ensures(pos as int, x);
            old_perm.insert_ensures(pos as int, k as int);
            assert forall|j: int| pos <= j < old_out.len() implies !node_before(#[trigger] old_out[j], x) by {
                lemma_node_order(old_out[pos as int], x, old_out[j]);
                lemma_node_order(old_out[j], x, old_out[pos as int]);
            }
        }
        out.insert(pos, x);
        proof {
            perm = old_perm.insert(pos as int, k as int);
            assert forall|i: int| 0 <= i < out@.len() implies k <= #[trigger] perm[i] < n by {
                if i > pos {
                    assert(perm[i] == old_perm[i - 1]);
                }
            }
            assert forall|i: int, j: int| 0 <= i < j < out@.len() implies perm[i] != perm[j] by {
                if i > pos {
                    assert(perm[i] == old_perm[i - 1]);
                }
                if j > pos {
                    assert(perm[j] == old_perm[j - 1]);
                }
            }
            assert forall|i: int| 0 <= i < out@.len() implies #[trigger] out@[i] == input[perm[i]] by {
                if i > pos {
                    assert(out@[i] == old_out[i - 1]);
                    assert(perm[i] == old_perm[i - 1]);
                }
            }
            assert forall|i: int, j: int| 0 <= i < j < out@.len() implies !node_before(#[trigger] out@[j], #[trigger] out@[i]) by {
                if i > pos {
                    assert(out@[i] == old_out[i - 1]);
                }
                if j > pos {
                    assert(out@[j] == old_out[j - 1]);
                }
                lemma_node_order(out@[i], out@[j], out@[i]);
                lemma_node_order(out@[j], out@[i], out@[j]);
            }
            assert forall|i: int, j: int| 0 <= i < j < out@.len() && same_rank(#[trigger] out@[i], #[trigger] out@[j]) implies perm[i] < perm[j] by {
                if i > pos {
                    assert(out@[i] == old_out[i - 1]);
                    assert(perm[i] == old_perm[i - 1]);
                }
                if j > pos {
                    assert(out@[j] == old_out[j - 1]);
                    assert(perm[j] == old_perm[j - 1]);
                }
                if j == pos {
                    lemma_node_order(out@[i], x, x);
                }
            }
        }
    }
    proof {
        assert forall|i: int| 0 <= i < n implies 0 <= #[trigger] perm[i] < n by {}
        assert(is_permutation(perm, n as int));
    }
    out
}

} // verus!
