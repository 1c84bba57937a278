//! The keys that an env file (`KEY=value` lines) defines.

use vstd::prelude::*;
use vstd::string::{StrSliceExecFns, StringExecFns};
use crate::text::strings_view;
use crate::text::{
    find_sep, lemma_text_lt_irreflexive, lemma_text_lt_total, lemma_text_lt_transitive, next_sep,
    pieces_from, same_text, text_less, text_lt, trim_text, trimmed,
};

verus! {

/// The key that one line defines: the trimmed text before its first `=`,
/// where the trimmed line is not empty, not a `#` comment, and has an `=`.
pub open spec fn key_of_line(line: Seq<char>) -> Option<Seq<char>> {
    let t = trimmed(line);
    if t.len() == 0 || t[0] == '#' {
        None
    } else {
        let e = next_sep(t, '=', 0);
        if e >= t.len() {
            None
        } else if trimmed(t.subrange(0, e)).len() == 0 {
            None
        } else {
            Some(trimmed(t.subrange(0, e)))
        }
    }
}

/// The keys defined by the given lines.
pub open spec fn keys_of_lines(lines: Seq<Seq<char>>) -> Set<Seq<char>>
    decreases lines.len(),
{
    if lines.len() == 0 {
        Set::empty()
    } else {
        let rest = keys_of_lines(lines.drop_last());
        match key_of_line(lines.last()) {
            Some(k) => rest.insert(k),
            None => rest,
        }
    }
}

/// The keys that the env text `input` defines, line by line.
pub open spec fn env_keys(input: Seq<char>) -> Set<Seq<char>> {
    keys_of_lines(pieces_from(input, '\n', 0))
}

/// Each text comes strictly before the next.
pub open spec fn strictly_ascending(v: Seq<Seq<char>>) -> bool {
    forall|i: int, j: int| 0 <= i < j < v.len() ==> text_lt(#[trigger] v[i], #[trigger] v[j])
}

/// The texts of `s` in ascending order, each once.
pub open spec fn ascending(s: Set<Seq<char>>) -> Seq<Seq<char>> {
    choose|v: Seq<Seq<char>>| strictly_ascending(v) && (forall|k: Seq<char>| v.contains(k) <==> s.contains(k))
}

/// Two strictly ascending sequences with the same texts are equal.
proof fn lemma_ascending_unique(a: Seq<Seq<char>>, b: Seq<Seq<char>>)
    requires
        strictly_ascending(a),
        strictly_ascending(b),
        forall|k: Seq<char>| a.contains(k) <==> b.contains(k),
    ensures
        a == b,
    decreases a.len(),
{
    if a.len() == 0 {
        if b.len() > 0 {
            assert(b.contains(b[0]));
        }
        assert(a =~= b);
    } else if b.len() == 0 {
        assert(a.contains(a[0]));
    } else {
        assert(a.contains(a[0]));
        assert(b.contains(b[0]));
        let ia = choose|i: int| 0 <= i < a.len() && a[i] == b[0];
        let ib = choose|i: int| 0 <= i < b.len() && b[i] == a[0];
        if ia > 0 && ib > 0 {
            lemma_text_lt_transitive(a[0], a[ia], a[0]);
            lemma_text_lt_irreflexive(a[0]);
        }
        if ia > 0 && ib == 0 {
            lemma_text_lt_irreflexive(a[0]);
        }
        if ib > 0 && ia == 0 {
            lemma_text_lt_irreflexive(b[0]);
        }
        assert(a[0] == b[0]);
        let ta = a.drop_first();
        let tb = b.drop_first();
        assert forall|k: Seq<char>| ta.contains(k) <==> tb.contains(k) by {
            if ta.contains(k) {
                let i = choose|i: int| 0 <= i < ta.len() && ta[i] == k;
                assert(a[i + 1] == k);
                assert(b.contains(k));
                let j = choose|j: int| 0 <= j < b.len() && b[j] == k;
                if j == 0 {
                    lemma_text_lt_irreflexive(k);
                }
                assert(tb[j - 1] == k);
            }
            if tb.contains(k) {
                let i = choose|i: int| 0 <= i < tb.len() && tb[i] == k;
                assert(b[i + 1] == k);
                assert(a.contains(k));
                let j = choose|j: int| 0 <= j < a.len() && a[j] == k;
                if j == 0 {
                    lemma_text_lt_irreflexive(k);
                }
                assert(ta[j - 1] == k);
            }
        }
        lemma_ascending_unique(ta, tb);
        assert(a =~= seq![a[0]] + ta);
        assert(b =~= seq![b[0]] + tb);
    }
}

/// A strictly ascending sequence of the texts of `s` is `ascending(s)`.
pub proof fn lemma_is_ascending(v: Seq<Seq<char>>, s: Set<Seq<char>>)
    requires
        strictly_ascending(v),
        forall|k: Seq<char>| v.contains(k) <==> s.contains(k),
    ensures
        v == ascending(s),
{
    let w = ascending(s);
    assert(strictly_ascending(w) && (forall|k: Seq<char>| w.contains(k) <==> s.contains(k)));
    lemma_ascending_unique(v, w);
}

/// The key that `line` defines, if any.
fn line_key(line: &str) -> (r: Option<&str>)
    ensures
        match r {
            Some(k) => key_of_line(line@) == Some(k@),
            None => key_of_line(line@) is None,
        },
{
    let t = trim_text(line);
    let n = t.unicode_len();
    if n == 0 || t.get_char(0) == '#' {
        return None;
    }
    let e = find_sep(t, '=', 0);
    if e >= n {
        return None;
    }
    let k = trim_text(t.substring_char(0, e));
    if k.unicode_len() == 0 {
        None
    } else {
        Some(k)
    }
}

/// Adds `x` to the strictly ascending `keys`, unless it is there already.
fn insert_key(keys: &mut Vec<String>, x: &str)
    requires
        strictly_ascending(strings_view(old(keys)@)),
    ensures
        strictly_ascending(strings_view(final(keys)@)),
        forall|k: Seq<char>| strings_view(final(keys)@).contains(k) <==> (strings_view(old(keys)@).contains(k) || k == x@),
{
    let ghost v = strings_view(keys@);
    let mut pos: usize = keys.len();
    while pos > 0 && text_less(x, keys[pos - 1].as_str())
        invariant
            pos <= keys@.len(),
            v == strings_view(keys@),
            forall|i: int| pos <= i < v.len() ==> text_lt(x@, #[trigger] v[i]),
        decreases pos,
    {
        pos = pos - 1;
    }
    if pos > 0 && same_text(keys[pos - 1].as_str(), x) {
        assert(v[pos - 1] == x@);
        return;
    }
    proof {
        if pos > 0 {
            lemma_text_lt_total(v[pos - 1], x@);
        }
        assert forall|i: int| 0 <= i < pos implies text_lt(#[trigger] v[i], x@) by {
            if i < pos - 1 {
                lemma_text_lt_transitive(v[i], v[pos - 1], x@);
            }
        }
    }
    keys.insert(pos, String::from_str(x));
    proof {
        let w = strings_view(keys@);
        assert(w =~= v.insert(pos as int, x@));
        v.insert_ensures(pos as int, x@);
        assert forall|i: int, j: int| 0 <= i < j < w.len() implies text_lt(#[trigger] w[i], #[trigger] w[j]) by {
            if i > pos {
                assert(w[i] == v[i - 1]);
            }
            if j > pos {
                assert(w[j] == v[j - 1]);
            }
            if i < pos && j > pos {
                lemma_text_lt_transitive(w[i], x@, w[j]);
            }
        }
        assert forall|k: Seq<char>| w.contains(k) <==> (v.contains(k) || k == x@) by {
            if w.contains(k) {
                let i = choose|i: int| 0 <= i < w.len() && w[i] == k;
                if i > pos {
                    assert(v[i - 1] == k);
                } else if i < pos {
                    assert(v[i] == k);
                }
            }
            if v.contains(k) {
                let i = choose|i: int| 0 <= i < v.len() && v[i] == k;
                if i >= pos {
                    assert(w[i + 1] == k);
                } else {
                    assert(w[i] == k);
                }
            }
            if k == x@ {
                assert(w[pos as int] == k);
            }
        }
    }
}

/// The keys that the env text `input` defines, each once, in ascending order.
pub fn parse_env_keys(input: &str) -> (r: Vec<String>)
    ensures
        strings_view(r@) == ascending(env_keys(input@)),
        strictly_ascending(strings_view(r@)),
        forall|k: Seq<char>| strings_view(r@).contains(k) <==> env_keys(input@).contains(k),
{
    let n = input.unicode_len();
    let mut keys: Vec<String> = Vec::new();
    let ghost mut done: Seq<Seq<char>> = seq![];
    let mut i: usize = 0;
    while i < n
        invariant
            n == input@.len(),
            i <= n,
            pieces_from(input@, '\n', 0) == done + pieces_from(input@, '\n', i as int),
            strictly_ascending(strings_view(keys@)),
            forall|k: Seq<char>| strings_view(keys@).contains(k) <==> keys_of_lines(done).contains(k),
        decreases n - i,
    {
        let j = find_sep(input, '\n', i);
        if j == i {
            i = i + 1;
        } else {
            let line = input.substring_char(i, j);
            assert(pieces_from(input@, '\n', i as int) == seq![line@] + pieces_from(input@, '\n', j + 1));
            let ghost before = strings_view(keys@);
            let lk = line_key(line);
            match lk {
                Some(k) => insert_key(&mut keys, k),
                None => {},
            }
            proof {
                let nd = done.push(line@);
                assert(nd.drop_last() =~= done);
                assert forall|k: Seq<char>| strings_view(keys@).contains(k) <==> keys_of_lines(nd).contains(k) by {
                    match lk {
                        Some(x) => {
                            assert(keys_of_lines(nd) == keys_of_lines(done).insert(x@));
                        },
                        None => {
                            assert(keys_of_lines(nd) == keys_of_lines(done));
                        },
                    }
                }
                assert(pieces_from(input@, '\n', 0) =~= done.push(line@) + pieces_from(input@, '\n', j + 1));
                done = done.push(line@);
            }
            i = if j < n { j + 1 } else { j };
        }
    }
    assert(done + pieces_from(input@, '\n', i as int) =~= done);
    proof {
        lemma_is_ascending(strings_view(keys@), env_keys(input@));
    }
    keys
}

fn contains_text(v: &Vec<String>, x: &str) -> (r: bool)
    ensures
        r == strings_view(v@).contains(x@),
{
    let mut i: usize = 0;
    while i < v.len()
        invariant
            i <= v@.len(),
            forall|k: int| 0 <= k < i ==> strings_view(v@)[k] != x@,
        decreases v@.len() - i,
    {
        if same_text(v[i].as_str(), x) {
            assert(strings_view(v@)[i as int] == x@);
            return true;
        }
        i = i + 1;
    }
    false
}

/// The keys that `example` defines and `actual` does not, each once, in
/// ascending order.
pub fn missing_env_keys(example: &str, actual: &str) -> (r: Vec<String>)
    ensures
        strings_view(r@) == ascending(env_keys(example@).difference(env_keys(actual@))),
        strictly_ascending(strings_view(r@)),
        forall|k: Seq<char>| strings_view(r@).contains(k)
            <==> (env_keys(example@).contains(k) && !env_keys(actual@).contains(k)),
{
    let expected = parse_env_keys(example);
    let present = parse_env_keys(actual);
    let ghost ev = strings_view(expected@);

    let mut out: Vec<String> = Vec::new();
    let mut i: usize = 0;
    while i < expected.len()
        invariant
            i <= expected@.len(),
            ev == strings_view(expected@),
            strictly_ascending(ev),
            strictly_ascending(strings_view(out@)),
            forall|a: int, j: int| 0 <= a < out@.len() && i <= j < ev.len()
                ==> text_lt(#[trigger] strings_view(out@)[a], #[trigger] ev[j]),
            forall|k: Seq<char>| strings_view(out@).contains(k)
                <==> (exists|j: int| 0 <= j < i && ev[j] == k) && !strings_view(present@).contains(k),
        decreases expected@.len() - i,
    {
        let x = expected[i].as_str();
        let ghost before = strings_view(out@);
        if !contains_text(&present, x) {
            out.push(String::from_str(x));
            proof {
                let w = strings_view(out@);
                assert(w =~= before.push(ev[i as int]));
                assert forall|k: Seq<char>| w.contains(k)
                    <==> (exists|j: int| 0 <= j < i + 1 && ev[j] == k) && !strings_view(present@).contains(k) by {
                    if w.contains(k) {
                        let a = choose|a: int| 0 <= a < w.len() && w[a] == k;
                        if a < before.len() {
                            assert(before.contains(k));
                        }
                    }
                    if exists|j: int| 0 <= j < i + 1 && ev[j] == k {
                        let j = choose|j: int| 0 <= j < i + 1 && ev[j] == k;
                        if j == i {
                            assert(w[before.len() as int] == k);
                        } else {
                            if !strings_view(present@).contains(k) {
                                assert(before.contains(k));
                                let a = choose|a: int| 0 <= a < before.len() && before[a] == k;
                                assert(w[a] == k);
                            }
                        }
                    }
                }
            }
        } else {
            proof {
                assert forall|k: Seq<char>| before.contains(k)
                    <==> (exists|j: int| 0 <= j < i + 1 && ev[j] == k) && !strings_view(present@).contains(k) by {
                    if exists|j: int| 0 <= j < i + 1 && ev[j] == k {
                        let j = choose|j: int| 0 <= j < i + 1 && ev[j] == k;
                        if j < i {
                            assert(exists|j: int| 0 <= j < i && ev[j] == k);
                        }
                    }
                }
            }
        }
        i = i + 1;
    }
    proof {
        assert forall|k: Seq<char>| strings_view(out@).contains(k)
            <==> env_keys(example@).difference(env_keys(actual@)).contains(k) by {
            if ev.contains(k) {
                let j = choose|j: int| 0 <= j < ev.len() && ev[j] == k;
                assert(exists|j: int| 0 <= j < i && ev[j] == k);
            }
            if exists|j: int| 0 <= j < i && ev[j] == k {
                let j = choose|j: int| 0 <= j < i && ev[j] == k;
                assert(ev.contains(k));
            }
        }
    }
    proof {
        lemma_is_ascending(strings_view(out@), env_keys(example@).difference(env_keys(actual@)));
    }
    out
}

} // verus!
