//! Character-level helpers on `&str` values, stated over their `Seq<char>` views.

use vstd::prelude::*;
use vstd::string::{StrSliceExecFns, StringExecFns};

verus! {

/// The views of a sequence of strings.
pub open spec fn strings_view(v: Seq<String>) -> Seq<Seq<char>> {
    v.map_values(|s: String| s@)
}

/// Whether `p` is a prefix of `s`.
pub open spec fn has_prefix(s: Seq<char>, p: Seq<char>) -> bool {
    p.len() <= s.len() && s.subrange(0, p.len() as int) == p
}

/// Whether `p` is a suffix of `s`.
pub open spec fn has_suffix(s: Seq<char>, p: Seq<char>) -> bool {
    p.len() <= s.len() && s.subrange(s.len() - p.len(), s.len() as int) == p
}

/// The position of the first `c` at or after `i`, or the length of `s`.
pub open spec fn next_sep(s: Seq<char>, c: char, i: int) -> int
    decreases s.len() - i,
{
    if i < 0 || i >= s.len() {
        s.len() as int
    } else if s[i] == c {
        i
    } else {
        next_sep(s, c, i + 1)
    }
}

/// The non-empty pieces between occurrences of `c` in `s`, from position `i` on.
pub open spec fn pieces_from(s: Seq<char>, c: char, i: int) -> Seq<Seq<char>>
    decreases s.len() + 1 - i,
{
    if i < 0 || i >= s.len() {
        seq![]
    } else {
        let j = next_sep(s, c, i);
        if j > s.len() {
            seq![]
        } else if j <= i {
            pieces_from(s, c, i + 1)
        } else {
            seq![s.subrange(i, j)] + pieces_from(s, c, j + 1)
        }
    }
}

/// `next_sep` finds the first `c` at or after `i`, or runs to the end.
pub proof fn lemma_next_sep_bounds(s: Seq<char>, c: char, i: int)
    requires
        0 <= i <= s.len(),
    ensures
        i <= next_sep(s, c, i) <= s.len(),
        next_sep(s, c, i) < s.len() ==> s[next_sep(s, c, i)] == c,
        forall|k: int| i <= k < next_sep(s, c, i) ==> s[k] != c,
    decreases s.len() - i,
{
    if i < s.len() && s[i] != c {
        lemma_next_sep_bounds(s, c, i + 1);
    }
}

/// Each piece is non-empty and free of `c`.
pub proof fn lemma_pieces_shape(s: Seq<char>, c: char, i: int)
    requires
        0 <= i,
    ensures
        forall|k: int| 0 <= k < pieces_from(s, c, i).len() ==> #[trigger] pieces_from(s, c, i)[k].len() > 0
            && forall|m: int| 0 <= m < pieces_from(s, c, i)[k].len() ==> pieces_from(s, c, i)[k][m] != c,
    decreases s.len() + 1 - i,
{
    if i < s.len() {
        lemma_next_sep_bounds(s, c, i);
        let j = next_sep(s, c, i);
        if j <= i {
            lemma_pieces_shape(s, c, i + 1);
        } else {
            lemma_pieces_shape(s, c, j + 1);
            let p = pieces_from(s, c, i);
            assert forall|k: int| 0 <= k < p.len() implies #[trigger] p[k].len() > 0
                && forall|m: int| 0 <= m < p[k].len() ==> p[k][m] != c by {
                if k > 0 {
                    assert(p[k] == pieces_from(s, c, j + 1)[k - 1]);
                }
            }
        }
    }
}

proof fn lemma_next_sep_shift(x: Seq<char>, y: Seq<char>, c: char, k: int)
    requires
        0 <= k <= y.len(),
    ensures
        next_sep(x + y, c, x.len() + k) == x.len() + next_sep(y, c, k),
    decreases y.len() - k,
{
    if k < y.len() && y[k] != c {
        assert((x + y)[x.len() + k] == y[k]);
        lemma_next_sep_shift(x, y, c, k + 1);
    } else if k < y.len() {
        assert((x + y)[x.len() + k] == y[k]);
    }
}

/// The pieces of `x + y` after `x` are those of `y`.
proof fn lemma_pieces_shift(x: Seq<char>, y: Seq<char>, c: char, k: int)
    requires
        0 <= k,
    ensures
        pieces_from(x + y, c, x.len() + k) == pieces_from(y, c, k),
    decreases y.len() + 1 - k,
{
    if k < y.len() {
        lemma_next_sep_shift(x, y, c, k);
        lemma_next_sep_bounds(y, c, k);
        let j = next_sep(y, c, k);
        if j <= k {
            lemma_pieces_shift(x, y, c, k + 1);
        } else {
            lemma_pieces_shift(x, y, c, j + 1);
            assert((x + y).subrange(x.len() + k, x.len() + j) =~= y.subrange(k, j));
        }
    }
}

proof fn lemma_next_sep_prefix(x: Seq<char>, y: Seq<char>, c: char, i: int)
    requires
        y.len() > 0,
        y[0] == c,
        0 <= i <= x.len(),
    ensures
        next_sep(x + y, c, i) == next_sep(x, c, i),
    decreases x.len() - i,
{
    if i < x.len() {
        assert((x + y)[i] == x[i]);
        if x[i] != c {
            lemma_next_sep_prefix(x, y, c, i + 1);
        }
    } else {
        assert((x + y)[x.len() as int] == y[0]);
    }
}

/// Before a separator that starts `y`, the pieces of `x + y` are those of `x`.
proof fn lemma_pieces_prefix(x: Seq<char>, y: Seq<char>, c: char, i: int)
    requires
        y.len() > 0,
        y[0] == c,
        0 <= i <= x.len(),
    ensures
        pieces_from(x + y, c, i) == pieces_from(x, c, i) + pieces_from(x + y, c, x.len() as int),
    decreases x.len() - i,
{
    if i < x.len() {
        lemma_next_sep_prefix(x, y, c, i);
        lemma_next_sep_bounds(x, c, i);
        let j = next_sep(x, c, i);
        if j <= i {
            lemma_pieces_prefix(x, y, c, i + 1);
            assert(pieces_from(x + y, c, i) == pieces_from(x + y, c, i + 1));
        } else {
            assert((x + y).subrange(i, j) =~= x.subrange(i, j));
            assert(pieces_from(x + y, c, i) == seq![x.subrange(i, j)] + pieces_from(x + y, c, j + 1));
            assert(pieces_from(x, c, i) == seq![x.subrange(i, j)] + pieces_from(x, c, j + 1));
            if j < x.len() {
                lemma_pieces_prefix(x, y, c, j + 1);
            } else {
                assert((x + y)[x.len() as int] == y[0]);
                assert(pieces_from(x + y, c, x.len() as int) == pieces_from(x + y, c, x.len() + 1int));
                assert(pieces_from(x, c, j + 1) =~= seq![]);
            }
            assert(pieces_from(x + y, c, i) =~= pieces_from(x, c, i) + pieces_from(x + y, c, x.len() as int));
        }
    } else {
        assert(pieces_from(x, c, i) =~= seq![]);
        assert(pieces_from(x + y, c, i) =~= pieces_from(x, c, i) + pieces_from(x + y, c, x.len() as int));
    }
}

/// Splitting `x + y` where `y` starts with the separator splits each part.
pub proof fn lemma_pieces_concat(x: Seq<char>, y: Seq<char>, c: char)
    requires
        y.len() > 0,
        y[0] == c,
    ensures
        pieces_from(x + y, c, 0) == pieces_from(x, c, 0) + pieces_from(y, c, 0),
{
    lemma_pieces_prefix(x, y, c, 0);
    lemma_pieces_shift(x, y, c, 0);
}

/// A separator followed by one piece `t` splits into `t` alone; a lone
/// separator splits into nothing.
pub proof fn lemma_pieces_single(t: Seq<char>, c: char)
    requires
        t.len() > 0,
        forall|m: int| 0 <= m < t.len() ==> t[m] != c,
    ensures
        pieces_from(seq![c] + t, c, 0) == seq![t],
        pieces_from(seq![c], c, 0) == Seq::<Seq<char>>::empty(),
{
    let s = seq![c] + t;
    assert(pieces_from(seq![c], c, 0) == pieces_from(seq![c], c, 1));
    assert(pieces_from(s, c, 0) == pieces_from(s, c, 1));
    assert forall|k: int| 1 <= k < s.len() implies s[k] != c by {
        assert(s[k] == t[k - 1]);
    }
    lemma_next_sep_bounds(s, c, 1);
    assert(s.subrange(1, s.len() as int) =~= t);
    assert(pieces_from(s, c, s.len() + 1int) =~= seq![]);
    assert(pieces_from(s, c, 1) =~= seq![t]);
}

/// The end of the piece of `s` that starts at `i`: the next `c`, or the end of `s`.
pub fn find_sep(s: &str, c: char, i: usize) -> (j: usize)
    requires
        i <= s@.len(),
    ensures
        i <= j <= s@.len(),
        j == next_sep(s@, c, i as int),
{
    let n = s.unicode_len();
    let mut j: usize = i;
    while j < n && s.get_char(j) != c
        invariant
            n == s@.len(),
            i <= j <= n,
            next_sep(s@, c, i as int) == next_sep(s@, c, j as int),
        decreases n - j,
    {
        j = j + 1;
    }
    j
}

/// The characters that `char::is_whitespace` accepts (Unicode `White_Space`).
pub open spec fn is_white(c: char) -> bool {
    ('\u{9}' <= c && c <= '\u{d}') || c == ' ' || c == '\u{85}' || c == '\u{a0}'
        || c == '\u{1680}' || ('\u{2000}' <= c && c <= '\u{200a}') || c == '\u{2028}'
        || c == '\u{2029}' || c == '\u{202f}' || c == '\u{205f}' || c == '\u{3000}'
}

fn white(c: char) -> (r: bool)
    ensures
        r == is_white(c),
{
    ('\u{9}' <= c && c <= '\u{d}') || c == ' ' || c == '\u{85}' || c == '\u{a0}'
        || c == '\u{1680}' || ('\u{2000}' <= c && c <= '\u{200a}') || c == '\u{2028}'
        || c == '\u{2029}' || c == '\u{202f}' || c == '\u{205f}' || c == '\u{3000}'
}

/// `s` without its leading white space.
pub open spec fn trim_start(s: Seq<char>) -> Seq<char>
    decreases s.len(),
{
    if s.len() > 0 && is_white(s[0]) {
        trim_start(s.drop_first())
    } else {
        s
    }
}

/// `s` without its trailing white space.
pub open spec fn trim_end(s: Seq<char>) -> Seq<char>
    decreases s.len(),
{
    if s.len() > 0 && is_white(s.last()) {
        trim_end(s.drop_last())
    } else {
        s
    }
}

/// `s` without leading or trailing white space, as `str::trim` gives it.
pub open spec fn trimmed(s: Seq<char>) -> Seq<char> {
    trim_end(trim_start(s))
}

/// `s` without leading or trailing white space.
pub fn trim_text(s: &str) -> (r: &str)
    ensures
        r@ == trimmed(s@),
{
    let n = s.unicode_len();
    let mut a: usize = 0;
    assert(s@.subrange(0, n as int) =~= s@);
    while a < n && white(s.get_char(a))
        invariant
            n == s@.len(),
            a <= n,
            trim_start(s@) == trim_start(s@.subrange(a as int, n as int)),
        decreases n - a,
    {
        assert(s@.subrange(a as int, n as int).drop_first() =~= s@.subrange(a + 1, n as int));
        a = a + 1;
    }
    let mut b: usize = n;
    while b > a && white(s.get_char(b - 1))
        invariant
            n == s@.len(),
            a <= b <= n,
            trim_end(s@.subrange(a as int, n as int)) == trim_end(s@.subrange(a as int, b as int)),
        decreases b,
    {
        assert(s@.subrange(a as int, b as int).drop_last() =~= s@.subrange(a as int, b - 1));
        b = b - 1;
    }
    s.substring_char(a, b)
}

/// The text before the first ` as ` in `s`, looking from position `i` on;
/// all of `s` where there is none.
pub open spec fn before_alias_from(s: Seq<char>, i: int) -> Seq<char>
    decreases s.len() - i,
{
    if i < 0 || i + 4 > s.len() {
        s
    } else if s[i] == ' ' && s[i + 1] == 'a' && s[i + 2] == 's' && s[i + 3] == ' ' {
        s.subrange(0, i)
    } else {
        before_alias_from(s, i + 1)
    }
}

/// The first item that `s.split(" as ")` yields.
pub open spec fn before_alias(s: Seq<char>) -> Seq<char> {
    before_alias_from(s, 0)
}

/// The text of `s` before its first ` as `.
pub fn cut_alias(s: &str) -> (r: &str)
    ensures
        r@ == before_alias(s@),
{
    let n = s.unicode_len();
    let mut i: usize = 0;
    while i < n && n - i >= 4
        invariant
            n == s@.len(),
            i <= n,
            before_alias(s@) == before_alias_from(s@, i as int),
        decreases n - i,
    {
        if s.get_char(i) == ' ' && s.get_char(i + 1) == 'a' && s.get_char(i + 2) == 's'
            && s.get_char(i + 3) == ' ' {
            return s.substring_char(0, i);
        }
        i = i + 1;
    }
    s
}

/// A character's code with ASCII capitals taken to small letters.
pub open spec fn ascii_fold(c: char) -> u32 {
    if 'A' <= c && c <= 'Z' {
        (c as u32 + 32) as u32
    } else {
        c as u32
    }
}

/// Equal up to the case of ASCII letters.
pub open spec fn same_ignoring_ascii_case(a: Seq<char>, b: Seq<char>) -> bool {
    a.len() == b.len() && forall|k: int| 0 <= k < a.len() ==> ascii_fold(a[k]) == ascii_fold(b[k])
}

fn fold(c: char) -> (r: u32)
    ensures
        r == ascii_fold(c),
{
    if 'A' <= c && c <= 'Z' {
        c as u32 + 32
    } else {
        c as u32
    }
}

/// Comparison up to the case of ASCII letters.
pub fn eq_ignore_ascii_case_text(a: &str, b: &str) -> (r: bool)
    ensures
        r == same_ignoring_ascii_case(a@, b@),
{
    let n = a.unicode_len();
    if n != b.unicode_len() {
        return false;
    }
    let mut i: usize = 0;
    while i < n
        invariant
            n == a@.len(),
            n == b@.len(),
            i <= n,
            forall|k: int| 0 <= k < i ==> ascii_fold(a@[k]) == ascii_fold(b@[k]),
        decreases n - i,
    {
        if fold(a.get_char(i)) != fold(b.get_char(i)) {
            return false;
        }
        i = i + 1;
    }
    true
}

/// Exact comparison of two strings.
pub fn same_text(a: &str, b: &str) -> (r: bool)
    ensures
        r == (a@ == b@),
{
    let n = a.unicode_len();
    if n != b.unicode_len() {
        return false;
    }
    let mut i: usize = 0;
    while i < n
        invariant
            n == a@.len(),
            n == b@.len(),
            i <= n,
            forall|k: int| 0 <= k < i ==> a@[k] == b@[k],
        decreases n - i,
    {
        if a.get_char(i) != b.get_char(i) {
            return false;
        }
        i = i + 1;
    }
    assert(a@ =~= b@);
    true
}

/// Whether `s` begins with `p`.
pub fn starts_with_text(s: &str, p: &str) -> (r: bool)
    ensures
        r == has_prefix(s@, p@),
{
    let n = s.unicode_len();
    let m = p.unicode_len();
    if m > n {
        return false;
    }
    let mut i: usize = 0;
    while i < m
        invariant
            n == s@.len(),
            m == p@.len(),
            m <= n,
            i <= m,
            forall|k: int| 0 <= k < i ==> s@[k] == p@[k],
        decreases m - i,
    {
        if s.get_char(i) != p.get_char(i) {
            assert(s@.subrange(0, m as int)[i as int] != p@[i as int]);
            return false;
        }
        i = i + 1;
    }
    assert(s@.subrange(0, m as int) =~= p@);
    true
}

/// Whether `s` ends with `p`.
pub fn ends_with_text(s: &str, p: &str) -> (r: bool)
    ensures
        r == has_suffix(s@, p@),
{
    let n = s.unicode_len();
    let m = p.unicode_len();
    if m > n {
        return false;
    }
    let d = n - m;
    let mut i: usize = 0;
    while i < m
        invariant
            n == s@.len(),
            m == p@.len(),
            d == n - m,
            i <= m,
            forall|k: int| 0 <= k < i ==> s@[d + k] == p@[k],
        decreases m - i,
    {
        if s.get_char(d + i) != p.get_char(i) {
            assert(s@.subrange(d as int, n as int)[i as int] != p@[i as int]);
            return false;
        }
        i = i + 1;
    }
    assert(s@.subrange(d as int, n as int) =~= p@);
    true
}

/// Strict order of texts, character by character, as `str`'s `Ord` orders them.
pub open spec fn text_lt(a: Seq<char>, b: Seq<char>) -> bool
    decreases a.len(),
{
    if a.len() == 0 {
        b.len() > 0
    } else if b.len() == 0 {
        false
    } else if a[0] != b[0] {
        a[0] < b[0]
    } else {
        text_lt(a.drop_first(), b.drop_first())
    }
}

pub proof fn lemma_text_lt_irreflexive(a: Seq<char>)
    ensures
        !text_lt(a, a),
    decreases a.len(),
{
    if a.len() > 0 {
        lemma_text_lt_irreflexive(a.drop_first());
    }
}

pub proof fn lemma_text_lt_transitive(a: Seq<char>, b: Seq<char>, c: Seq<char>)
    requires
        text_lt(a, b),
        text_lt(b, c),
    ensures
        text_lt(a, c),
    decreases a.len(),
{
    if a.len() > 0 && b.len() > 0 && c.len() > 0 && a[0] == b[0] && b[0] == c[0] {
        lemma_text_lt_transitive(a.drop_first(), b.drop_first(), c.drop_first());
    }
}

pub proof fn lemma_text_lt_total(a: Seq<char>, b: Seq<char>)
    ensures
        a == b || text_lt(a, b) || text_lt(b, a),
    decreases a.len(),
{
    if a.len() > 0 && b.len() > 0 && a[0] == b[0] {
        lemma_text_lt_total(a.drop_first(), b.drop_first());
        if a.drop_first() == b.drop_first() {
            assert(a =~= seq![a[0]] + a.drop_first());
            assert(b =~= seq![b[0]] + b.drop_first());
        }
    } else if a.len() == 0 && b.len() == 0 {
        assert(a =~= b);
    }
}

/// Whether `a` comes strictly before `b`.
pub fn text_less(a: &str, b: &str) -> (r: bool)
    ensures
        r == text_lt(a@, b@),
{
    let na = a.unicode_len();
    let nb = b.unicode_len();
    let mut i: usize = 0;
    assert(a@.skip(0) =~= a@);
    assert(b@.skip(0) =~= b@);
    while i < na && i < nb && a.get_char(i) == b.get_char(i)
        invariant
            na == a@.len(),
            nb == b@.len(),
            i <= na,
            i <= nb,
            text_lt(a@, b@) == text_lt(a@.skip(i as int), b@.skip(i as int)),
        decreases na - i,
    {
        assert(a@.skip(i as int).drop_first() =~= a@.skip(i + 1));
        assert(b@.skip(i as int).drop_first() =~= b@.skip(i + 1));
        i = i + 1;
    }
    if i == na {
        i < nb
    } else if i == nb {
        false
    } else {
        a.get_char(i) < b.get_char(i)
    }
}

/// The decimal digit for `d`, below ten.
pub open spec fn digit_char(d: nat) -> char {
    if d == 0 { '0' } else if d == 1 { '1' } else if d == 2 { '2' } else if d == 3 { '3' } else if d == 4 { '4' } else if d == 5 { '5' } else if d == 6 { '6' } else if d == 7 { '7' } else if d == 8 { '8' } else { '9' }
}

/// The decimal numeral of `n`, as `usize`'s `to_string` writes it.
pub open spec fn decimal(n: nat) -> Seq<char>
    decreases n,
{
    if n < 10 {
        seq![digit_char(n)]
    } else {
        decimal(n / 10) + seq![digit_char(n % 10)]
    }
}

fn digit_text(d: usize) -> (r: &'static str)
    requires
        d < 10,
    ensures
        r@ == seq![digit_char(d as nat)],
{
    match d {
        0 => {
            proof {
                reveal_strlit("0");
                assert("0"@ =~= seq!['0']);
            }
            "0"
        },
        1 => {
            proof {
                reveal_strlit("1");
                assert("1"@ =~= seq!['1']);
            }
            "1"
        },
        2 => {
            proof {
                reveal_strlit("2");
                assert("2"@ =~= seq!['2']);
            }
            "2"
        },
        3 => {
            proof {
                reveal_strlit("3");
                assert("3"@ =~= seq!['3']);
            }
            "3"
        },
        4 => {
            proof {
                reveal_strlit("4");
                assert("4"@ =~= seq!['4']);
            }
            "4"
        },
        5 => {
            proof {
                reveal_strlit("5");
                assert("5"@ =~= seq!['5']);
            }
            "5"
        },
        6 => {
            proof {
                reveal_strlit("6");
                assert("6"@ =~= seq!['6']);
            }
            "6"
        },
        7 => {
            proof {
                reveal_strlit("7");
                assert("7"@ =~= seq!['7']);
            }
            "7"
        },
        8 => {
            proof {
                reveal_strlit("8");
                assert("8"@ =~= seq!['8']);
            }
            "8"
        },
        9 => {
            proof {
                reveal_strlit("9");
                assert("9"@ =~= seq!['9']);
            }
            "9"
        },
        _ => {
            proof {
                reveal_strlit("9");
                assert("9"@ =~= seq!['9']);
            }
            "9"
        },
    }
}

/// The decimal numeral of `n`.
pub fn decimal_text(n: usize) -> (r: String)
    ensures
        r@ == decimal(n as nat),
    decreases n,
{
    if n < 10 {
        String::from_str(digit_text(n))
    } else {
        let mut r = decimal_text(n / 10);
        r.append(digit_text(n % 10));
        r
    }
}

/// The texts of `v` with `sep` between each two.
pub open spec fn joined(v: Seq<Seq<char>>, sep: Seq<char>) -> Seq<char>
    decreases v.len(),
{
    if v.len() == 0 {
        seq![]
    } else if v.len() == 1 {
        v[0]
    } else {
        joined(v.drop_last(), sep) + sep + v.last()
    }
}

/// The texts of `v` with `sep` between each two.
pub fn join_texts(v: &Vec<String>, sep: &str) -> (r: String)
    ensures
        r@ == joined(strings_view(v@), sep@),
{
    let ghost w = strings_view(v@);
    let mut r = String::new();
    let mut i: usize = 0;
    while i < v.len()
        invariant
            i <= v@.len(),
            w == strings_view(v@),
            r@ == joined(w.take(i as int), sep@),
        decreases v@.len() - i,
    {
        assert(w.take(i + 1).drop_last() =~= w.take(i as int));
        if i > 0 {
            r.append(sep);
        } else {
            assert(r@ =~= seq![]);
        }
        r.append(v[i].as_str());
        assert(r@ =~= joined(w.take(i + 1), sep@));
        i = i + 1;
    }
    assert(w.take(i as int) =~= w);
    r
}

} // verus!
