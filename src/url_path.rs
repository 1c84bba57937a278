//! Conversion of a route file's path into the URL path it serves.
//!
//! `users/[id].ts` serves `/users/:id`, `posts/[...slug].ts` serves
//! `/posts/*slug`, and `index` segments are elided.

use vstd::prelude::*;
use vstd::string::{StrSliceExecFns, StringExecFns};
use crate::text::{has_suffix, same_text, ends_with_text, pieces_from, next_sep, lemma_pieces_shape, lemma_pieces_concat, lemma_pieces_single};

verus! {

pub open spec fn ts_ext() -> Seq<char> {
    seq!['.', 't', 's']
}

pub open spec fn tsx_ext() -> Seq<char> {
    seq!['.', 't', 's', 'x']
}

pub open spec fn index_name() -> Seq<char> {
    seq!['i', 'n', 'd', 'e', 'x']
}

/// Whether `s` ends with one of the two recognised source extensions.
pub open spec fn has_source_ext(s: Seq<char>) -> bool {
    has_suffix(s, ts_ext()) || has_suffix(s, tsx_ext())
}

/// `s` with `.ts`, or else `.tsx`, removed from its end.
pub open spec fn strip_source_ext(s: Seq<char>) -> Seq<char> {
    if has_suffix(s, ts_ext()) {
        s.subrange(0, s.len() - 3)
    } else if has_suffix(s, tsx_ext()) {
        s.subrange(0, s.len() - 4)
    } else {
        s
    }
}

/// The non-empty `/`-separated segments of `s`, in order.
pub open spec fn segments(s: Seq<char>) -> Seq<Seq<char>> {
    pieces_from(s, '/', 0)
}

/// A segment written `[name]`.
pub open spec fn is_bracketed(seg: Seq<char>) -> bool {
    seg.len() >= 2 && seg[0] == '[' && seg[seg.len() - 1] == ']'
}

/// What a kept segment becomes in the URL: `[...name]` gives `*name`,
/// `[name]` gives `:name`, anything else stays as it is.
pub open spec fn url_segment(seg: Seq<char>) -> Seq<char> {
    if is_bracketed(seg) {
        let p = seg.subrange(1, seg.len() - 1);
        if p.len() >= 3 && p[0] == '.' && p[1] == '.' && p[2] == '.' {
            seq!['*'] + p.subrange(3, p.len() as int)
        } else {
            seq![':'] + p
        }
    } else {
        seg
    }
}

/// Each segment but `index`, converted and followed by `/`.
pub open spec fn render(segs: Seq<Seq<char>>) -> Seq<char>
    decreases segs.len(),
{
    if segs.len() == 0 {
        seq![]
    } else {
        let rest = render(segs.drop_last());
        if segs.last() == index_name() {
            rest
        } else {
            rest + url_segment(segs.last()) + seq!['/']
        }
    }
}

/// `u` without one trailing `/`, unless `u` is a single character.
pub open spec fn trim_trailing_slash(u: Seq<char>) -> Seq<char> {
    if u.len() > 1 && u[u.len() - 1] == '/' {
        u.drop_last()
    } else {
        u
    }
}

/// The URL path served by a route file at `relative` below the routes root.
pub open spec fn url_of(relative: Seq<char>) -> Seq<char> {
    trim_trailing_slash(seq!['/'] + render(segments(strip_source_ext(relative))))
}

/// A name for what `std::path::Path::strip_prefix` gives: the path of `path`
/// relative to `base`, when `base` is a leading run of `path`'s components.
pub uninterp spec fn path_relative_to(path: Seq<char>, base: Seq<char>) -> Option<Seq<char>>;

/// The text that the converter works on: the path relative to the routes
/// root, or the whole path where it does not lie below the root.
pub open spec fn relative_or_whole(path: Seq<char>, base: Seq<char>) -> Seq<char> {
    match path_relative_to(path, base) {
        Some(rel) => rel,
        None => path,
    }
}

/// Relies on `std::path::Path::strip_prefix`, which compares whole path
/// components; the remaining path is handed back as text.
#[verifier::external_body]
fn strip_path_prefix(path: &str, base: &str) -> (r: Option<String>)
    ensures
        match r {
            Some(rel) => path_relative_to(path@, base@) == Some(rel@),
            None => path_relative_to(path@, base@) is None,
        },
{
    std::path::Path::new(path).strip_prefix(base).ok().map(|p| p.to_string_lossy().to_string())
}

/// `relative` without its source extension.
fn without_source_ext(relative: &str) -> (r: &str)
    ensures
        r@ == strip_source_ext(relative@),
{
    let n = relative.unicode_len();
    proof {
        reveal_strlit(".ts");
        reveal_strlit(".tsx");
        assert(".ts"@ =~= ts_ext());
        assert(".tsx"@ =~= tsx_ext());
    }
    if ends_with_text(relative, ".ts") {
        relative.substring_char(0, n - 3)
    } else if ends_with_text(relative, ".tsx") {
        relative.substring_char(0, n - 4)
    } else {
        relative
    }
}

/// The URL path served by a route file, given its path relative to the
/// routes root.
pub fn url_path_from_relative(relative: &str) -> (r: String)
    ensures
        r@ == url_of(relative@),
{
    let s = without_source_ext(relative);
    let n = s.unicode_len();
    proof {
        reveal_strlit("/");
        assert("/"@ =~= seq!['/']);
    }
    let mut url = String::from_str("/");
    let ghost mut done: Seq<Seq<char>> = seq![];
    let mut i: usize = 0;
    while i < n
        invariant
            n == s@.len(),
            i <= n,
            segments(s@) == done + pieces_from(s@, '/', i as int),
            url@ == seq!['/'] + render(done),
        decreases n - i,
    {
        let mut j: usize = i;
        while j < n && s.get_char(j) != '/'
            invariant
                n == s@.len(),
                i <= j <= n,
                next_sep(s@, '/', i as int) == next_sep(s@, '/', j as int),
            decreases n - j,
        {
            j = j + 1;
        }
        if j == i {
            i = i + 1;
        } else {
            let seg = s.substring_char(i, j);
            assert(pieces_from(s@, '/', i as int) == seq![seg@] + pieces_from(s@, '/', j + 1));
            proof {
                assert(done.push(seg@).drop_last() =~= done);
            }
            let ghost before = url@;
            proof {
                reveal_strlit("/");
                reveal_strlit(":");
                reveal_strlit("*");
                reveal_strlit("index");
                assert("index"@ =~= index_name());
                assert("*"@ =~= seq!['*']);
                assert(":"@ =~= seq![':']);
                assert("/"@ =~= seq!['/']);
            }
            if !same_text(seg, "index") {
                let m = j - i;
                if m >= 2 && seg.get_char(0) == '[' && seg.get_char(m - 1) == ']' {
                    let p = seg.substring_char(1, m - 1);
                    assert(is_bracketed(seg@));
                    assert(p@ =~= seg@.subrange(1, seg@.len() - 1));
                    if m >= 5 && p.get_char(0) == '.' && p.get_char(1) == '.' && p.get_char(2) == '.' {
                        url.append("*");
                        url.append(p.substring_char(3, m - 2));
                        assert(url@ =~= before + url_segment(seg@));
                    } else {
                        url.append(":");
                        url.append(p);
                        assert(url@ =~= before + url_segment(seg@));
                    }
                } else {
                    url.append(seg);
                    assert(url@ =~= before + url_segment(seg@));
                }
                url.append("/");
            }
            proof {
                assert(segments(s@) =~= done.push(seg@) + pieces_from(s@, '/', j + 1));
                done = done.push(seg@);
            }
            assert(url@ =~= seq!['/'] + render(done));
            i = if j < n { j + 1 } else { j };
        }
    }
    assert(done + pieces_from(s@, '/', i as int) =~= done);
    let len = url.unicode_len();
    if len > 1 && url.as_str().get_char(len - 1) == '/' {
        let trimmed = url.as_str().substring_char(0, len - 1);
        let out = String::from_str(trimmed);
        assert(out@ =~= url_of(relative@));
        out
    } else {
        url
    }
}

/// The URL path served by the route file at `file_path` below `routes_dir`.
/// Where the file does not lie below `routes_dir`, its whole path is used.
pub fn file_path_to_url_path(file_path: &str, routes_dir: &str) -> (r: String)
    ensures
        r@ == url_of(relative_or_whole(file_path@, routes_dir@)),
{
    match strip_path_prefix(file_path, routes_dir) {
        Some(rel) => url_path_from_relative(rel.as_str()),
        None => url_path_from_relative(file_path),
    }
}

/// The segments that stay in the URL, each converted: all but `index`.
pub open spec fn kept(segs: Seq<Seq<char>>) -> Seq<Seq<char>>
    decreases segs.len(),
{
    if segs.len() == 0 {
        seq![]
    } else if segs.last() == index_name() {
        kept(segs.drop_last())
    } else {
        kept(segs.drop_last()).push(url_segment(segs.last()))
    }
}

/// The segments other than `index`, unchanged.
pub open spec fn without_index(segs: Seq<Seq<char>>) -> Seq<Seq<char>>
    decreases segs.len(),
{
    if segs.len() == 0 {
        seq![]
    } else if segs.last() == index_name() {
        without_index(segs.drop_last())
    } else {
        without_index(segs.drop_last()).push(segs.last())
    }
}

/// `/t1/t2/.../tn`.
pub open spec fn slash_joined(ts: Seq<Seq<char>>) -> Seq<char>
    decreases ts.len(),
{
    if ts.len() == 0 {
        seq![]
    } else {
        slash_joined(ts.drop_last()) + seq!['/'] + ts.last()
    }
}

/// The URL path made of the segments `ts`: `/` where there are none.
pub open spec fn path_of(ts: Seq<Seq<char>>) -> Seq<char> {
    if ts.len() == 0 {
        seq!['/']
    } else {
        slash_joined(ts)
    }
}

/// A non-empty segment without `/`.
pub open spec fn is_piece(t: Seq<char>) -> bool {
    t.len() > 0 && forall|m: int| 0 <= m < t.len() ==> t[m] != '/'
}

/// A segment that conversion leaves as it is.
pub open spec fn is_final_segment(t: Seq<char>) -> bool {
    is_piece(t) && t != index_name() && !is_bracketed(t)
}

proof fn lemma_render_joined(segs: Seq<Seq<char>>)
    ensures
        seq!['/'] + render(segs) == slash_joined(kept(segs)) + seq!['/'],
    decreases segs.len(),
{
    if segs.len() > 0 {
        lemma_render_joined(segs.drop_last());
        if segs.last() != index_name() {
            let k = kept(segs.drop_last());
            assert(kept(segs).drop_last() =~= k);
            assert(seq!['/'] + render(segs) =~= (seq!['/'] + render(segs.drop_last())) + url_segment(segs.last()) + seq!['/']);
            assert(slash_joined(kept(segs)) =~= slash_joined(k) + seq!['/'] + url_segment(segs.last()));
        }
    } else {
        assert(seq!['/'] + render(segs) =~= slash_joined(kept(segs)) + seq!['/']);
    }
}

/// Every path converts to the `/`-joined conversions of its segments other
/// than `index`, or to `/` where none is left.
pub proof fn lemma_url_of_segments(relative: Seq<char>)
    ensures
        url_of(relative) == path_of(kept(segments(strip_source_ext(relative)))),
{
    let segs = segments(strip_source_ext(relative));
    lemma_render_joined(segs);
    let k = kept(segs);
    if k.len() == 0 {
        assert(slash_joined(k) =~= seq![]);
        assert(seq!['/'] + render(segs) =~= seq!['/']);
    } else {
        let u = slash_joined(k) + seq!['/'];
        assert(u.drop_last() =~= slash_joined(k));
    }
}

proof fn lemma_kept_static(segs: Seq<Seq<char>>)
    requires
        forall|k: int| 0 <= k < segs.len() ==> !is_bracketed(#[trigger] segs[k]),
    ensures
        kept(segs) == without_index(segs),
    decreases segs.len(),
{
    if segs.len() > 0 {
        assert(!is_bracketed(segs[segs.len() - 1]));
        lemma_kept_static(segs.drop_last());
    }
}

/// A path without `[..]` segments converts to its segments other than
/// `index`, with the source extension removed and no segment rewritten.
pub proof fn lemma_static_path(relative: Seq<char>)
    requires
        forall|k: int| 0 <= k < segments(strip_source_ext(relative)).len()
            ==> !is_bracketed(#[trigger] segments(strip_source_ext(relative))[k]),
    ensures
        url_of(relative) == path_of(without_index(segments(strip_source_ext(relative)))),
{
    lemma_url_of_segments(relative);
    lemma_kept_static(segments(strip_source_ext(relative)));
}

/// For a route file whose path below the routes root has no `[..]`
/// segment, the URL path is that path without its source extension and its
/// `index` segments, joined by `/`; no `:` or `*` segment is introduced.
pub proof fn lemma_static_file_path(file_path: Seq<char>, routes_dir: Seq<char>)
    requires
        forall|k: int| 0 <= k < segments(strip_source_ext(relative_or_whole(file_path, routes_dir))).len()
            ==> !is_bracketed(#[trigger] segments(strip_source_ext(relative_or_whole(file_path, routes_dir)))[k]),
    ensures
        url_of(relative_or_whole(file_path, routes_dir))
            == path_of(without_index(segments(strip_source_ext(relative_or_whole(file_path, routes_dir))))),
{
    lemma_static_path(relative_or_whole(file_path, routes_dir));
}

proof fn lemma_kept_final(segs: Seq<Seq<char>>)
    requires
        forall|k: int| 0 <= k < segs.len() ==> is_piece(#[trigger] segs[k]),
    ensures
        forall|k: int| 0 <= k < kept(segs).len() ==> is_final_segment(#[trigger] kept(segs)[k]),
    decreases segs.len(),
{
    if segs.len() > 0 {
        let rest = segs.drop_last();
        assert forall|k: int| 0 <= k < rest.len() implies is_piece(#[trigger] rest[k]) by {
            assert(rest[k] == segs[k]);
        }
        lemma_kept_final(rest);
        let seg = segs.last();
        assert(is_piece(seg));
        if seg != index_name() {
            let t = url_segment(seg);
            if is_bracketed(seg) {
                let p = seg.subrange(1, seg.len() - 1);
                assert forall|m: int| 0 <= m < p.len() implies p[m] != '/' by {
                    assert(p[m] == seg[m + 1]);
                }
                assert(t[0] == ':' || t[0] == '*');
                assert(t[0] != index_name()[0]);
                assert forall|m: int| 0 <= m < t.len() implies t[m] != '/' by {
                    if m > 0 {
                        if p.len() >= 3 && p[0] == '.' && p[1] == '.' && p[2] == '.' {
                            assert(t[m] == p[m + 2]);
                        } else {
                            assert(t[m] == p[m - 1]);
                        }
                    }
                }
            }
            assert(is_final_segment(t));
            let k2 = kept(segs);
            assert(k2 == kept(rest).push(t));
            assert forall|k: int| 0 <= k < k2.len() implies is_final_segment(#[trigger] k2[k]) by {
                if k < k2.len() - 1 {
                    assert(k2[k] == kept(rest)[k]);
                }
            }
        }
    }
}

proof fn lemma_kept_fixed(ts: Seq<Seq<char>>)
    requires
        forall|k: int| 0 <= k < ts.len() ==> is_final_segment(#[trigger] ts[k]),
    ensures
        kept(ts) == ts,
    decreases ts.len(),
{
    if ts.len() > 0 {
        let rest = ts.drop_last();
        assert(is_final_segment(ts[ts.len() - 1]));
        assert forall|k: int| 0 <= k < rest.len() implies is_final_segment(#[trigger] rest[k]) by {
            assert(rest[k] == ts[k]);
        }
        lemma_kept_fixed(rest);
        assert(ts =~= rest.push(ts.last()));
    }
}

proof fn lemma_segments_of_joined(ts: Seq<Seq<char>>)
    requires
        forall|k: int| 0 <= k < ts.len() ==> is_piece(#[trigger] ts[k]),
    ensures
        pieces_from(slash_joined(ts), '/', 0) == ts,
    decreases ts.len(),
{
    if ts.len() == 0 {
        assert(pieces_from(slash_joined(ts), '/', 0) =~= ts);
    } else {
        let rest = ts.drop_last();
        assert forall|k: int| 0 <= k < rest.len() implies is_piece(#[trigger] rest[k]) by {
            assert(rest[k] == ts[k]);
        }
        lemma_segments_of_joined(rest);
        let t = ts.last();
        assert(is_piece(ts[ts.len() - 1]));
        let y = seq!['/'] + t;
        assert(slash_joined(ts) =~= slash_joined(rest) + y);
        lemma_pieces_concat(slash_joined(rest), y, '/');
        lemma_pieces_single(t, '/');
        assert(ts =~= rest + seq![t]);
    }
}

/// Converting a URL path again, as a path of its own, gives it back, where
/// it does not itself end in a source extension (as `/a.ts` from `a.ts.ts`
/// does).
pub proof fn lemma_convert_idempotent(relative: Seq<char>)
    requires
        !has_source_ext(url_of(relative)),
    ensures
        url_of(url_of(relative)) == url_of(relative),
{
    let u = url_of(relative);
    let segs = segments(strip_source_ext(relative));
    lemma_url_of_segments(relative);
    lemma_pieces_shape(strip_source_ext(relative), '/', 0);
    assert forall|k: int| 0 <= k < segs.len() implies is_piece(#[trigger] segs[k]) by {}
    lemma_kept_final(segs);
    let ts = kept(segs);
    assert(strip_source_ext(u) == u);
    lemma_url_of_segments(u);
    if ts.len() == 0 {
        lemma_pieces_single(seq!['a'], '/');
        assert(segments(u) =~= seq![]);
        assert(kept(segments(u)) =~= seq![]);
    } else {
        assert forall|k: int| 0 <= k < ts.len() implies is_piece(#[trigger] ts[k]) by {
            assert(is_final_segment(ts[k]));
        }
        lemma_segments_of_joined(ts);
        lemma_kept_fixed(ts);
    }
}

proof fn lemma_joined_starts_with_slash(ts: Seq<Seq<char>>)
    requires
        ts.len() > 0,
    ensures
        slash_joined(ts).len() > 0,
        slash_joined(ts)[0] == '/',
    decreases ts.len(),
{
    let rest = slash_joined(ts.drop_last());
    if ts.len() > 1 {
        lemma_joined_starts_with_slash(ts.drop_last());
    } else {
        assert(rest =~= seq![]);
    }
    assert((rest + seq!['/'] + ts.last())[0] == (rest + seq!['/'])[0]);
}

/// Every URL path starts with `/` and, but for `/` itself, does not end
/// with `/`.
pub proof fn lemma_url_shape(relative: Seq<char>)
    ensures
        url_of(relative).len() > 0,
        url_of(relative)[0] == '/',
        url_of(relative).len() > 1 ==> url_of(relative).last() != '/',
{
    lemma_url_of_segments(relative);
    let segs = segments(strip_source_ext(relative));
    lemma_pieces_shape(strip_source_ext(relative), '/', 0);
    assert forall|k: int| 0 <= k < segs.len() implies is_piece(#[trigger] segs[k]) by {}
    lemma_kept_final(segs);
    let ts = kept(segs);
    if ts.len() > 0 {
        lemma_joined_starts_with_slash(ts);
        assert(is_final_segment(ts[ts.len() - 1]));
        let t = ts.last();
        assert(slash_joined(ts).last() == t[t.len() - 1]);
    }
}

} // verus!
