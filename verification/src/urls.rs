//! Scanners that pull URLs, amounts, and percentages out of plain text.
//!
//! Each scanner walks the text left to right, recognizes a fixed token
//! grammar, and is specified by a recursive scan function over the
//! character sequence.

use vstd::prelude::*;
use crate::text::{matches_at, str_chars, chars_to_string, subrange_chars, matches_at_exec};

verus! {

/// Characters that end a URL token.
pub open spec fn is_url_stop(c: char) -> bool {
    crate::text::is_space(c) || c == ')' || c == '>' || c == ']' || c == '"' || c == '\'' || c
        == '`'
}

/// Exec mirror of `is_url_stop`.
pub fn is_url_stop_exec(c: char) -> (b: bool)
    ensures
        b == is_url_stop(c),
{
    crate::text::is_space_exec(c) || c == ')' || c == '>' || c == ']' || c == '"' || c == '\'' || c
        == '`'
}

/// Punctuation stripped from the end of a recognized URL.
pub open spec fn is_trail_punct(c: char) -> bool {
    c == ',' || c == '.' || c == ')' || c == ']' || c == ';' || c == ':'
}

/// Exec mirror of `is_trail_punct`.
pub fn is_trail_punct_exec(c: char) -> (b: bool)
    ensures
        b == is_trail_punct(c),
{
    c == ',' || c == '.' || c == ')' || c == ']' || c == ';' || c == ':'
}

/// A URL token begins at `i`.
pub open spec fn url_starts_at(s: Seq<char>, i: int) -> bool {
    matches_at(s, "http://"@, i) || matches_at(s, "https://"@, i)
}

/// The end of the token that begins at `i`: the first stop character at or
/// after `i`, or the end of the text.
pub open spec fn token_end(s: Seq<char>, i: int) -> int
    decreases s.len() - i,
{
    if i < 0 {
        0
    } else if i >= s.len() || is_url_stop(s[i]) {
        i
    } else {
        token_end(s, i + 1)
    }
}

pub proof fn lemma_token_end_bounds(s: Seq<char>, i: int)
    requires
        0 <= i <= s.len(),
    ensures
        i <= token_end(s, i) <= s.len(),
    decreases s.len() - i,
{
    if i < s.len() && !is_url_stop(s[i]) {
        lemma_token_end_bounds(s, i + 1);
    }
}

/// Trailing punctuation stripped from a token.
pub open spec fn clean_token(t: Seq<char>) -> Seq<char>
    decreases t.len(),
{
    if t.len() > 0 && is_trail_punct(t.last()) {
        clean_token(t.drop_last())
    } else {
        t
    }
}

proof fn lemma_clean_token_bounds(t: Seq<char>, k: int)
    requires
        0 <= k <= t.len(),
        forall|j: int| k <= j < t.len() ==> is_trail_punct(t[j]),
        k == 0 || !is_trail_punct(t[k - 1]),
    ensures
        clean_token(t) == t.subrange(0, k),
    decreases t.len() - k,
{
    if k == t.len() {
        assert(t.subrange(0, t.len() as int) =~= t);
    } else {
        let u = t.drop_last();
        lemma_clean_token_bounds(u, k);
        assert(u.subrange(0, k) =~= t.subrange(0, k));
    }
}

/// Strip trailing punctuation from a token.
pub fn clean_token_exec(t: &Vec<char>) -> (r: Vec<char>)
    ensures
        r@ == clean_token(t@),
{
    let n = t.len();
    let mut b: usize = n;
    while b > 0 && is_trail_punct_exec(t[b - 1])
        invariant
            n == t@.len(),
            b <= n,
            forall|j: int| b <= j < n ==> is_trail_punct(t@[j]),
        decreases b,
    {
        b -= 1;
    }
    proof {
        lemma_clean_token_bounds(t@, b as int);
    }
    subrange_chars(t, 0, b)
}

/// Every URL token of the text, in order: at each URL start the token runs
/// to the next stop character and is emitted with trailing punctuation
/// stripped; scanning resumes after the token.
pub open spec fn url_scan(s: Seq<char>, i: int) -> Seq<Seq<char>>
    decreases s.len() - i,
{
    if i < 0 || i >= s.len() {
        Seq::empty()
    } else if url_starts_at(s, i) {
        let j = token_end(s, i);
        let next = if i < j && j <= s.len() {
            j
        } else {
            i + 1
        };
        seq![clean_token(s.subrange(i, next))] + url_scan(s, next)
    } else {
        url_scan(s, i + 1)
    }
}

/// Duplicates dropped, first occurrence kept.
pub open spec fn dedup_seq(s: Seq<Seq<char>>) -> Seq<Seq<char>>
    decreases s.len(),
{
    if s.len() == 0 {
        Seq::empty()
    } else {
        let d = dedup_seq(s.drop_last());
        if d.contains(s.last()) {
            d
        } else {
            d + seq![s.last()]
        }
    }
}

/// Whether a URL token begins at `i`, by checking both schemes.
pub fn url_starts_at_exec(v: &Vec<char>, i: usize) -> (b: bool)
    requires
        i <= v@.len(),
    ensures
        b == url_starts_at(v@, i as int),
{
    let http = str_chars("http://");
    let https = str_chars("https://");
    let n = v.len();
    let m1 = if n - i >= http.len() {
        matches_at_exec(v, &http, i)
    } else {
        false
    };
    let m2 = if n - i >= https.len() {
        matches_at_exec(v, &https, i)
    } else {
        false
    };
    m1 || m2
}

/// Find the token end from `i`.
pub fn token_end_exec(v: &Vec<char>, i: usize) -> (r: usize)
    requires
        i <= v@.len(),
    ensures
        r == token_end(v@, i as int),
        i <= r <= v@.len(),
{
    let n = v.len();
    let mut j: usize = i;
    while j < n && !is_url_stop_exec(v[j])
        invariant
            n == v@.len(),
            i <= j <= n,
            token_end(v@, i as int) == token_end(v@, j as int),
        decreases n - j,
    {
        j += 1;
    }
    j
}

/// The element of a nested character list, seen through `deep_view`, is
/// the element's own view.
pub proof fn lemma_deep_view_index(v: &Vec<Vec<char>>, i: int)
    requires
        0 <= i < v@.len(),
    ensures
        v.deep_view()[i] == v@[i]@,
{
    assert(v.deep_view()[i] =~= v@[i]@);
}

/// Whether `x` occurs among the collected tokens.
fn token_list_contains(out: &Vec<Vec<char>>, x: &Vec<char>) -> (b: bool)
    ensures
        b == out.deep_view().contains(x@),
{
    let mut k: usize = 0;
    while k < out.len()
        invariant
            k <= out@.len(),
            forall|y: int| 0 <= y < k ==> out.deep_view()[y] != x@,
        decreases out@.len() - k,
    {
        proof {
            lemma_deep_view_index(out, k as int);
        }
        if chars_eq(&out[k], x) {
            return true;
        }
        k += 1;
    }
    false
}

/// Whether two character vectors hold the same text.
pub fn chars_eq(a: &Vec<char>, b: &Vec<char>) -> (r: bool)
    ensures
        r == (a@ == b@),
{
    if a.len() != b.len() {
        return false;
    }
    let mut i: usize = 0;
    while i < a.len()
        invariant
            a@.len() == b@.len(),
            i <= a@.len(),
            forall|k: int| 0 <= k < i ==> a@[k] == b@[k],
        decreases a@.len() - i,
    {
        if a[i] != b[i] {
            return false;
        }
        i += 1;
    }
    proof {
        assert(a@ =~= b@);
    }
    true
}

/// All URL tokens of the text, in order of first appearance.
pub fn scan_url_tokens(v: &Vec<char>) -> (r: Vec<Vec<char>>)
    ensures
        r.deep_view() == url_scan(v@, 0),
{
    let n = v.len();
    let mut out: Vec<Vec<char>> = Vec::new();
    let mut i: usize = 0;
    while i < n
        invariant
            n == v@.len(),
            i <= n,
            url_scan(v@, 0) == out.deep_view() + url_scan(v@, i as int),
        decreases n - i,
    {
        if url_starts_at_exec(v, i) {
            let j = token_end_exec(v, i);
            proof {
                assert(v@[i as int] == 'h') by {
                    if matches_at(v@, "http://"@, i as int) {
                        reveal_strlit("http://");
                        assert(v@.subrange(i as int, i + 7)[0] == 'h');
                    } else {
                        reveal_strlit("https://");
                        assert(v@.subrange(i as int, i + 8)[0] == 'h');
                    }
                }
                assert(!is_url_stop(v@[i as int]));
                assert(token_end(v@, i as int) == token_end(v@, i + 1));
                lemma_token_end_bounds(v@, i + 1);
            }
            let tok = subrange_chars(v, i, j);
            let cleaned = clean_token_exec(&tok);
            let ghost pre = out.deep_view();
            out.push(cleaned);
            proof {
                assert(out.deep_view() =~~= pre + seq![
                    clean_token(v@.subrange(i as int, j as int)),
                ]);
                assert(url_scan(v@, i as int) == seq![
                    clean_token(v@.subrange(i as int, j as int)),
                ] + url_scan(v@, j as int));
                assert(url_scan(v@, 0) =~~= out.deep_view() + url_scan(v@, j as int));
            }
            i = j;
        } else {
            proof {
                assert(url_scan(v@, i as int) == url_scan(v@, i + 1));
            }
            i += 1;
        }
    }
    proof {
        assert(url_scan(v@, n as int) =~= Seq::<Seq<char>>::empty());
        assert(out.deep_view() + url_scan(v@, n as int) =~= out.deep_view());
    }
    out
}

/// Drop duplicate tokens, keeping each first occurrence.
pub fn dedup_tokens(toks: &Vec<Vec<char>>) -> (r: Vec<Vec<char>>)
    ensures
        r.deep_view() == dedup_seq(toks.deep_view()),
{
    let mut out: Vec<Vec<char>> = Vec::new();
    let mut i: usize = 0;
    while i < toks.len()
        invariant
            i <= toks@.len(),
            out.deep_view() == dedup_seq(toks.deep_view().subrange(0, i as int)),
        decreases toks@.len() - i,
    {
        let ghost pre = toks.deep_view().subrange(0, i as int);
        proof {
            lemma_deep_view_index(toks, i as int);
        }
        let hit = token_list_contains(&out, &toks[i]);
        if !hit {
            let copy = subrange_chars(&toks[i], 0, toks[i].len());
            proof {
                assert(copy@ =~= toks@[i as int]@);
            }
            out.push(copy);
        }
        i += 1;
        proof {
            let post = toks.deep_view().subrange(0, i as int);
            assert(post.drop_last() =~= pre);
            assert(post.last() == toks.deep_view()[i - 1]);
            if !hit {
                assert(out.deep_view() =~~= dedup_seq(post));
            } else {
                assert(out.deep_view() =~~= dedup_seq(post));
            }
        }
    }
    proof {
        assert(toks.deep_view().subrange(0, toks@.len() as int) =~= toks.deep_view());
    }
    out
}

/// Extract the distinct URLs of a text, in order of first appearance, with
/// trailing punctuation stripped from each.
pub fn extract_urls(content: &str) -> (r: Vec<String>)
    ensures
        r.deep_view() == dedup_seq(url_scan(content@, 0)),
{
    let v = str_chars(content);
    let toks = scan_url_tokens(&v);
    let ded = dedup_tokens(&toks);
    let mut out: Vec<String> = Vec::new();
    let mut i: usize = 0;
    while i < ded.len()
        invariant
            i <= ded@.len(),
            out.deep_view() == ded.deep_view().subrange(0, i as int),
        decreases ded@.len() - i,
    {
        let s = chars_to_string(&ded[i]);
        proof {
            assert(out.deep_view().len() == out@.len());
            assert(out@.len() == i);
            assert(s@ == ded@[i as int]@);
        }
        out.push(s);
        i += 1;
        proof {
            assert(out.deep_view().len() == out@.len());
            assert(out@.len() == i);
            let post = ded.deep_view().subrange(0, i as int);
            assert forall|k: int| 0 <= k < post.len() implies out.deep_view()[k] == post[k] by {
                lemma_deep_view_index(&ded, k);
                assert(out.deep_view()[k] == out@[k].deep_view());
                assert(post[k] == ded.deep_view()[k]);
            };
            assert(out.deep_view() =~= post);
        }
    }
    proof {
        assert(ded.deep_view().subrange(0, ded@.len() as int) =~= ded.deep_view());
    }
    out
}


/// The element of a text list, seen through `deep_view`, is the element's
/// own view.
pub proof fn lemma_deep_view_index_str(v: &Vec<String>, i: int)
    requires
        0 <= i < v@.len(),
    ensures
        v.deep_view()[i] == v@[i]@,
{
}

/// Append a copy of every text of `src` to `dst`.
pub fn append_string_vec(dst: &mut Vec<String>, src: &Vec<String>)
    ensures
        final(dst).deep_view() == old(dst).deep_view() + src.deep_view(),
{
    let mut i: usize = 0;
    proof {
        assert(src.deep_view().subrange(0, 0) =~= Seq::<Seq<char>>::empty());
        assert(dst.deep_view() =~= old(dst).deep_view() + src.deep_view().subrange(0, 0));
    }
    while i < src.len()
        invariant
            i <= src@.len(),
            dst.deep_view() == old(dst).deep_view() + src.deep_view().subrange(0, i as int),
        decreases src@.len() - i,
    {
        let s = src[i].clone();
        let ghost prev_dv = dst.deep_view();
        let ghost prev_v = dst@;
        proof {
            lemma_deep_view_index_str(src, i as int);
            assert(s@ == src@[i as int]@);
            assert(prev_dv.len() == prev_v.len());
        }
        dst.push(s);
        i += 1;
        proof {
            assert(dst.deep_view().len() == dst@.len());
            let post = old(dst).deep_view() + src.deep_view().subrange(0, i as int);
            assert forall|k: int| 0 <= k < post.len() implies dst.deep_view()[k] == post[k] by {
                lemma_deep_view_index_str(dst, k);
                if k < prev_v.len() {
                    assert(dst@[k] == prev_v[k]);
                    assert(prev_dv[k] == prev_v[k]@);
                }
            };
            assert(dst.deep_view() =~= post);
        }
    }
    proof {
        assert(src.deep_view().subrange(0, src@.len() as int) =~= src.deep_view());
    }
}

/// The first `n` texts of `v`, copied.
pub fn cap_string_vec(v: &Vec<String>, n: usize) -> (r: Vec<String>)
    ensures
        r.deep_view() == crate::text::cap_seq(v.deep_view(), n as int),
{
    let mut out: Vec<String> = Vec::new();
    let mut t: usize = 0;
    proof {
        assert(out.deep_view() =~= v.deep_view().subrange(0, 0));
    }
    while t < v.len() && t < n
        invariant
            t <= v@.len(),
            t <= n,
            out.deep_view() == v.deep_view().subrange(0, t as int),
        decreases v@.len() - t,
    {
        let s = v[t].clone();
        let ghost prev_dv = out.deep_view();
        let ghost prev_v = out@;
        proof {
            lemma_deep_view_index_str(v, t as int);
            assert(s@ == v@[t as int]@);
            assert(prev_dv.len() == prev_v.len());
        }
        out.push(s);
        t += 1;
        proof {
            assert(out.deep_view().len() == out@.len());
            let post = v.deep_view().subrange(0, t as int);
            assert forall|k: int| 0 <= k < post.len() implies out.deep_view()[k] == post[k] by {
                lemma_deep_view_index_str(&out, k);
                lemma_deep_view_index_str(v, k);
                if k < prev_v.len() {
                    assert(out@[k] == prev_v[k]);
                    assert(prev_dv[k] == prev_v[k]@);
                }
            };
            assert(out.deep_view() =~= post);
        }
    }
    proof {
        if v.deep_view().len() <= n {
            assert(v.deep_view().subrange(0, v.deep_view().len() as int) =~= v.deep_view());
        }
    }
    out
}

} // verus!

