//! Scanners for dollar amounts and percentages in page text.

use vstd::prelude::*;
use crate::text::{matches_at, str_chars, chars_to_string, subrange_chars, cap_seq, is_space};
use crate::urls::lemma_deep_view_index;

verus! {

/// Characters a number token is made of: digits, commas, and dots.
pub open spec fn is_numch(c: char) -> bool {
    ('0' <= c && c <= '9') || c == ',' || c == '.'
}

/// Exec mirror of `is_numch`.
pub fn is_numch_exec(c: char) -> (b: bool)
    ensures
        b == is_numch(c),
{
    ('0' <= c && c <= '9') || c == ',' || c == '.'
}

/// The end of the number token that begins at `i`.
pub open spec fn num_end(s: Seq<char>, i: int) -> int
    decreases s.len() - i,
{
    if i < 0 {
        0
    } else if i >= s.len() || !is_numch(s[i]) {
        i
    } else {
        num_end(s, i + 1)
    }
}

pub proof fn lemma_num_end_bounds(s: Seq<char>, i: int)
    requires
        0 <= i <= s.len(),
    ensures
        i <= num_end(s, i) <= s.len(),
    decreases s.len() - i,
{
    if i < s.len() && is_numch(s[i]) {
        lemma_num_end_bounds(s, i + 1);
    }
}

/// The end of the whitespace run that begins at `i`.
pub open spec fn space_end(s: Seq<char>, i: int) -> int
    decreases s.len() - i,
{
    if i < 0 {
        0
    } else if i >= s.len() || !is_space(s[i]) {
        i
    } else {
        space_end(s, i + 1)
    }
}

pub proof fn lemma_space_end_bounds(s: Seq<char>, i: int)
    requires
        0 <= i <= s.len(),
    ensures
        i <= space_end(s, i) <= s.len(),
    decreases s.len() - i,
{
    if i < s.len() && is_space(s[i]) {
        lemma_space_end_bounds(s, i + 1);
    }
}

/// Find the number token end from `i`.
pub fn num_end_exec(v: &Vec<char>, i: usize) -> (r: usize)
    requires
        i <= v@.len(),
    ensures
        r == num_end(v@, i as int),
        i <= r <= v@.len(),
{
    let n = v.len();
    let mut j: usize = i;
    while j < n && is_numch_exec(v[j])
        invariant
            n == v@.len(),
            i <= j <= n,
            num_end(v@, i as int) == num_end(v@, j as int),
        decreases n - j,
    {
        j += 1;
    }
    j
}

/// Find the whitespace run end from `i`.
pub fn space_end_exec(v: &Vec<char>, i: usize) -> (r: usize)
    requires
        i <= v@.len(),
    ensures
        r == space_end(v@, i as int),
        i <= r <= v@.len(),
{
    let n = v.len();
    let mut j: usize = i;
    while j < n && crate::text::is_space_exec(v[j])
        invariant
            n == v@.len(),
            i <= j <= n,
            space_end(v@, i as int) == space_end(v@, j as int),
        decreases n - j,
    {
        j += 1;
    }
    j
}

/// A number token begins at `i`: a number character that no number
/// character precedes.
pub open spec fn num_starts_at(s: Seq<char>, i: int) -> bool {
    0 <= i < s.len() && is_numch(s[i]) && (i == 0 || !is_numch(s[i - 1]))
}

/// Every percentage token of the text, in order: a number run, optional
/// whitespace, and a percent sign; the emitted token spans all three.
pub open spec fn pct_scan(s: Seq<char>, i: int) -> Seq<Seq<char>>
    decreases s.len() - i,
{
    if i < 0 || i >= s.len() {
        Seq::empty()
    } else if num_starts_at(s, i) {
        let j = num_end(s, i);
        let k = space_end(s, j);
        if i < j && j <= k && k < s.len() && s[k] == '%' {
            seq![s.subrange(i, k + 1)] + pct_scan(s, k + 1)
        } else {
            let next = if i < j && j <= s.len() {
                j
            } else {
                i + 1
            };
            pct_scan(s, next)
        }
    } else {
        pct_scan(s, i + 1)
    }
}

/// Extract up to ten percentage tokens from the text, in order.
pub fn extract_percentages(text: &str) -> (r: Vec<String>)
    ensures
        r.deep_view() == cap_seq(pct_scan(text@, 0), 10),
{
    let v = str_chars(text);
    let n = v.len();
    let mut toks: Vec<Vec<char>> = Vec::new();
    let mut i: usize = 0;
    while i < n
        invariant
            n == v@.len(),
            i <= n,
            pct_scan(v@, 0) == toks.deep_view() + pct_scan(v@, i as int),
        decreases n - i,
    {
        let here = is_numch_exec(v[i]) && (i == 0 || !is_numch_exec(v[i - 1]));
        if here {
            let j = num_end_exec(&v, i);
            let k = space_end_exec(&v, j);
            proof {
                assert(num_end(v@, i as int) == num_end(v@, i + 1));
                lemma_num_end_bounds(v@, i + 1);
            }
            if k < n && v[k] == '%' {
                let tok = subrange_chars(&v, i, k + 1);
                let ghost pre = toks.deep_view();
                toks.push(tok);
                proof {
                    assert(toks.deep_view() =~~= pre + seq![v@.subrange(i as int, k + 1)]);
                    assert(pct_scan(v@, 0) =~~= toks.deep_view() + pct_scan(v@, k + 1));
                }
                i = k + 1;
            } else {
                proof {
                    assert(pct_scan(v@, i as int) == pct_scan(v@, j as int));
                }
                i = j;
            }
        } else {
            proof {
                if num_starts_at(v@, i as int) {
                    assert(false);
                }
                assert(pct_scan(v@, i as int) == pct_scan(v@, i + 1));
            }
            i += 1;
        }
    }
    proof {
        assert(pct_scan(v@, n as int) =~= Seq::<Seq<char>>::empty());
        assert(toks.deep_view() =~= pct_scan(v@, 0));
    }
    let mut out: Vec<String> = Vec::new();
    let mut t: usize = 0;
    while t < toks.len() && t < 10
        invariant
            t <= toks@.len(),
            t <= 10,
            out.deep_view() == toks.deep_view().subrange(0, t as int),
        decreases toks@.len() - t,
    {
        let s = chars_to_string(&toks[t]);
        proof {
            assert(out.deep_view().len() == out@.len());
            assert(s@ == toks@[t as int]@);
        }
        out.push(s);
        t += 1;
        proof {
            assert(out.deep_view().len() == out@.len());
            let post = toks.deep_view().subrange(0, t as int);
            assert forall|k: int| 0 <= k < post.len() implies out.deep_view()[k] == post[k] by {
                lemma_deep_view_index(&toks, k);
                assert(out.deep_view()[k] == out@[k].deep_view());
                assert(post[k] == toks.deep_view()[k]);
            };
            assert(out.deep_view() =~= post);
        }
    }
    proof {
        if toks.deep_view().len() <= 10 {
            assert(toks.deep_view().subrange(0, toks.deep_view().len() as int) =~= toks.deep_view());
        }
    }
    out
}

/// A dollar amount match: the number, the unit that followed it when one
/// did, and the matched text.
pub struct AmountMatch {
    pub value: String,
    pub unit: Option<String>,
    pub raw: String,
}

/// The spec-level image of an `AmountMatch`.
pub open spec fn amount_model(a: AmountMatch) -> (Seq<char>, Option<Seq<char>>, Seq<char>) {
    (
        a.value@,
        match a.unit {
            Some(u) => Some(u@),
            None => None,
        },
        a.raw@,
    )
}

/// The unit written at position `k`, tried in fixed order.
pub open spec fn unit_at(s: Seq<char>, k: int) -> Option<Seq<char>> {
    if matches_at(s, "billion"@, k) {
        Some("billion"@)
    } else if matches_at(s, "million"@, k) {
        Some("million"@)
    } else if matches_at(s, "B"@, k) {
        Some("B"@)
    } else if matches_at(s, "M"@, k) {
        Some("M"@)
    } else if matches_at(s, "K"@, k) {
        Some("K"@)
    } else {
        None
    }
}

/// Every dollar amount of the text, in order: a dollar sign, a number run,
/// and optionally a unit after whitespace.  Each entry is
/// `(value, unit, raw)`.
pub open spec fn amount_scan(s: Seq<char>, i: int) -> Seq<(Seq<char>, Option<Seq<char>>, Seq<char>)>
    decreases s.len() - i,
{
    if i < 0 || i >= s.len() {
        Seq::empty()
    } else if s[i] == '$' && i + 1 < s.len() && is_numch(s[i + 1]) {
        let j = num_end(s, i + 1);
        let k = space_end(s, j);
        if i + 1 < j && j <= k <= s.len() {
            let value = s.subrange(i + 1, j);
            match unit_at(s, k) {
                Some(u) => {
                    let next = k + u.len();
                    if k < next <= s.len() {
                        seq![(value, Some(u), s.subrange(i, next))] + amount_scan(s, next)
                    } else {
                        seq![(value, Some(u), s.subrange(i, j))] + amount_scan(s, j)
                    }
                },
                None => seq![(value, Option::<Seq<char>>::None, s.subrange(i, j))] + amount_scan(
                    s,
                    j,
                ),
            }
        } else {
            amount_scan(s, i + 1)
        }
    } else {
        amount_scan(s, i + 1)
    }
}

/// Which unit, if any, is written at `k`.
fn unit_at_exec(v: &Vec<char>, k: usize) -> (r: Option<&'static str>)
    requires
        k <= v@.len(),
    ensures
        match r {
            Some(u) => unit_at(v@, k as int) == Some(u@) && u@.len() >= 1,
            None => unit_at(v@, k as int) is None,
        },
{
    let n = v.len();
    let billion = str_chars("billion");
    let million = str_chars("million");
    let bb = str_chars("B");
    let mm = str_chars("M");
    let kk = str_chars("K");
    proof {
        reveal_strlit("billion");
        reveal_strlit("million");
        reveal_strlit("B");
        reveal_strlit("M");
        reveal_strlit("K");
    }
    if n - k >= billion.len() && crate::text::matches_at_exec(v, &billion, k) {
        Some("billion")
    } else if n - k >= million.len() && crate::text::matches_at_exec(v, &million, k) {
        Some("million")
    } else if n - k >= bb.len() && crate::text::matches_at_exec(v, &bb, k) {
        Some("B")
    } else if n - k >= mm.len() && crate::text::matches_at_exec(v, &mm, k) {
        Some("M")
    } else if n - k >= kk.len() && crate::text::matches_at_exec(v, &kk, k) {
        Some("K")
    } else {
        None
    }
}

/// Extract up to ten dollar amounts from the text, in order.
pub fn extract_amounts(text: &str) -> (r: Vec<AmountMatch>)
    ensures
        r@.len() == cap_seq(amount_scan(text@, 0), 10).len(),
        forall|x: int|
            0 <= x < r@.len() ==> amount_model(r@[x]) == cap_seq(amount_scan(text@, 0), 10)[x],
{
    let v = str_chars(text);
    let n = v.len();
    let mut out: Vec<AmountMatch> = Vec::new();
    let ghost full = amount_scan(v@, 0);
    let mut i: usize = 0;
    while i < n
        invariant
            n == v@.len(),
            i <= n,
            out@.len() <= full.len(),
            full == Seq::new(out@.len(), |x: int| amount_model(out@[x])) + amount_scan(
                v@,
                i as int,
            ),
        decreases n - i,
    {
        let ghost models = Seq::new(out@.len(), |x: int| amount_model(out@[x]));
        if v[i] == '$' && i + 1 < n && is_numch_exec(v[i + 1]) {
            let j = num_end_exec(&v, i + 1);
            let k = space_end_exec(&v, j);
            if i + 1 < j {
                let value = chars_to_string(&subrange_chars(&v, i + 1, j));
                match unit_at_exec(&v, k) {
                    Some(u) => {
                        let uv = str_chars(u);
                        let next = k + uv.len();
                        proof {
                            assert(unit_at(v@, k as int) == Some(u@));
                            assert(matches_at(v@, u@, k as int));
                        }
                        let raw = chars_to_string(&subrange_chars(&v, i, next));
                        let unit = Some(u.to_owned());
                        out.push(AmountMatch { value, unit, raw });
                        proof {
                            let m2 = Seq::new(out@.len(), |x: int| amount_model(out@[x]));
                            assert(m2 =~= models + seq![amount_model(out@[out@.len() - 1])]);
                            assert(full =~= m2 + amount_scan(v@, next as int));
                        }
                        i = next;
                    },
                    None => {
                        let raw = chars_to_string(&subrange_chars(&v, i, j));
                        out.push(AmountMatch { value, unit: None, raw });
                        proof {
                            let m2 = Seq::new(out@.len(), |x: int| amount_model(out@[x]));
                            assert(m2 =~= models + seq![amount_model(out@[out@.len() - 1])]);
                            assert(full =~= m2 + amount_scan(v@, j as int));
                        }
                        i = j;
                    },
                }
            } else {
                proof {
                    assert(amount_scan(v@, i as int) == amount_scan(v@, i + 1));
                }
                i += 1;
            }
        } else {
            proof {
                assert(amount_scan(v@, i as int) == amount_scan(v@, i + 1));
            }
            i += 1;
        }
    }
    proof {
        assert(amount_scan(v@, n as int) =~= Seq::<(Seq<char>, Option<Seq<char>>, Seq<char>)>::empty());
        assert(full =~= Seq::new(out@.len(), |x: int| amount_model(out@[x])));
    }
    let mut capped: Vec<AmountMatch> = Vec::new();
    let mut t: usize = 0;
    while t < out.len() && t < 10
        invariant
            t <= out@.len(),
            t <= 10,
            capped@ == out@.subrange(0, t as int),
        decreases out@.len() - t,
    {
        let a = &out[t];
        let unit: Option<String> = match &a.unit {
            Some(u) => Some(u.clone()),
            None => None,
        };
        capped.push(AmountMatch { value: a.value.clone(), unit, raw: a.raw.clone() });
        t += 1;
        proof {
            assert(capped@ =~= out@.subrange(0, t as int));
        }
    }
    proof {
        if out@.len() <= 10 {
            assert(out@.subrange(0, out@.len() as int) =~= out@);
        }
        assert(forall|x: int| 0 <= x < capped@.len() ==> capped@[x] == cap_seq(out@, 10)[x]);
        assert(forall|x: int|
            0 <= x < capped@.len() ==> amount_model(capped@[x]) == cap_seq(full, 10)[x]);
    }
    capped
}

} // verus!
