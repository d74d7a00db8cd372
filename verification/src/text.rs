//! Character-level text utilities shared by the extraction pipeline.
//!
//! All budgets here count characters, never bytes, so a cut can never split
//! a multi-byte encoding unit.

use vstd::prelude::*;

verus! {

/// ASCII whitespace recognized when trimming and splitting text.
pub open spec fn is_space(c: char) -> bool {
    c == ' ' || c == '\t' || c == '\r' || c == '\n'
}

/// ASCII upper-case letters are folded to lower case; everything else is kept.
pub open spec fn to_lower_char(c: char) -> char {
    if 'A' <= c && c <= 'Z' {
        ((c as int) + 32) as char
    } else {
        c
    }
}

/// Character-wise ASCII lower-casing of a text.
pub open spec fn lower_seq(s: Seq<char>) -> Seq<char> {
    s.map(|_i: int, c: char| to_lower_char(c))
}

/// `needle` occurs in `hay` starting at position `i`.
pub open spec fn matches_at(hay: Seq<char>, needle: Seq<char>, i: int) -> bool {
    0 <= i && i + needle.len() <= hay.len() && hay.subrange(i, i + needle.len()) == needle
}

/// `needle` occurs somewhere in `hay`.
pub open spec fn contains_seq(hay: Seq<char>, needle: Seq<char>) -> bool {
    exists|i: int| matches_at(hay, needle, i)
}

/// What `truncate` returns: the input itself when it fits the budget,
/// otherwise the first `max - 3` characters with an ellipsis appended.
pub open spec fn truncate_spec(s: Seq<char>, max: int) -> Seq<char> {
    if s.len() <= max {
        s
    } else {
        s.subrange(0, max - 3) + seq!['.', '.', '.']
    }
}

/// The first `n` items of a list, or the whole list when it is shorter.
pub open spec fn cap_seq<T>(s: Seq<T>, n: int) -> Seq<T> {
    if s.len() <= n {
        s
    } else {
        s.subrange(0, n)
    }
}

/// The characters of `s`, one vector element per character.
pub fn str_chars(s: &str) -> (v: Vec<char>)
    ensures
        v@ == s@,
{
    let n = s.unicode_len();
    let mut v: Vec<char> = Vec::new();
    let mut i: usize = 0;
    while i < n
        invariant
            n == s@.len(),
            i <= n,
            v@ == s@.subrange(0, i as int),
        decreases n - i,
    {
        v.push(s.get_char(i));
        i += 1;
        proof {
            assert(v@ =~= s@.subrange(0, i as int));
        }
    }
    proof {
        assert(v@ =~= s@);
    }
    v
}

/// Relies on `String: FromIterator<char>`: collecting characters yields the
/// string holding exactly those characters in order.
#[verifier::external_body]
pub(crate) fn chars_to_string(v: &Vec<char>) -> (r: String)
    ensures
        r@ == v@,
{
    v.iter().collect()
}

/// Exec mirror of `to_lower_char`.
pub fn lower_char(c: char) -> (r: char)
    ensures
        r == to_lower_char(c),
{
    if 'A' <= c && c <= 'Z' {
        (((c as u8) + 32) as char)
    } else {
        c
    }
}

/// ASCII lower-casing of a whole text.
pub fn lowercase_chars(v: &Vec<char>) -> (r: Vec<char>)
    ensures
        r@ == lower_seq(v@),
{
    let mut r: Vec<char> = Vec::new();
    let mut i: usize = 0;
    while i < v.len()
        invariant
            i <= v@.len(),
            r@ == lower_seq(v@.subrange(0, i as int)),
        decreases v@.len() - i,
    {
        r.push(lower_char(v[i]));
        i += 1;
        proof {
            assert(r@ =~= lower_seq(v@.subrange(0, i as int)));
        }
    }
    proof {
        assert(v@.subrange(0, v@.len() as int) =~= v@);
    }
    r
}

/// `needle` occurs in `hay` starting exactly at `i`.
pub fn matches_at_exec(hay: &Vec<char>, needle: &Vec<char>, i: usize) -> (b: bool)
    requires
        i + needle@.len() <= hay@.len(),
    ensures
        b == matches_at(hay@, needle@, i as int),
{
    let hlen = hay.len();
    let mut j: usize = 0;
    while j < needle.len()
        invariant
            hlen == hay@.len(),
            i + needle@.len() <= hlen,
            j <= needle@.len(),
            forall|k: int| 0 <= k < j ==> hay@[i + k] == needle@[k],
        decreases needle@.len() - j,
    {
        if hay[i + j] != needle[j] {
            proof {
                assert(hay@.subrange(i as int, i + needle@.len()) != needle@) by {
                    assert(hay@.subrange(i as int, i + needle@.len())[j as int] != needle@[j as int]);
                }
            }
            return false;
        }
        j += 1;
    }
    proof {
        assert(hay@.subrange(i as int, i + needle@.len()) =~= needle@);
    }
    true
}

/// The first position where `needle` occurs in `hay`, if any.
pub fn find_sub(hay: &Vec<char>, needle: &Vec<char>) -> (r: Option<usize>)
    ensures
        match r {
            Some(i) => matches_at(hay@, needle@, i as int) && forall|j: int|
                0 <= j < i ==> !matches_at(hay@, needle@, j),
            None => !contains_seq(hay@, needle@),
        },
{
    if needle.len() > hay.len() {
        return None;
    }
    if needle.len() == 0 {
        proof {
            assert(hay@.subrange(0, 0) =~= needle@);
        }
        return Some(0);
    }
    let hlen = hay.len();
    let last = hlen - needle.len();
    let mut i: usize = 0;
    while i <= last
        invariant
            hlen == hay@.len(),
            1 <= needle@.len() <= hay@.len(),
            last == hay@.len() - needle@.len(),
            i <= last + 1,
            forall|j: int| 0 <= j < i ==> !matches_at(hay@, needle@, j),
        decreases last + 1 - i,
    {
        if matches_at_exec(hay, needle, i) {
            return Some(i);
        }
        i += 1;
    }
    proof {
        assert(forall|j: int| matches_at(hay@, needle@, j) ==> 0 <= j <= last);
    }
    None
}

/// Whether the text contains the given pattern.
pub fn contains_pattern(hay: &Vec<char>, needle: &str) -> (b: bool)
    ensures
        b == contains_seq(hay@, needle@),
{
    let nv = str_chars(needle);
    find_sub(hay, &nv).is_some()
}

/// Shorten `s` to at most `max` characters, appending `...` when a cut
/// was made.
pub fn truncate(s: &str, max: usize) -> (r: String)
    requires
        max >= 3,
    ensures
        r@ == truncate_spec(s@, max as int),
        r@.len() <= max,
{
    let n = s.unicode_len();
    if n <= max {
        s.to_owned()
    } else {
        let prefix = s.substring_char(0, max - 3);
        let r = prefix.to_owned().concat("...");
        proof {
            reveal_strlit("...");
            assert(r@ =~= truncate_spec(s@, max as int));
        }
        r
    }
}

/// `truncate`, on a character vector.
pub fn truncate_chars(v: &Vec<char>, max: usize) -> (r: Vec<char>)
    requires
        max >= 3,
    ensures
        r@ == truncate_spec(v@, max as int),
        r@.len() <= max,
{
    if v.len() <= max {
        let mut r: Vec<char> = Vec::new();
        let mut i: usize = 0;
        while i < v.len()
            invariant
                i <= v@.len(),
                r@ == v@.subrange(0, i as int),
            decreases v@.len() - i,
        {
            r.push(v[i]);
            i += 1;
            proof {
                assert(r@ =~= v@.subrange(0, i as int));
            }
        }
        proof {
            assert(r@ =~= v@);
        }
        r
    } else {
        let cut = max - 3;
        let mut r: Vec<char> = Vec::new();
        let mut i: usize = 0;
        while i < cut
            invariant
                cut <= v@.len(),
                i <= cut,
                r@ == v@.subrange(0, i as int),
            decreases cut - i,
        {
            r.push(v[i]);
            i += 1;
            proof {
                assert(r@ =~= v@.subrange(0, i as int));
            }
        }
        r.push('.');
        r.push('.');
        r.push('.');
        proof {
            assert(r@ =~= truncate_spec(v@, max as int));
        }
        r
    }
}

/// The lines of a text, split at every newline character.  An empty text is
/// one empty line; a trailing newline opens a final empty line.
pub open spec fn split_lines_spec(s: Seq<char>) -> Seq<Seq<char>>
    decreases s.len(),
{
    if s.len() == 0 {
        seq![Seq::<char>::empty()]
    } else {
        let init = split_lines_spec(s.drop_last());
        if s.last() == '\n' {
            init + seq![Seq::<char>::empty()]
        } else {
            init.update(init.len() - 1, init.last() + seq![s.last()])
        }
    }
}

pub proof fn lemma_split_lines_nonempty(s: Seq<char>)
    ensures
        split_lines_spec(s).len() >= 1,
    decreases s.len(),
{
    if s.len() > 0 {
        lemma_split_lines_nonempty(s.drop_last());
    }
}

/// Split a text into its lines.
pub fn split_lines(v: &Vec<char>) -> (r: Vec<Vec<char>>)
    ensures
        r@.len() == split_lines_spec(v@).len(),
        forall|i: int| 0 <= i < r@.len() ==> r@[i]@ == split_lines_spec(v@)[i],
{
    let mut done: Vec<Vec<char>> = Vec::new();
    let mut cur: Vec<char> = Vec::new();
    let mut i: usize = 0;
    while i < v.len()
        invariant
            i <= v@.len(),
            done@.len() + 1 == split_lines_spec(v@.subrange(0, i as int)).len(),
            forall|k: int| 0 <= k < done@.len() ==> done@[k]@ == split_lines_spec(
                v@.subrange(0, i as int),
            )[k],
            cur@ == split_lines_spec(v@.subrange(0, i as int)).last(),
        decreases v@.len() - i,
    {
        let ghost prefix = v@.subrange(0, i as int);
        let c = v[i];
        i += 1;
        let ghost prefix2 = v@.subrange(0, i as int);
        proof {
            assert(prefix2.drop_last() =~= prefix);
            lemma_split_lines_nonempty(prefix);
        }
        if c == '\n' {
            done.push(cur);
            cur = Vec::new();
        } else {
            cur.push(c);
        }
        proof {
            assert(cur@ =~= split_lines_spec(prefix2).last());
        }
    }
    proof {
        assert(v@.subrange(0, v@.len() as int) =~= v@);
        lemma_split_lines_nonempty(v@);
    }
    done.push(cur);
    done
}

/// Leading whitespace removed.
pub open spec fn trim_start_spec(s: Seq<char>) -> Seq<char>
    decreases s.len(),
{
    if s.len() > 0 && is_space(s[0]) {
        trim_start_spec(s.drop_first())
    } else {
        s
    }
}

/// Trailing whitespace removed.
pub open spec fn trim_end_spec(s: Seq<char>) -> Seq<char>
    decreases s.len(),
{
    if s.len() > 0 && is_space(s.last()) {
        trim_end_spec(s.drop_last())
    } else {
        s
    }
}

/// Whitespace removed from both ends.
pub open spec fn trim_spec(s: Seq<char>) -> Seq<char> {
    trim_end_spec(trim_start_spec(s))
}

proof fn lemma_trim_start_bounds(s: Seq<char>, k: int)
    requires
        0 <= k <= s.len(),
        forall|j: int| 0 <= j < k ==> is_space(s[j]),
        k == s.len() || !is_space(s[k]),
    ensures
        trim_start_spec(s) == s.subrange(k, s.len() as int),
    decreases k,
{
    if k == 0 {
        assert(s.subrange(0, s.len() as int) =~= s);
        if s.len() > 0 {
            assert(!is_space(s[0]));
        }
    } else {
        assert(is_space(s[0]));
        let t = s.drop_first();
        assert(forall|j: int| 0 <= j < k - 1 ==> is_space(#[trigger] t[j]));
        lemma_trim_start_bounds(t, k - 1);
        assert(t.subrange(k - 1, t.len() as int) =~= s.subrange(k, s.len() as int));
    }
}

proof fn lemma_trim_end_bounds(s: Seq<char>, k: int)
    requires
        0 <= k <= s.len(),
        forall|j: int| k <= j < s.len() ==> is_space(s[j]),
        k == 0 || !is_space(s[k - 1]),
    ensures
        trim_end_spec(s) == s.subrange(0, k),
    decreases s.len() - k,
{
    if k == s.len() {
        assert(s.subrange(0, s.len() as int) =~= s);
        if s.len() > 0 {
            assert(!is_space(s.last()));
        }
    } else {
        assert(is_space(s.last()));
        let t = s.drop_last();
        lemma_trim_end_bounds(t, k);
        assert(t.subrange(0, k) =~= s.subrange(0, k));
    }
}

/// Both ends of `v` stripped of whitespace.
pub fn trim_chars(v: &Vec<char>) -> (r: Vec<char>)
    ensures
        r@ == trim_spec(v@),
{
    let n = v.len();
    let mut a: usize = 0;
    while a < n && is_space_exec(v[a])
        invariant
            n == v@.len(),
            a <= n,
            forall|j: int| 0 <= j < a ==> is_space(v@[j]),
        decreases n - a,
    {
        a += 1;
    }
    proof {
        lemma_trim_start_bounds(v@, a as int);
    }
    let ghost mid = v@.subrange(a as int, n as int);
    let mut b: usize = n;
    while b > a && is_space_exec(v[b - 1])
        invariant
            n == v@.len(),
            a <= b <= n,
            forall|j: int| b <= j < n ==> is_space(v@[j]),
        decreases b,
    {
        b -= 1;
    }
    proof {
        assert(forall|j: int| b - a <= j < mid.len() ==> is_space(#[trigger] mid[j]));
        lemma_trim_end_bounds(mid, b - a);
    }
    let mut r: Vec<char> = Vec::new();
    let mut i: usize = a;
    while i < b
        invariant
            a <= i <= b <= n,
            n == v@.len(),
            r@ == v@.subrange(a as int, i as int),
        decreases b - i,
    {
        r.push(v[i]);
        i += 1;
        proof {
            assert(r@ =~= v@.subrange(a as int, i as int));
        }
    }
    proof {
        assert(mid.subrange(0, b - a) =~= v@.subrange(a as int, b as int));
    }
    r
}

/// Exec mirror of `is_space`.
pub fn is_space_exec(c: char) -> (b: bool)
    ensures
        b == is_space(c),
{
    c == ' ' || c == '\t' || c == '\r' || c == '\n'
}

/// A copy of the range `[from, to)` of `v`.
pub fn subrange_chars(v: &Vec<char>, from: usize, to: usize) -> (r: Vec<char>)
    requires
        from <= to <= v@.len(),
    ensures
        r@ == v@.subrange(from as int, to as int),
{
    let mut r: Vec<char> = Vec::new();
    let mut i: usize = from;
    while i < to
        invariant
            from <= i <= to <= v@.len(),
            r@ == v@.subrange(from as int, i as int),
        decreases to - i,
    {
        r.push(v[i]);
        i += 1;
        proof {
            assert(r@ =~= v@.subrange(from as int, i as int));
        }
    }
    r
}


/// The rightmost space strictly before `i` and at or after `lo`, or `-1`
/// when there is none.
pub open spec fn last_space_before(s: Seq<char>, lo: int, i: int) -> int
    decreases i - lo + 1,
{
    if i <= lo || i > s.len() || lo < 0 {
        -1
    } else if s[i - 1] == ' ' {
        i - 1
    } else {
        last_space_before(s, lo, i - 1)
    }
}

/// Truncation that prefers a space near the cut: when `s` exceeds the
/// budget it is cut at the nearest space within fifty characters before
/// the cut point, or at the cut point itself, and the ellipsis appended.
pub open spec fn truncate_space_spec(s: Seq<char>, max: int) -> Seq<char> {
    if s.len() <= max {
        s
    } else {
        let cut = max - 3;
        let lo = if cut >= 50 {
            cut - 50
        } else {
            0
        };
        let sp = last_space_before(s, lo, cut);
        let c2 = if sp >= 0 {
            sp
        } else {
            cut
        };
        s.subrange(0, c2) + seq!['.', '.', '.']
    }
}

/// `truncate_space_spec`, executed on a character vector.
pub fn truncate_space_chars(v: &Vec<char>, max: usize) -> (r: Vec<char>)
    requires
        max >= 3,
    ensures
        r@ == truncate_space_spec(v@, max as int),
{
    let n = v.len();
    if n <= max {
        return subrange_chars(v, 0, n);
    }
    let cut = max - 3;
    let lo: usize = if cut >= 50 {
        cut - 50
    } else {
        0
    };
    let mut j: usize = cut;
    let mut found: bool = false;
    while j > lo && !found
        invariant
            lo <= j <= cut,
            cut < n == v@.len(),
            !found ==> last_space_before(v@, lo as int, cut as int) == last_space_before(
                v@,
                lo as int,
                j as int,
            ),
            found ==> j < cut && last_space_before(v@, lo as int, cut as int) == j,
        decreases j,
    {
        if v[j - 1] == ' ' {
            j -= 1;
            found = true;
        } else {
            j -= 1;
        }
    }
    let c2: usize = if found {
        j
    } else {
        cut
    };
    proof {
        if !found {
            assert(last_space_before(v@, lo as int, lo as int) == -1);
        }
    }
    let mut r = subrange_chars(v, 0, c2);
    r.push('.');
    r.push('.');
    r.push('.');
    proof {
        assert(r@ =~= truncate_space_spec(v@, max as int));
    }
    r
}

/// Append the characters of `src` to `dst`.
pub fn append_chars(dst: &mut Vec<char>, src: &Vec<char>)
    ensures
        final(dst)@ == old(dst)@ + src@,
{
    let mut i: usize = 0;
    while i < src.len()
        invariant
            i <= src@.len(),
            dst@ == old(dst)@ + src@.subrange(0, i as int),
        decreases src@.len() - i,
    {
        dst.push(src[i]);
        i += 1;
        proof {
            assert(dst@ =~= old(dst)@ + src@.subrange(0, i as int));
        }
    }
    proof {
        assert(old(dst)@ + src@.subrange(0, src@.len() as int) =~= old(dst)@ + src@);
    }
}

/// Append the characters of a literal to `dst`.
pub fn append_str_chars(dst: &mut Vec<char>, s: &str)
    ensures
        final(dst)@ == old(dst)@ + s@,
{
    let sv = str_chars(s);
    append_chars(dst, &sv);
}


pub proof fn lemma_last_space_before_bounds(s: Seq<char>, lo: int, i: int)
    ensures
        last_space_before(s, lo, i) == -1 || (lo <= last_space_before(s, lo, i) < i),
    decreases i - lo + 1,
{
    if !(i <= lo || i > s.len() || lo < 0) && s[i - 1] != ' ' {
        lemma_last_space_before_bounds(s, lo, i - 1);
    }
}

/// A space-preferring truncation never exceeds its budget.
pub proof fn lemma_truncate_space_len(s: Seq<char>, max: int)
    requires
        max >= 3,
    ensures
        truncate_space_spec(s, max).len() <= max,
{
    if s.len() > max {
        let cut = max - 3;
        let lo = if cut >= 50 {
            cut - 50
        } else {
            0
        };
        lemma_last_space_before_bounds(s, lo, cut);
    }
}

/// A plain truncation never exceeds its budget.
pub proof fn lemma_truncate_len(s: Seq<char>, max: int)
    requires
        max >= 3,
    ensures
        truncate_spec(s, max).len() <= max,
{
}

} // verus!


