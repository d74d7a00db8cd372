//! Scanning markdown files for references: link extraction, category
//! inference from file paths, and merging found URLs into the tracked
//! record set.

use vstd::prelude::*;
use crate::text::{
    matches_at, matches_at_exec, contains_seq, contains_pattern, lower_seq, lowercase_chars,
    str_chars, chars_to_string, subrange_chars, cap_seq,
};
use crate::urls::{
    url_scan, url_starts_at, url_starts_at_exec, clean_token, clean_token_exec, scan_url_tokens,
    chars_eq, lemma_deep_view_index,
};

use crate::schema::{Reference, Status, str_eq, str_vec_contains};

verus! {

/// The first position at or after `i` holding `c`, or the end of the text.
pub open spec fn scan_to(s: Seq<char>, i: int, c: char) -> int
    decreases s.len() - i,
{
    if i < 0 {
        0
    } else if i >= s.len() || s[i] == c {
        i
    } else {
        scan_to(s, i + 1, c)
    }
}

pub proof fn lemma_scan_to_bounds(s: Seq<char>, i: int, c: char)
    requires
        0 <= i <= s.len(),
    ensures
        i <= scan_to(s, i, c) <= s.len(),
    decreases s.len() - i,
{
    if i < s.len() && s[i] != c {
        lemma_scan_to_bounds(s, i + 1, c);
    }
}

/// Find the first `c` at or after `i`.
pub fn scan_to_exec(v: &Vec<char>, i: usize, c: char) -> (r: usize)
    requires
        i <= v@.len(),
    ensures
        r == scan_to(v@, i as int, c),
        i <= r <= v@.len(),
{
    let n = v.len();
    let mut j: usize = i;
    while j < n && v[j] != c
        invariant
            n == v@.len(),
            i <= j <= n,
            scan_to(v@, i as int, c) == scan_to(v@, j as int, c),
        decreases n - j,
    {
        j += 1;
    }
    j
}

/// A character that ends the URL part of a markdown link.
pub open spec fn is_md_url_stop(c: char) -> bool {
    crate::text::is_space(c) || c == ')'
}

/// The end of the markdown-link URL that begins at `i`.
pub open spec fn md_url_end(s: Seq<char>, i: int) -> int
    decreases s.len() - i,
{
    if i < 0 {
        0
    } else if i >= s.len() || is_md_url_stop(s[i]) {
        i
    } else {
        md_url_end(s, i + 1)
    }
}

pub proof fn lemma_md_url_end_bounds(s: Seq<char>, i: int)
    requires
        0 <= i <= s.len(),
    ensures
        i <= md_url_end(s, i) <= s.len(),
    decreases s.len() - i,
{
    if i < s.len() && !is_md_url_stop(s[i]) {
        lemma_md_url_end_bounds(s, i + 1);
    }
}

/// Find the markdown-link URL end from `i`.
pub fn md_url_end_exec(v: &Vec<char>, i: usize) -> (r: usize)
    requires
        i <= v@.len(),
    ensures
        r == md_url_end(v@, i as int),
        i <= r <= v@.len(),
{
    let n = v.len();
    let mut j: usize = i;
    while j < n && !(crate::text::is_space_exec(v[j]) || v[j] == ')')
        invariant
            n == v@.len(),
            i <= j <= n,
            md_url_end(v@, i as int) == md_url_end(v@, j as int),
        decreases n - j,
    {
        j += 1;
    }
    j
}

/// A well-formed markdown link `[title](url)` begins at `i`: a non-empty
/// bracketed title, then a parenthesized absolute URL.
pub open spec fn md_link_at(s: Seq<char>, i: int) -> bool {
    0 <= i < s.len() && s[i] == '[' && {
        let j = scan_to(s, i + 1, ']');
        j > i + 1 && j + 1 < s.len() && s[j + 1] == '(' && url_starts_at(s, j + 2) && {
            let e = md_url_end(s, j + 2);
            e < s.len() && s[e] == ')'
        }
    }
}

/// Every markdown link of the text, in order, as `(url, title)` with the
/// URL's trailing punctuation stripped.
pub open spec fn md_scan(s: Seq<char>, i: int) -> Seq<(Seq<char>, Seq<char>)>
    decreases s.len() - i,
{
    if i < 0 || i >= s.len() {
        Seq::empty()
    } else if md_link_at(s, i) {
        let j = scan_to(s, i + 1, ']');
        let e = md_url_end(s, j + 2);
        let next = if i < e + 1 && e + 1 <= s.len() {
            e + 1
        } else {
            i + 1
        };
        seq![(clean_token(s.subrange(j + 2, e)), s.subrange(i + 1, j))] + md_scan(s, next)
    } else {
        md_scan(s, i + 1)
    }
}

/// The bare URLs kept after the markdown links: one per distinct URL that
/// no markdown link already carries.
pub open spec fn bare_kept(mdu: Seq<Seq<char>>, bare: Seq<Seq<char>>) -> Seq<Seq<char>>
    decreases bare.len(),
{
    if bare.len() == 0 {
        Seq::empty()
    } else {
        let k = bare_kept(mdu, bare.drop_last());
        if mdu.contains(bare.last()) || k.contains(bare.last()) {
            k
        } else {
            k + seq![bare.last()]
        }
    }
}

/// A URL found in a file, with the link title when one was written.
pub struct FoundUrl {
    pub url: String,
    pub title: Option<String>,
    pub source_file: String,
}

/// The spec-level image of a `FoundUrl`.
pub open spec fn found_model(f: FoundUrl) -> (Seq<char>, Option<Seq<char>>, Seq<char>) {
    (
        f.url@,
        match f.title {
            Some(t) => Some(t@),
            None => None,
        },
        f.source_file@,
    )
}

/// The URLs of the markdown links, in order.
pub open spec fn md_urls(md: Seq<(Seq<char>, Seq<char>)>) -> Seq<Seq<char>> {
    Seq::new(md.len(), |x: int| md[x].0)
}

/// What `extract_markdown_urls` finds: every markdown link with its title,
/// then every bare URL not already seen.
pub open spec fn found_spec(content: Seq<char>, source: Seq<char>) -> Seq<(
    Seq<char>,
    Option<Seq<char>>,
    Seq<char>,
)> {
    let md = md_scan(content, 0);
    let bare = bare_kept(md_urls(md), url_scan(content, 0));
    Seq::new(md.len(), |x: int| (md[x].0, Some(md[x].1), source)) + Seq::new(
        bare.len(),
        |x: int| (bare[x], Option::<Seq<char>>::None, source),
    )
}

/// Whether a markdown link begins at `i`.
fn md_link_at_exec(v: &Vec<char>, i: usize) -> (b: bool)
    requires
        i < v@.len(),
    ensures
        b == md_link_at(v@, i as int),
{
    let n = v.len();
    if v[i] != '[' {
        return false;
    }
    let j = scan_to_exec(v, i + 1, ']');
    if !(j > i + 1 && n - j > 1 && v[j + 1] == '(') {
        return false;
    }
    if !url_starts_at_exec(v, j + 2) {
        return false;
    }
    let e = md_url_end_exec(v, j + 2);
    e < n && v[e] == ')'
}

/// Extract every URL of a markdown text, in order: markdown links first,
/// each with its title, then bare URLs not already seen, without titles.
pub fn extract_markdown_urls(content: &str, source_file: &str) -> (r: Vec<FoundUrl>)
    ensures
        r@.len() == found_spec(content@, source_file@).len(),
        forall|i: int|
            0 <= i < r@.len() ==> found_model(r@[i]) == found_spec(content@, source_file@)[i],
{
    let v = str_chars(content);
    let n = v.len();
    let ghost md_full = md_scan(v@, 0);
    let mut out: Vec<FoundUrl> = Vec::new();
    let mut murls: Vec<Vec<char>> = Vec::new();
    let mut i: usize = 0;
    while i < n
        invariant
            n == v@.len(),
            i <= n,
            md_full == Seq::new(out@.len(), |x: int| (murls.deep_view()[x], found_model(out@[x]).1->Some_0)) + md_scan(v@, i as int),
            murls@.len() == out@.len(),
            forall|x: int| #![trigger out@[x]]
                0 <= x < out@.len() ==> found_model(out@[x]).0 == murls.deep_view()[x]
                    && found_model(out@[x]).1 is Some && found_model(out@[x]).2 == source_file@,
        decreases n - i,
    {
        let ghost models = Seq::new(out@.len(), |x: int| (murls.deep_view()[x], found_model(out@[x]).1->Some_0));
        if md_link_at_exec(&v, i) {
            let j = scan_to_exec(&v, i + 1, ']');
            let e = md_url_end_exec(&v, j + 2);
            let urlv = clean_token_exec(&subrange_chars(&v, j + 2, e));
            let titlev = subrange_chars(&v, i + 1, j);
            let ghost premu = murls.deep_view();
            let ghost preout = out@;
            let url2 = subrange_chars(&urlv, 0, urlv.len());
            murls.push(url2);
            out.push(
                FoundUrl {
                    url: chars_to_string(&urlv),
                    title: Some(chars_to_string(&titlev)),
                    source_file: source_file.to_owned(),
                },
            );
            proof {
                assert(murls.deep_view() =~~= premu + seq![clean_token(
                    v@.subrange(j + 2, e as int),
                )]);
                lemma_deep_view_index(&murls, murls@.len() - 1);
                assert(found_model(out@[out@.len() - 1]).0 == murls.deep_view()[out@.len() - 1]);
                assert(found_model(out@[out@.len() - 1]).2 == source_file@);
                assert forall|x: int| #![trigger out@[x]]
                    0 <= x < out@.len() implies found_model(out@[x]).0 == murls.deep_view()[x]
                        && found_model(out@[x]).1 is Some && found_model(out@[x]).2
                        == source_file@ by {
                    if x < preout.len() {
                        assert(out@[x] == preout[x]);
                        assert(murls.deep_view()[x] == premu[x]);
                    }
                };
                let m2 = Seq::new(out@.len(), |x: int| (murls.deep_view()[x], found_model(out@[x]).1->Some_0));
                assert(m2 =~= models + seq![
                    (clean_token(v@.subrange(j + 2, e as int)), v@.subrange(i + 1, j as int)),
                ]);
                assert(md_full =~= m2 + md_scan(v@, e + 1));
            }
            i = e + 1;
        } else {
            proof {
                assert(md_scan(v@, i as int) == md_scan(v@, i + 1));
            }
            i += 1;
        }
    }
    proof {
        assert(md_scan(v@, n as int) =~= Seq::<(Seq<char>, Seq<char>)>::empty());
        assert(md_full =~= Seq::new(out@.len(), |x: int| (murls.deep_view()[x], found_model(out@[x]).1->Some_0)));
        assert(md_urls(md_full) =~= murls.deep_view());
        assert(forall|x: int|
            0 <= x < out@.len() ==> found_model(out@[x]) == found_spec(v@, source_file@)[x]);
    }
    let ghost md_count = out@.len();
    let bare = scan_url_tokens(&v);
    let mut kept: Vec<Vec<char>> = Vec::new();
    let mut b: usize = 0;
    while b < bare.len()
        invariant
            b <= bare@.len(),
            kept.deep_view() == bare_kept(murls.deep_view(), bare.deep_view().subrange(0, b as int)),
        decreases bare@.len() - b,
    {
        let ghost pre = bare.deep_view().subrange(0, b as int);
        proof {
            lemma_deep_view_index(&bare, b as int);
        }
        let in_md = token_list_contains_pub(&murls, &bare[b]);
        let in_kept = token_list_contains_pub(&kept, &bare[b]);
        if !in_md && !in_kept {
            let copy = subrange_chars(&bare[b], 0, bare[b].len());
            kept.push(copy);
        }
        b += 1;
        proof {
            let post = bare.deep_view().subrange(0, b as int);
            assert(post.drop_last() =~= pre);
            assert(kept.deep_view() =~~= bare_kept(murls.deep_view(), post));
        }
    }
    proof {
        assert(bare.deep_view().subrange(0, bare@.len() as int) =~= bare.deep_view());
    }
    let ghost fs = found_spec(v@, source_file@);
    proof {
        assert(fs.len() == md_count + kept.deep_view().len());
        assert(forall|x: int| 0 <= x < out@.len() ==> found_model(out@[x]) == fs[x]);
    }
    let mut k: usize = 0;
    while k < kept.len()
        invariant
            k <= kept@.len(),
            out@.len() == md_count + k,
            md_count + kept@.len() == fs.len(),
            fs == found_spec(v@, source_file@),
            kept.deep_view() == bare_kept(md_urls(md_scan(v@, 0)), url_scan(v@, 0)),
            md_count == md_scan(v@, 0).len(),
            forall|x: int| 0 <= x < out@.len() ==> found_model(out@[x]) == fs[x],
        decreases kept@.len() - k,
    {
        proof {
            lemma_deep_view_index(&kept, k as int);
        }
        out.push(
            FoundUrl {
                url: chars_to_string(&kept[k]),
                title: None,
                source_file: source_file.to_owned(),
            },
        );
        k += 1;
        proof {
            assert(found_model(out@[out@.len() - 1]) == fs[out@.len() - 1]);
        }
    }
    out
}

/// Whether `x` occurs among the tokens.
pub fn token_list_contains_pub(out: &Vec<Vec<char>>, x: &Vec<char>) -> (b: bool)
    ensures
        b == out.deep_view().contains(x@),
{
    let mut k: usize = 0;
    while k < out.len()
        invariant
            k <= out@.len(),
            forall|y: int| 0 <= y < k ==> out.deep_view()[y] != x@,
        decreases out@.len() - k,
    {
        proof {
            lemma_deep_view_index(out, k as int);
        }
        if chars_eq(&out[k], x) {
            return true;
        }
        k += 1;
    }
    false
}

/// One conditional category.
pub open spec fn cat_if(b: bool, name: Seq<char>) -> Seq<Seq<char>> {
    if b {
        seq![name]
    } else {
        Seq::empty()
    }
}

/// The categories chosen by the eight path tests, with `general` when
/// none applies.
pub open spec fn cats_of_flags(
    b1: bool,
    b2: bool,
    b3: bool,
    b4: bool,
    b5: bool,
    b6: bool,
    b7: bool,
    b8: bool,
) -> Seq<Seq<char>> {
    let base = cat_if(b1, "documentation"@) + cat_if(b2, "research"@) + cat_if(b3, "architecture"@)
        + cat_if(b4, "api"@) + cat_if(b5, "testing"@) + cat_if(b6, "readme"@) + cat_if(
        b7,
        "changelog"@,
    ) + cat_if(b8, "legal"@);
    if base.len() == 0 {
        seq!["general"@]
    } else {
        base
    }
}

/// The categories inferred from a file path, from its directories and its
/// file name, with `general` when nothing else applies.
pub open spec fn categories_spec(path: Seq<char>) -> Seq<Seq<char>> {
    let l = lower_seq(path);
    cats_of_flags(
        contains_seq(l, "/docs/"@) || contains_seq(l, "/doc/"@) || matches_at(l, "docs/"@, 0),
        contains_seq(l, "/research/"@) || matches_at(l, "research/"@, 0),
        contains_seq(l, "/adr/"@) || matches_at(l, "adr/"@, 0),
        contains_seq(l, "/api/"@) || matches_at(l, "api/"@, 0),
        contains_seq(l, "/test"@) || matches_at(l, "test"@, 0),
        contains_seq(l, "readme"@),
        contains_seq(l, "changelog"@),
        contains_seq(l, "license"@),
    )
}

/// Whether the lowered path starts with the pattern.
fn starts_with_exec(l: &Vec<char>, p: &str) -> (b: bool)
    ensures
        b == matches_at(l@, p@, 0),
{
    let pv = str_chars(p);
    if l.len() >= pv.len() {
        matches_at_exec(l, &pv, 0)
    } else {
        false
    }
}

/// Build the category list from the eight test results.
#[verifier::rlimit(50)]
fn cats_from_flags(
    b1: bool,
    b2: bool,
    b3: bool,
    b4: bool,
    b5: bool,
    b6: bool,
    b7: bool,
    b8: bool,
) -> (r: Vec<String>)
    ensures
        r.deep_view() == cats_of_flags(b1, b2, b3, b4, b5, b6, b7, b8),
{
    let mut out: Vec<String> = Vec::new();
    let ghost g1 = cat_if(b1, "documentation"@);
    let ghost g2 = g1 + cat_if(b2, "research"@);
    let ghost g3 = g2 + cat_if(b3, "architecture"@);
    let ghost g4 = g3 + cat_if(b4, "api"@);
    let ghost g5 = g4 + cat_if(b5, "testing"@);
    let ghost g6 = g5 + cat_if(b6, "readme"@);
    let ghost g7 = g6 + cat_if(b7, "changelog"@);
    let ghost g8 = g7 + cat_if(b8, "legal"@);
    if b1 {
        out.push("documentation".to_owned());
    }
    proof {
        assert(out.deep_view() =~~= g1);
    }
    if b2 {
        out.push("research".to_owned());
    }
    proof {
        assert(out.deep_view() =~~= g2);
    }
    if b3 {
        out.push("architecture".to_owned());
    }
    proof {
        assert(out.deep_view() =~~= g3);
    }
    if b4 {
        out.push("api".to_owned());
    }
    proof {
        assert(out.deep_view() =~~= g4);
    }
    if b5 {
        out.push("testing".to_owned());
    }
    proof {
        assert(out.deep_view() =~~= g5);
    }
    if b6 {
        out.push("readme".to_owned());
    }
    proof {
        assert(out.deep_view() =~~= g6);
    }
    if b7 {
        out.push("changelog".to_owned());
    }
    proof {
        assert(out.deep_view() =~~= g7);
    }
    if b8 {
        out.push("legal".to_owned());
    }
    proof {
        assert(out.deep_view() =~~= g8);
    }
    if out.len() == 0 {
        out.push("general".to_owned());
        proof {
            assert(g8.len() == 0);
            assert(out.deep_view() =~~= cats_of_flags(b1, b2, b3, b4, b5, b6, b7, b8));
        }
    } else {
        proof {
            assert(out.deep_view() =~~= cats_of_flags(b1, b2, b3, b4, b5, b6, b7, b8));
        }
    }
    out
}

/// Infer the categories of a file path.
pub fn infer_categories(path: &str) -> (r: Vec<String>)
    ensures
        r.deep_view() == categories_spec(path@),
{
    let pv = str_chars(path);
    let l = lowercase_chars(&pv);
    let b1 = contains_pattern(&l, "/docs/") || contains_pattern(&l, "/doc/") || starts_with_exec(
        &l,
        "docs/",
    );
    let b2 = contains_pattern(&l, "/research/") || starts_with_exec(&l, "research/");
    let b3 = contains_pattern(&l, "/adr/") || starts_with_exec(&l, "adr/");
    let b4 = contains_pattern(&l, "/api/") || starts_with_exec(&l, "api/");
    let b5 = contains_pattern(&l, "/test") || starts_with_exec(&l, "test");
    let b6 = contains_pattern(&l, "readme");
    let b7 = contains_pattern(&l, "changelog");
    let b8 = contains_pattern(&l, "license");
    cats_from_flags(b1, b2, b3, b4, b5, b6, b7, b8)
}


/// The spec-level image of a tracked reference.
pub struct RefModel {
    pub url: Seq<char>,
    pub title: Seq<char>,
    pub categories: Seq<Seq<char>>,
    pub cited_in: Seq<Seq<char>>,
    pub status: Status,
    pub verified: Option<Seq<char>>,
    pub notes: Option<Seq<char>>,
}

/// The model of one reference.
pub open spec fn reference_model(r: Reference) -> RefModel {
    RefModel {
        url: r.url@,
        title: r.title@,
        categories: r.categories.deep_view(),
        cited_in: r.cited_in.deep_view(),
        status: r.status,
        verified: match r.verified {
            Some(v) => Some(v@),
            None => None,
        },
        notes: match r.notes {
            Some(n) => Some(n@),
            None => None,
        },
    }
}

/// The models of a reference list.
pub open spec fn ref_models(refs: Seq<Reference>) -> Seq<RefModel> {
    Seq::new(refs.len(), |x: int| reference_model(refs[x]))
}

/// The first entry tracking `url`, or `-1`.
pub open spec fn find_url(refs: Seq<RefModel>, url: Seq<char>, i: int) -> int
    decreases refs.len() - i,
{
    if i < 0 || i >= refs.len() {
        -1
    } else if refs[i].url == url {
        i
    } else {
        find_url(refs, url, i + 1)
    }
}

/// A found URL folded into an existing entry: its source file joins the
/// citing files when new, and a link title replaces a placeholder title.
pub open spec fn updated_ref(r: RefModel, f: (Seq<char>, Option<Seq<char>>, Seq<char>)) -> RefModel {
    let cited = if r.cited_in.contains(f.2) {
        r.cited_in
    } else {
        r.cited_in + seq![f.2]
    };
    let title = match f.1 {
        Some(t) => {
            if r.title == r.url && t != r.url {
                t
            } else {
                r.title
            }
        },
        None => r.title,
    };
    RefModel { cited_in: cited, title, ..r }
}

/// The fresh entry a found URL opens: the link title or the URL itself,
/// the categories of its source file, and a pending status.
pub open spec fn new_ref(f: (Seq<char>, Option<Seq<char>>, Seq<char>)) -> RefModel {
    RefModel {
        url: f.0,
        title: match f.1 {
            Some(t) => t,
            None => f.0,
        },
        categories: categories_spec(f.2),
        cited_in: seq![f.2],
        status: Status::Pending,
        verified: None,
        notes: None,
    }
}

/// Fold one found URL into the reference list.
pub open spec fn absorb_found(refs: Seq<RefModel>, f: (Seq<char>, Option<Seq<char>>, Seq<char>)) -> Seq<RefModel> {
    let ix = find_url(refs, f.0, 0);
    if ix >= 0 {
        refs.update(ix, updated_ref(refs[ix], f))
    } else {
        refs + seq![new_ref(f)]
    }
}

/// The reference list built from the first `i` found URLs.
pub open spec fn build_refs_fold(found: Seq<(Seq<char>, Option<Seq<char>>, Seq<char>)>, i: int) -> Seq<RefModel>
    decreases i,
{
    if i <= 0 {
        Seq::empty()
    } else {
        absorb_found(build_refs_fold(found, i - 1), found[i - 1])
    }
}

/// Find the first entry tracking `url`.
fn find_url_exec(refs: &Vec<Reference>, url: &str) -> (r: Option<usize>)
    ensures
        match r {
            Some(ix) => find_url(ref_models(refs@), url@, 0) == ix as int && ix < refs@.len(),
            None => find_url(ref_models(refs@), url@, 0) == -1,
        },
{
    let ghost ms = ref_models(refs@);
    let mut j: usize = 0;
    while j < refs.len()
        invariant
            ms == ref_models(refs@),
            j <= refs@.len(),
            find_url(ms, url@, 0) == find_url(ms, url@, j as int),
        decreases refs@.len() - j,
    {
        if str_eq(refs[j].url.as_str(), url) {
            proof {
                assert(ms[j as int].url == url@);
            }
            return Some(j);
        }
        j += 1;
    }
    None
}

/// Copy a list of texts.
fn clone_strings(v: &Vec<String>) -> (r: Vec<String>)
    ensures
        r.deep_view() == v.deep_view(),
        r@.len() == v@.len(),
{
    let mut out: Vec<String> = Vec::new();
    crate::urls::append_string_vec(&mut out, v);
    proof {
        assert(Seq::<Seq<char>>::empty() + v.deep_view() =~= v.deep_view());
    }
    out
}

/// Fold one found URL into the reference list, in place.
fn absorb_found_exec(refs: &mut Vec<Reference>, f: &FoundUrl)
    ensures
        ref_models(final(refs)@) == absorb_found(ref_models(old(refs)@), found_model(*f)),
{
    let ghost ms = ref_models(refs@);
    match find_url_exec(refs, f.url.as_str()) {
        Some(ix) => {
            let mut elem = refs.remove(ix);
            let ghost em = reference_model(elem);
            if !str_vec_contains(&elem.cited_in, f.source_file.as_str()) {
                elem.cited_in.push(f.source_file.clone());
            }
            match &f.title {
                Some(t) => {
                    if str_eq(elem.title.as_str(), elem.url.as_str()) && !str_eq(
                        t.as_str(),
                        elem.url.as_str(),
                    ) {
                        elem.title = t.clone();
                    }
                },
                None => {},
            }
            proof {
                assert(reference_model(elem).cited_in =~~= updated_ref(em, found_model(*f)).cited_in);
                assert(reference_model(elem) == updated_ref(em, found_model(*f)));
            }
            refs.insert(ix, elem);
            proof {
                assert(ref_models(refs@) =~~= absorb_found(ms, found_model(*f)));
            }
        },
        None => {
            let title: String = match &f.title {
                Some(t) => t.clone(),
                None => f.url.clone(),
            };
            let mut cited: Vec<String> = Vec::new();
            cited.push(f.source_file.clone());
            let entry = Reference {
                url: f.url.clone(),
                title,
                categories: infer_categories(f.source_file.as_str()),
                cited_in: cited,
                status: Status::Pending,
                verified: None,
                notes: None,
            };
            proof {
                assert(reference_model(entry).cited_in =~~= new_ref(found_model(*f)).cited_in);
                assert(reference_model(entry) == new_ref(found_model(*f)));
            }
            refs.push(entry);
            proof {
                assert(ref_models(refs@) =~~= absorb_found(ms, found_model(*f)));
            }
        },
    }
}

/// Build a reference list from the URLs found in scanned files: one entry
/// per distinct URL, citing files gathered, first link title kept, later
/// titles replacing a placeholder.
pub fn build_references(found: &Vec<FoundUrl>) -> (r: Vec<Reference>)
    ensures
        ref_models(r@) == build_refs_fold(
            Seq::new(found@.len(), |x: int| found_model(found@[x])),
            found@.len() as int,
        ),
{
    let ghost fs = Seq::new(found@.len(), |x: int| found_model(found@[x]));
    let mut refs: Vec<Reference> = Vec::new();
    let mut i: usize = 0;
    proof {
        assert(ref_models(refs@) =~= build_refs_fold(fs, 0));
    }
    while i < found.len()
        invariant
            fs == Seq::new(found@.len(), |x: int| found_model(found@[x])),
            i <= found@.len(),
            ref_models(refs@) == build_refs_fold(fs, i as int),
        decreases found@.len() - i,
    {
        absorb_found_exec(&mut refs, &found[i]);
        i += 1;
        proof {
            assert(fs[i - 1] == found_model(found@[i - 1]));
            assert(ref_models(refs@) == build_refs_fold(fs, i as int));
        }
    }
    refs
}

/// Fold one incoming entry into an existing list: citing files merge one
/// by one, a placeholder title is replaced, and an unknown URL joins as a
/// new entry.  The counts mark a new entry and an existing entry that
/// gained citations.
pub open spec fn merge_one(refs: Seq<RefModel>, inc: RefModel) -> (Seq<RefModel>, int, int) {
    let ix = find_url(refs, inc.url, 0);
    if ix >= 0 {
        let merged = merge_cited(refs[ix], inc.cited_in, inc.cited_in.len() as int);
        let r2 = RefModel {
            title: if refs[ix].title == refs[ix].url && inc.title != inc.url {
                inc.title
            } else {
                refs[ix].title
            },
            ..merged.0
        };
        (
            refs.update(ix, r2),
            0,
            if merged.1 > 0 {
                1int
            } else {
                0int
            },
        )
    } else {
        (refs + seq![inc], 1, 0)
    }
}

/// The first `i` citing files of `cited` folded into the entry, counting
/// the ones that were new.
pub open spec fn merge_cited(r: RefModel, cited: Seq<Seq<char>>, i: int) -> (RefModel, int)
    decreases i,
{
    if i <= 0 {
        (r, 0)
    } else {
        let prev = merge_cited(r, cited, i - 1);
        if prev.0.cited_in.contains(cited[i - 1]) {
            prev
        } else {
            (RefModel { cited_in: prev.0.cited_in + seq![cited[i - 1]], ..prev.0 }, prev.1 + 1)
        }
    }
}

/// The first `i` incoming entries merged into the list, with the counts
/// of new entries and of existing entries that gained citations.
pub open spec fn merge_fold(refs: Seq<RefModel>, inc: Seq<RefModel>, i: int) -> (
    Seq<RefModel>,
    int,
    int,
)
    decreases i,
{
    if i <= 0 {
        (refs, 0, 0)
    } else {
        let prev = merge_fold(refs, inc, i - 1);
        let step = merge_one(prev.0, inc[i - 1]);
        (step.0, prev.1 + step.1, prev.2 + step.2)
    }
}

proof fn lemma_merge_cited_keeps(r: RefModel, cited: Seq<Seq<char>>, i: int)
    ensures
        merge_cited(r, cited, i).0.title == r.title,
        merge_cited(r, cited, i).0.url == r.url,
        merge_cited(r, cited, i).0.categories == r.categories,
        merge_cited(r, cited, i).0.status == r.status,
        merge_cited(r, cited, i).0.verified == r.verified,
        merge_cited(r, cited, i).0.notes == r.notes,
    decreases i,
{
    if i > 0 {
        lemma_merge_cited_keeps(r, cited, i - 1);
    }
}

proof fn lemma_merge_fold_bounds(refs: Seq<RefModel>, inc: Seq<RefModel>, i: int)
    requires
        i >= 0,
    ensures
        0 <= merge_fold(refs, inc, i).1 <= i,
        0 <= merge_fold(refs, inc, i).2 <= i,
    decreases i,
{
    if i > 0 {
        lemma_merge_fold_bounds(refs, inc, i - 1);
    }
}

/// Merge incoming references into an existing list.  Returns how many
/// entries were new and how many existing entries gained citations.
pub fn merge_references(refs: &mut Vec<Reference>, incoming: &Vec<Reference>) -> (counts: (
    usize,
    usize,
))
    ensures
        ref_models(final(refs)@) == merge_fold(
            ref_models(old(refs)@),
            ref_models(incoming@),
            incoming@.len() as int,
        ).0,
        counts.0 == merge_fold(
            ref_models(old(refs)@),
            ref_models(incoming@),
            incoming@.len() as int,
        ).1,
        counts.1 == merge_fold(
            ref_models(old(refs)@),
            ref_models(incoming@),
            incoming@.len() as int,
        ).2,
{
    let ghost ms0 = ref_models(refs@);
    let ghost inc = ref_models(incoming@);
    let mut new_count: usize = 0;
    let mut updated_count: usize = 0;
    let mut i: usize = 0;
    while i < incoming.len()
        invariant
            inc == ref_models(incoming@),
            ms0 == ref_models(old(refs)@),
            i <= incoming@.len(),
            ref_models(refs@) == merge_fold(ms0, inc, i as int).0,
            new_count == merge_fold(ms0, inc, i as int).1,
            updated_count == merge_fold(ms0, inc, i as int).2,
            new_count <= i,
            updated_count <= i,
        decreases incoming@.len() - i,
    {
        let ghost pre = merge_fold(ms0, inc, i as int).0;
        let r = &incoming[i];
        proof {
            assert(inc[i as int] == reference_model(incoming@[i as int]));
        }
        match find_url_exec(refs, r.url.as_str()) {
            Some(ix) => {
                let mut elem = refs.remove(ix);
                let ghost em = reference_model(elem);
                let mut pushed: usize = 0;
                let mut c: usize = 0;
                while c < r.cited_in.len()
                    invariant
                        c <= r.cited_in@.len(),
                        reference_model(elem) == merge_cited(
                            em,
                            reference_model(*r).cited_in,
                            c as int,
                        ).0,
                        pushed == merge_cited(em, reference_model(*r).cited_in, c as int).1,
                        pushed <= c,
                    decreases r.cited_in@.len() - c,
                {
                    let ghost prevc = merge_cited(em, reference_model(*r).cited_in, c as int);
                    proof {
                        crate::urls::lemma_deep_view_index_str(&r.cited_in, c as int);
                    }
                    if !str_vec_contains(&elem.cited_in, r.cited_in[c].as_str()) {
                        elem.cited_in.push(r.cited_in[c].clone());
                        pushed += 1;
                        proof {
                            assert(reference_model(elem).cited_in =~~= prevc.0.cited_in + seq![
                                reference_model(*r).cited_in[c as int],
                            ]);
                            assert(reference_model(elem) == merge_cited(
                                em,
                                reference_model(*r).cited_in,
                                c + 1,
                            ).0);
                        }
                    } else {
                        proof {
                            assert(reference_model(elem) == merge_cited(
                                em,
                                reference_model(*r).cited_in,
                                c + 1,
                            ).0);
                        }
                    }
                    c += 1;
                }
                proof {
                    assert(r.cited_in.deep_view().subrange(
                        0,
                        r.cited_in@.len() as int,
                    ) =~= r.cited_in.deep_view());
                    lemma_merge_cited_keeps(
                        em,
                        reference_model(*r).cited_in,
                        r.cited_in@.len() as int,
                    );
                }
                if str_eq(elem.title.as_str(), elem.url.as_str()) && !str_eq(
                    r.title.as_str(),
                    r.url.as_str(),
                ) {
                    elem.title = r.title.clone();
                }
                proof {
                    assert(em == pre[ix as int]);
                    let merged = merge_cited(
                        pre[ix as int],
                        inc[i as int].cited_in,
                        inc[i as int].cited_in.len() as int,
                    );
                    assert(reference_model(elem) == (RefModel {
                        title: if pre[ix as int].title == pre[ix as int].url && inc[i as int].title
                            != inc[i as int].url {
                            inc[i as int].title
                        } else {
                            pre[ix as int].title
                        },
                        ..merged.0
                    }));
                }
                refs.insert(ix, elem);
                if pushed > 0 {
                    updated_count += 1;
                }
                proof {
                    assert(ref_models(refs@) =~~= merge_one(pre, inc[i as int]).0);
                }
            },
            None => {
                let entry = Reference {
                    url: r.url.clone(),
                    title: r.title.clone(),
                    categories: clone_strings(&r.categories),
                    cited_in: clone_strings(&r.cited_in),
                    status: r.status,
                    verified: match &r.verified {
                        Some(v) => Some(v.clone()),
                        None => None,
                    },
                    notes: match &r.notes {
                        Some(n) => Some(n.clone()),
                        None => None,
                    },
                };
                proof {
                    assert(reference_model(entry) == inc[i as int]);
                }
                refs.push(entry);
                new_count += 1;
                proof {
                    assert(ref_models(refs@) =~~= merge_one(pre, inc[i as int]).0);
                }
            },
        }
        i += 1;
        proof {
            assert(ref_models(refs@) == merge_fold(ms0, inc, i as int).0);
        }
    }
    (new_count, updated_count)
}

} // verus!


