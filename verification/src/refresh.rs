//! Live-data extraction from fetched pages: titles from raw tag text,
//! follower counts, and the amount/percentage report per URL.

use vstd::prelude::*;
use crate::text::{
    matches_at, matches_at_exec, contains_seq, contains_pattern, trim_spec, trim_chars, str_chars,
    chars_to_string, subrange_chars,
};
use crate::scan::{scan_to, scan_to_exec};
use crate::extract::{
    AmountMatch, amount_model, amount_scan, pct_scan, extract_amounts, extract_percentages,
    num_end, num_end_exec, space_end, space_end_exec, is_numch, is_numch_exec,
};
use crate::text::cap_seq;

verus! {

/// The trimmed text of the first well-formed `open …>text<close` group at
/// `i`: the tag is opened at `i`, runs to the next `>`, and its non-empty
/// text runs to a `<` that begins the closing tag.
pub open spec fn tag_text_at(s: Seq<char>, i: int, open: Seq<char>, close: Seq<char>) -> Option<
    Seq<char>,
> {
    if matches_at(s, open, i) {
        let g = scan_to(s, i + open.len(), '>');
        let ce = scan_to(s, g + 1, '<');
        if g < s.len() && ce > g + 1 && matches_at(s, close, ce) {
            Some(trim_spec(s.subrange(g + 1, ce)))
        } else {
            None
        }
    } else {
        None
    }
}

/// The first position at or after `i` where a tag group yields text.
pub open spec fn first_tag_text(s: Seq<char>, i: int, open: Seq<char>, close: Seq<char>) -> Option<
    Seq<char>,
>
    decreases s.len() - i,
{
    if i < 0 || i >= s.len() {
        None
    } else {
        match tag_text_at(s, i, open, close) {
            Some(t) => Some(t),
            None => first_tag_text(s, i + 1, open, close),
        }
    }
}

/// Scan for the first tag group and return its trimmed text.
fn find_tag_text(v: &Vec<char>, open: &Vec<char>, close: &Vec<char>) -> (r: Option<Vec<char>>)
    ensures
        match r {
            Some(t) => first_tag_text(v@, 0, open@, close@) == Some(t@),
            None => first_tag_text(v@, 0, open@, close@) is None,
        },
{
    let n = v.len();
    let mut i: usize = 0;
    while i < n
        invariant
            n == v@.len(),
            i <= n,
            first_tag_text(v@, 0, open@, close@) == first_tag_text(v@, i as int, open@, close@),
        decreases n - i,
    {
        if n - i >= open.len() && matches_at_exec(v, open, i) {
            let g = scan_to_exec(v, i + open.len(), '>');
            if g < n {
                let ce = scan_to_exec(v, g + 1, '<');
                if ce > g + 1 && n - ce >= close.len() && matches_at_exec(v, close, ce) {
                    let cap = subrange_chars(v, g + 1, ce);
                    let t = trim_chars(&cap);
                    proof {
                        assert(tag_text_at(v@, i as int, open@, close@) == Some(t@));
                    }
                    return Some(t);
                }
            }
            proof {
                assert(tag_text_at(v@, i as int, open@, close@) is None);
            }
        }
        i += 1;
    }
    None
}

/// What `extract_title` yields: the first level-one heading's text, or
/// else the document title's text.
pub open spec fn title_spec(content: Seq<char>) -> Option<Seq<char>> {
    match first_tag_text(content, 0, "<h1"@, "</h1>"@) {
        Some(t) => Some(t),
        None => first_tag_text(content, 0, "<title"@, "</title>"@),
    }
}

/// Extract a page title from raw HTML text: a top heading first, the
/// document title as fallback.
pub fn extract_title(content: &str) -> (r: Option<String>)
    ensures
        match r {
            Some(t) => title_spec(content@) == Some(t@),
            None => title_spec(content@) is None,
        },
{
    let v = str_chars(content);
    let h1_open = str_chars("<h1");
    let h1_close = str_chars("</h1>");
    match find_tag_text(&v, &h1_open, &h1_close) {
        Some(t) => Some(chars_to_string(&t)),
        None => {
            let t_open = str_chars("<title");
            let t_close = str_chars("</title>");
            match find_tag_text(&v, &t_open, &t_close) {
                Some(t) => Some(chars_to_string(&t)),
                None => None,
            }
        },
    }
}

/// A follower figure begins at `i`: a number run, an optional `K`/`M`/`B`
/// mark, whitespace, and the word `Followers` or `followers`.
pub open spec fn followers_at(s: Seq<char>, i: int) -> bool {
    0 <= i < s.len() && is_numch(s[i]) && (i == 0 || !is_numch(s[i - 1])) && {
        let j = num_end(s, i);
        let j2 = if j < s.len() && (s[j] == 'K' || s[j] == 'M' || s[j] == 'B') {
            j + 1
        } else {
            j
        };
        let k = space_end(s, j2);
        matches_at(s, "Followers"@, k) || matches_at(s, "followers"@, k)
    }
}

/// The figure the first follower mention carries.
pub open spec fn followers_spec(s: Seq<char>, i: int) -> Option<Seq<char>>
    decreases s.len() - i,
{
    if i < 0 || i >= s.len() {
        None
    } else if followers_at(s, i) {
        let j = num_end(s, i);
        let j2 = if j < s.len() && (s[j] == 'K' || s[j] == 'M' || s[j] == 'B') {
            j + 1
        } else {
            j
        };
        Some(s.subrange(i, j2))
    } else {
        followers_spec(s, i + 1)
    }
}

/// Find the first follower figure of the text.
pub fn extract_followers(content: &str) -> (r: Option<String>)
    ensures
        match r {
            Some(t) => followers_spec(content@, 0) == Some(t@),
            None => followers_spec(content@, 0) is None,
        },
{
    let v = str_chars(content);
    let n = v.len();
    let fup = str_chars("Followers");
    let flo = str_chars("followers");
    let mut i: usize = 0;
    while i < n
        invariant
            v@ == content@,
            n == v@.len(),
            i <= n,
            fup@ == "Followers"@,
            flo@ == "followers"@,
            followers_spec(v@, 0) == followers_spec(v@, i as int),
        decreases n - i,
    {
        let here = is_numch_exec(v[i]) && (i == 0 || !is_numch_exec(v[i - 1]));
        if here {
            let j = num_end_exec(&v, i);
            let j2 = if j < n && (v[j] == 'K' || v[j] == 'M' || v[j] == 'B') {
                j + 1
            } else {
                j
            };
            let k = space_end_exec(&v, j2);
            let m1 = if n - k >= fup.len() {
                matches_at_exec(&v, &fup, k)
            } else {
                false
            };
            let m2 = if n - k >= flo.len() {
                matches_at_exec(&v, &flo, k)
            } else {
                false
            };
            if m1 || m2 {
                let fig = subrange_chars(&v, i, j2);
                proof {
                    assert(followers_at(v@, i as int));
                    assert(followers_spec(v@, i as int) == Some(v@.subrange(i as int, j2 as int)));
                    assert(v@ == content@);
                    assert(followers_spec(v@, 0) == followers_spec(v@, i as int));
                    assert(fig@ == v@.subrange(i as int, j2 as int));
                    assert(followers_spec(content@, 0) == Some(fig@));
                }
                return Some(chars_to_string(&fig));
            }
            proof {
                assert(!followers_at(v@, i as int));
            }
        } else {
            proof {
                assert(!followers_at(v@, i as int));
            }
        }
        i += 1;
    }
    None
}

/// The user name a profile URL carries: the last path segment once
/// trailing slashes are stripped.
pub open spec fn strip_trailing_slashes(s: Seq<char>) -> Seq<char>
    decreases s.len(),
{
    if s.len() > 0 && s.last() == '/' {
        strip_trailing_slashes(s.drop_last())
    } else {
        s
    }
}

/// The start of the last path segment: one past the last slash, or the
/// beginning.
pub open spec fn last_segment_start(s: Seq<char>, i: int) -> int
    decreases i,
{
    if i <= 0 {
        0
    } else if s[i - 1] == '/' {
        i
    } else {
        last_segment_start(s, i - 1)
    }
}

/// The user name of a profile URL.
pub open spec fn username_spec(url: Seq<char>) -> Seq<char> {
    let t = strip_trailing_slashes(url);
    t.subrange(last_segment_start(t, t.len() as int), t.len() as int)
}

/// Extract the last path segment of a profile URL.
pub fn extract_username(url: &str) -> (r: String)
    ensures
        r@ == username_spec(url@),
{
    let v = str_chars(url);
    let n = v.len();
    let mut b: usize = n;
    proof {
        assert(v@.subrange(0, n as int) =~= v@);
    }
    while b > 0 && v[b - 1] == '/'
        invariant
            n == v@.len(),
            b <= n,
            strip_trailing_slashes(v@) == strip_trailing_slashes(v@.subrange(0, b as int)),
        decreases b,
    {
        let ghost cur = v@.subrange(0, b as int);
        b -= 1;
        proof {
            assert(cur.drop_last() =~= v@.subrange(0, b as int));
        }
    }
    let ghost t = v@.subrange(0, b as int);
    proof {
        assert(strip_trailing_slashes(t) == t);
    }
    let mut a: usize = b;
    while a > 0 && v[a - 1] != '/'
        invariant
            a <= b <= n,
            n == v@.len(),
            t == v@.subrange(0, b as int),
            last_segment_start(t, b as int) == last_segment_start(t, a as int),
        decreases a,
    {
        proof {
            assert(t[a as int - 1] == v@[a as int - 1]);
        }
        a -= 1;
    }
    proof {
        assert(last_segment_start(t, a as int) == a);
    }
    let seg = subrange_chars(&v, a, b);
    proof {
        assert(seg@ =~= username_spec(v@));
    }
    chars_to_string(&seg)
}

/// Timeout configuration for a data-refresh run.
pub struct RefreshConfig {
    pub timeout_ms: u64,
}

/// What one URL's extraction produced.
pub struct ExtractedData {
    pub url: String,
    pub extractor_type: String,
    pub success: bool,
    pub title: Option<String>,
    pub amounts: Option<Vec<AmountMatch>>,
    pub percentages: Option<Vec<String>>,
    pub followers: Option<String>,
    pub username: Option<String>,
    pub error: Option<String>,
}

/// The report over a data-refresh run.
pub struct RefreshReport {
    pub ok: usize,
    pub failed: usize,
    pub results: Vec<ExtractedData>,
}

/// The extractor a URL selects, by its host text.
pub open spec fn extractor_type_spec(url: Seq<char>) -> Seq<char> {
    if contains_seq(url, "instagram.com"@) {
        "instagram"@
    } else if contains_seq(url, "statista.com"@) {
        "statista"@
    } else {
        "generic"@
    }
}

/// Pick the extractor for a URL.
pub fn get_extractor_type(url: &str) -> (r: &'static str)
    ensures
        r@ == extractor_type_spec(url@),
{
    let v = str_chars(url);
    if contains_pattern(&v, "instagram.com") {
        "instagram"
    } else if contains_pattern(&v, "statista.com") {
        "statista"
    } else {
        "generic"
    }
}

/// Extract profile data from a fetched profile page: the follower figure
/// of the content and the user name of the URL.
pub fn extract_instagram(url: &str, content: &str) -> (r: ExtractedData)
    ensures
        r.url@ == url@,
        r.extractor_type@ == "instagram"@,
        r.success,
        match r.followers {
            Some(f) => followers_spec(content@, 0) == Some(f@),
            None => followers_spec(content@, 0) is None,
        },
        match r.username {
            Some(u) => u@ == username_spec(url@),
            None => false,
        },
        r.title is None && r.amounts is None && r.percentages is None && r.error is None,
{
    let followers = extract_followers(content);
    let username = Some(extract_username(url));
    ExtractedData {
        url: url.to_owned(),
        extractor_type: "instagram".to_owned(),
        success: true,
        title: None,
        amounts: None,
        percentages: None,
        followers,
        username,
        error: None,
    }
}

/// The shared body of the statistics and generic extractors.
fn extract_measures(url: &str, content: &str, ext_type: &'static str) -> (r: ExtractedData)
    ensures
        r.url@ == url@,
        r.extractor_type@ == ext_type@,
        r.success,
        match r.title {
            Some(t) => title_spec(content@) == Some(t@),
            None => title_spec(content@) is None,
        },
        match r.amounts {
            Some(a) => a@.len() == cap_seq(amount_scan(content@, 0), 10).len() && a@.len() > 0
                && forall|x: int|
                0 <= x < a@.len() ==> amount_model(a@[x]) == cap_seq(amount_scan(content@, 0), 10)[x],
            None => cap_seq(amount_scan(content@, 0), 10).len() == 0,
        },
        match r.percentages {
            Some(p) => p.deep_view() == cap_seq(pct_scan(content@, 0), 10) && p@.len() > 0,
            None => cap_seq(pct_scan(content@, 0), 10).len() == 0,
        },
        r.followers is None && r.username is None && r.error is None,
{
    let amounts = extract_amounts(content);
    let percentages = extract_percentages(content);
    let title = extract_title(content);
    let am: Option<Vec<AmountMatch>> = if amounts.len() == 0 {
        None
    } else {
        Some(amounts)
    };
    let pc: Option<Vec<String>> = if percentages.len() == 0 {
        None
    } else {
        Some(percentages)
    };
    ExtractedData {
        url: url.to_owned(),
        extractor_type: ext_type.to_owned(),
        success: true,
        title,
        amounts: am,
        percentages: pc,
        followers: None,
        username: None,
        error: None,
    }
}

/// Extract statistics from a fetched statistics page.
pub fn extract_statista(url: &str, content: &str) -> (r: ExtractedData)
    ensures
        r.url@ == url@,
        r.extractor_type@ == "statista"@,
        r.success,
        match r.title {
            Some(t) => title_spec(content@) == Some(t@),
            None => title_spec(content@) is None,
        },
        match r.amounts {
            Some(a) => a@.len() == cap_seq(amount_scan(content@, 0), 10).len() && a@.len() > 0
                && forall|x: int|
                0 <= x < a@.len() ==> amount_model(a@[x]) == cap_seq(amount_scan(content@, 0), 10)[x],
            None => cap_seq(amount_scan(content@, 0), 10).len() == 0,
        },
        match r.percentages {
            Some(p) => p.deep_view() == cap_seq(pct_scan(content@, 0), 10) && p@.len() > 0,
            None => cap_seq(pct_scan(content@, 0), 10).len() == 0,
        },
        r.followers is None && r.username is None && r.error is None,
{
    extract_measures(url, content, "statista")
}

/// Extract amounts, percentages, and a title from any fetched page.
pub fn extract_generic(url: &str, content: &str) -> (r: ExtractedData)
    ensures
        r.url@ == url@,
        r.extractor_type@ == "generic"@,
        r.success,
        match r.title {
            Some(t) => title_spec(content@) == Some(t@),
            None => title_spec(content@) is None,
        },
        match r.amounts {
            Some(a) => a@.len() == cap_seq(amount_scan(content@, 0), 10).len() && a@.len() > 0
                && forall|x: int|
                0 <= x < a@.len() ==> amount_model(a@[x]) == cap_seq(amount_scan(content@, 0), 10)[x],
            None => cap_seq(amount_scan(content@, 0), 10).len() == 0,
        },
        match r.percentages {
            Some(p) => p.deep_view() == cap_seq(pct_scan(content@, 0), 10) && p@.len() > 0,
            None => cap_seq(pct_scan(content@, 0), 10).len() == 0,
        },
        r.followers is None && r.username is None && r.error is None,
{
    extract_measures(url, content, "generic")
}

/// The failure record for a URL whose fetch or read failed.
pub fn extract_failure(url: &str, ext_type: &str, message: &str) -> (r: ExtractedData)
    ensures
        r.url@ == url@,
        r.extractor_type@ == ext_type@,
        !r.success,
        match r.error {
            Some(e) => e@ == message@,
            None => false,
        },
{
    ExtractedData {
        url: url.to_owned(),
        extractor_type: ext_type.to_owned(),
        success: false,
        title: None,
        amounts: None,
        percentages: None,
        followers: None,
        username: None,
        error: Some(message.to_owned()),
    }
}

/// How many results of a run succeeded.
pub open spec fn success_count(s: Seq<ExtractedData>) -> int
    decreases s.len(),
{
    if s.len() == 0 {
        0
    } else {
        success_count(s.drop_last()) + if s.last().success {
            1int
        } else {
            0int
        }
    }
}

/// Wrap a run's results into its report.
pub fn refresh_report(results: Vec<ExtractedData>) -> (r: RefreshReport)
    ensures
        r.ok == success_count(results@),
        r.ok + r.failed == results@.len(),
        r.results == results,
{
    let mut ok: usize = 0;
    let mut i: usize = 0;
    while i < results.len()
        invariant
            i <= results@.len(),
            ok == success_count(results@.subrange(0, i as int)),
            ok <= i,
        decreases results@.len() - i,
    {
        let ghost pre = results@.subrange(0, i as int);
        if results[i].success {
            ok += 1;
        }
        i += 1;
        proof {
            assert(results@.subrange(0, i as int).drop_last() =~= pre);
        }
    }
    proof {
        assert(results@.subrange(0, results@.len() as int) =~= results@);
    }
    let failed = results.len() - ok;
    RefreshReport { ok, failed, results }
}


/// The extractor a found URL selects, if any: profile pages, statistics
/// pages, and a fixed set of market-report hosts.
pub open spec fn extractable_type(u: Seq<char>) -> Option<Seq<char>> {
    if contains_seq(u, "instagram.com/"@) {
        Some("instagram"@)
    } else if contains_seq(u, "statista.com/"@) {
        Some("statista"@)
    } else if contains_seq(u, "influencermarketinghub.com/"@) || contains_seq(
        u,
        "emarketer.com/"@,
    ) || contains_seq(u, "techcrunch.com/"@) {
        Some("market"@)
    } else {
        None
    }
}

/// The extractable URLs among a list, each with its extractor name.
pub open spec fn extractable_of(urls: Seq<Seq<char>>) -> Seq<(Seq<char>, Seq<char>)>
    decreases urls.len(),
{
    if urls.len() == 0 {
        Seq::empty()
    } else {
        let k = extractable_of(urls.drop_last());
        match extractable_type(urls.last()) {
            Some(ty) => k + seq![(urls.last(), ty)],
            None => k,
        }
    }
}

/// The distinct URLs of a text that an extractor exists for, in order of
/// first appearance, each paired with its extractor name.
pub fn extract_extractable_urls(content: &str) -> (r: Vec<(String, String)>)
    ensures
        crate::html::nodes_model(r@) == extractable_of(
            crate::urls::dedup_seq(crate::urls::url_scan(content@, 0)),
        ),
{
    let urls = crate::urls::extract_urls(content);
    let ghost ded = crate::urls::dedup_seq(crate::urls::url_scan(content@, 0));
    let mut out: Vec<(String, String)> = Vec::new();
    let mut i: usize = 0;
    proof {
        assert(ded.subrange(0, 0) =~= Seq::<Seq<char>>::empty());
        assert(crate::html::nodes_model(out@) =~= extractable_of(ded.subrange(0, 0)));
    }
    while i < urls.len()
        invariant
            urls.deep_view() == ded,
            i <= urls@.len(),
            crate::html::nodes_model(out@) == extractable_of(ded.subrange(0, i as int)),
        decreases urls@.len() - i,
    {
        let ghost pre = ded.subrange(0, i as int);
        proof {
            crate::urls::lemma_deep_view_index_str(&urls, i as int);
        }
        let uv = str_chars(urls[i].as_str());
        let ty: Option<&'static str> = if contains_pattern(&uv, "instagram.com/") {
            Some("instagram")
        } else if contains_pattern(&uv, "statista.com/") {
            Some("statista")
        } else if contains_pattern(&uv, "influencermarketinghub.com/") || contains_pattern(
            &uv,
            "emarketer.com/",
        ) || contains_pattern(&uv, "techcrunch.com/") {
            Some("market")
        } else {
            None
        };
        match ty {
            Some(name) => {
                out.push((urls[i].clone(), name.to_owned()));
            },
            None => {},
        }
        i += 1;
        proof {
            let post = ded.subrange(0, i as int);
            assert(post.drop_last() =~= pre);
            assert(crate::html::nodes_model(out@) =~~= extractable_of(post));
        }
    }
    proof {
        assert(ded.subrange(0, ded.len() as int) =~= ded);
    }
    out
}

} // verus!

