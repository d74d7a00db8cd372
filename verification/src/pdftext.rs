//! Structured extraction from already-decoded document text: title,
//! author, date, identifier, links, and the assembled page record.

use vstd::prelude::*;
use crate::text::{
    matches_at, matches_at_exec, trim_spec, trim_chars, truncate_spec, truncate_chars, lower_seq,
    lowercase_chars, str_chars, chars_to_string, subrange_chars, split_lines_spec, split_lines,
};
use crate::scan::{scan_to, scan_to_exec};
use crate::sections::{is_digit, parse_sections, section_model};
use crate::urls::{url_scan, dedup_seq, scan_url_tokens, dedup_tokens, lemma_deep_view_index};
use crate::html::{Link, link_model, ExtractedPage, char_count, sections_char_sum};
use crate::codeblocks::extract_code;
use crate::schema::Status;
use crate::text::cap_seq;

verus! {

/// The trimmed text of the first non-blank line.
pub open spec fn first_nonempty_line(lines: Seq<Seq<char>>, i: int) -> Option<Seq<char>>
    decreases lines.len() - i,
{
    if i < 0 || i >= lines.len() {
        None
    } else if trim_spec(lines[i]).len() > 0 {
        Some(trim_spec(lines[i]))
    } else {
        first_nonempty_line(lines, i + 1)
    }
}

/// The title of a document text: its first non-blank line when that line
/// is of a reasonable length, else the file stem handed in.
pub open spec fn pdf_title_spec(text: Seq<char>, stem: Option<Seq<char>>) -> Option<Seq<char>> {
    match first_nonempty_line(split_lines_spec(text), 0) {
        Some(l) => {
            if 3 < l.len() && l.len() < 200 {
                Some(l)
            } else {
                stem
            }
        },
        None => stem,
    }
}

/// Extract a title from a document text, with the file stem as fallback.
pub fn extract_title(text: &str, stem: Option<&str>) -> (r: Option<String>)
    ensures
        match r {
            Some(t) => pdf_title_spec(text@, stem.deep_view()) == Some(t@),
            None => pdf_title_spec(text@, stem.deep_view()) is None,
        },
{
    let v = str_chars(text);
    let lines = split_lines(&v);
    let ghost ld = split_lines_spec(v@);
    let mut i: usize = 0;
    let mut first: Option<Vec<char>> = None;
    while i < lines.len() && first.is_none()
        invariant
            lines@.len() == ld.len(),
            forall|x: int| 0 <= x < ld.len() ==> lines@[x]@ == ld[x],
            i <= ld.len(),
            match first {
                Some(f) => first_nonempty_line(ld, 0) == Some(f@),
                None => first_nonempty_line(ld, 0) == first_nonempty_line(ld, i as int),
            },
        decreases ld.len() - i + (if first is Some {
            0int
        } else {
            1int
        }),
    {
        let tt = trim_chars(&lines[i]);
        if tt.len() > 0 {
            first = Some(tt);
        } else {
            i += 1;
        }
    }
    match first {
        Some(l) => {
            if 3 < l.len() && l.len() < 200 {
                Some(chars_to_string(&l))
            } else {
                match stem {
                    Some(s) => Some(s.to_owned()),
                    None => None,
                }
            }
        },
        None => match stem {
            Some(s) => Some(s.to_owned()),
            None => None,
        },
    }
}

/// A separator character after a field marker: a colon, space, or tab.
pub open spec fn is_sep(c: char) -> bool {
    c == ':' || c == ' ' || c == '\t'
}

/// The end of the separator run that begins at `i`.
pub open spec fn sep_end(s: Seq<char>, i: int) -> int
    decreases s.len() - i,
{
    if i < 0 {
        0
    } else if i >= s.len() || !is_sep(s[i]) {
        i
    } else {
        sep_end(s, i + 1)
    }
}

/// Find the separator run end from `i`.
pub fn sep_end_exec(v: &Vec<char>, i: usize) -> (r: usize)
    requires
        i <= v@.len(),
    ensures
        r == sep_end(v@, i as int),
        i <= r <= v@.len(),
{
    let n = v.len();
    let mut j: usize = i;
    while j < n && (v[j] == ':' || v[j] == ' ' || v[j] == '\t')
        invariant
            n == v@.len(),
            i <= j <= n,
            sep_end(v@, i as int) == sep_end(v@, j as int),
        decreases n - j,
    {
        j += 1;
    }
    j
}

/// The length of the author marker written at `i` of the lowered text, or
/// `-1` when none is.
pub open spec fn author_marker_len(l: Seq<char>, i: int) -> int {
    if matches_at(l, "written by"@, i) {
        10
    } else if matches_at(l, "author"@, i) {
        6
    } else if matches_at(l, "by"@, i) {
        2
    } else {
        -1
    }
}

/// The author written at `i`: a marker, at least one separator, and the
/// rest of the line, trimmed, non-blank and under two hundred characters.
pub open spec fn author_at(s: Seq<char>, l: Seq<char>, i: int) -> Option<Seq<char>> {
    let m = author_marker_len(l, i);
    if m > 0 {
        let k = sep_end(s, i + m);
        if k > i + m {
            let e = scan_to(s, k, '\n');
            let cap = trim_spec(s.subrange(k, e));
            if 0 < cap.len() && cap.len() < 200 {
                Some(cap)
            } else {
                None
            }
        } else {
            None
        }
    } else {
        None
    }
}

/// The author of the text: the first marker position decides.
pub open spec fn author_spec(s: Seq<char>, l: Seq<char>, i: int) -> Option<Seq<char>>
    decreases s.len() - i,
{
    if i < 0 || i >= s.len() {
        None
    } else if author_marker_len(l, i) > 0 {
        author_at(s, l, i)
    } else {
        author_spec(s, l, i + 1)
    }
}

/// Extract the author named in a document text.
pub fn extract_author(text: &str) -> (r: Option<String>)
    ensures
        match r {
            Some(t) => author_spec(text@, lower_seq(text@), 0) == Some(t@),
            None => author_spec(text@, lower_seq(text@), 0) is None,
        },
{
    let v = str_chars(text);
    let l = lowercase_chars(&v);
    let n = v.len();
    let wb = str_chars("written by");
    let au = str_chars("author");
    let by = str_chars("by");
    let mut i: usize = 0;
    while i < n
        invariant
            v@ == text@,
            l@ == lower_seq(text@),
            n == v@.len(),
            l@.len() == n,
            i <= n,
            wb@ == "written by"@,
            au@ == "author"@,
            by@ == "by"@,
            author_spec(v@, l@, 0) == author_spec(v@, l@, i as int),
        decreases n - i,
    {
        proof {
            reveal_strlit("written by");
            reveal_strlit("author");
            reveal_strlit("by");
        }
        let m: usize = if n - i >= wb.len() && matches_at_exec(&l, &wb, i) {
            10
        } else if n - i >= au.len() && matches_at_exec(&l, &au, i) {
            6
        } else if n - i >= by.len() && matches_at_exec(&l, &by, i) {
            2
        } else {
            0
        };
        proof {
            if m == 0 {
                assert(author_marker_len(l@, i as int) == -1);
            } else {
                assert(author_marker_len(l@, i as int) == m);
            }
        }
        if m > 0 {
            let k = sep_end_exec(&v, i + m);
            if k > i + m {
                let e = scan_to_exec(&v, k, '\n');
                let cap = trim_chars(&subrange_chars(&v, k, e));
                if 0 < cap.len() && cap.len() < 200 {
                    proof {
                        assert(author_at(v@, l@, i as int) == Some(cap@));
                    }
                    return Some(chars_to_string(&cap));
                }
            }
            proof {
                assert(author_at(v@, l@, i as int) is None);
            }
            return None;
        }
        i += 1;
    }
    None
}

/// A numeric date `dddd-dd-dd` or `dddd/dd/dd` is written at `k`.
pub open spec fn date_shape_at(s: Seq<char>, k: int) -> bool {
    k + 10 <= s.len() && 0 <= k && is_digit(s[k]) && is_digit(s[k + 1]) && is_digit(s[k + 2])
        && is_digit(s[k + 3]) && (s[k + 4] == '-' || s[k + 4] == '/') && is_digit(s[k + 5])
        && is_digit(s[k + 6]) && (s[k + 7] == '-' || s[k + 7] == '/') && is_digit(s[k + 8])
        && is_digit(s[k + 9])
}

/// The length of the date marker written at `i` of the lowered text.
pub open spec fn date_marker_len(l: Seq<char>, i: int) -> int {
    if matches_at(l, "published"@, i) {
        9
    } else if matches_at(l, "updated"@, i) {
        7
    } else if matches_at(l, "date"@, i) {
        4
    } else {
        -1
    }
}

/// The date written at `i`: a marker, separators, and a numeric date.
pub open spec fn date_at(s: Seq<char>, l: Seq<char>, i: int) -> Option<Seq<char>> {
    let m = date_marker_len(l, i);
    if m > 0 {
        let k = sep_end(s, i + m);
        if k > i + m && date_shape_at(s, k) {
            Some(s.subrange(k, k + 10))
        } else {
            None
        }
    } else {
        None
    }
}

/// The date of the text: the first marker followed by a numeric date.
pub open spec fn date_spec(s: Seq<char>, l: Seq<char>, i: int) -> Option<Seq<char>>
    decreases s.len() - i,
{
    if i < 0 || i >= s.len() {
        None
    } else {
        match date_at(s, l, i) {
            Some(d) => Some(d),
            None => date_spec(s, l, i + 1),
        }
    }
}

/// Whether a numeric date is written at `k`.
fn date_shape_at_exec(v: &Vec<char>, k: usize) -> (b: bool)
    requires
        k <= v@.len(),
    ensures
        b == date_shape_at(v@, k as int),
{
    let n = v.len();
    if n - k < 10 {
        return false;
    }
    let d = |c: char| -> (r: bool)
        ensures
            r == is_digit(c),
        { '0' <= c && c <= '9' };
    d(v[k]) && d(v[k + 1]) && d(v[k + 2]) && d(v[k + 3]) && (v[k + 4] == '-' || v[k + 4] == '/')
        && d(v[k + 5]) && d(v[k + 6]) && (v[k + 7] == '-' || v[k + 7] == '/') && d(v[k + 8]) && d(
        v[k + 9],
    )
}

/// Extract the date named in a document text.
pub fn extract_date(text: &str) -> (r: Option<String>)
    ensures
        match r {
            Some(t) => date_spec(text@, lower_seq(text@), 0) == Some(t@),
            None => date_spec(text@, lower_seq(text@), 0) is None,
        },
{
    let v = str_chars(text);
    let l = lowercase_chars(&v);
    let n = v.len();
    let pu = str_chars("published");
    let up = str_chars("updated");
    let da = str_chars("date");
    let mut i: usize = 0;
    while i < n
        invariant
            v@ == text@,
            l@ == lower_seq(text@),
            n == v@.len(),
            l@.len() == n,
            i <= n,
            pu@ == "published"@,
            up@ == "updated"@,
            da@ == "date"@,
            date_spec(v@, l@, 0) == date_spec(v@, l@, i as int),
        decreases n - i,
    {
        proof {
            reveal_strlit("published");
            reveal_strlit("updated");
            reveal_strlit("date");
        }
        let m: usize = if n - i >= pu.len() && matches_at_exec(&l, &pu, i) {
            9
        } else if n - i >= up.len() && matches_at_exec(&l, &up, i) {
            7
        } else if n - i >= da.len() && matches_at_exec(&l, &da, i) {
            4
        } else {
            0
        };
        proof {
            if m == 0 {
                assert(date_marker_len(l@, i as int) == -1);
            } else {
                assert(date_marker_len(l@, i as int) == m);
            }
        }
        if m > 0 {
            let k = sep_end_exec(&v, i + m);
            if k > i + m && date_shape_at_exec(&v, k) {
                let cap = subrange_chars(&v, k, k + 10);
                proof {
                    assert(date_at(v@, l@, i as int) == Some(cap@));
                }
                return Some(chars_to_string(&cap));
            }
            proof {
                assert(date_at(v@, l@, i as int) is None);
            }
        }
        i += 1;
    }
    None
}

/// A character that ends an identifier token.
pub open spec fn is_doi_stop(c: char) -> bool {
    crate::text::is_space(c) || c == ')'
}

/// The end of the identifier token that begins at `i`.
pub open spec fn doi_end(s: Seq<char>, i: int) -> int
    decreases s.len() - i,
{
    if i < 0 {
        0
    } else if i >= s.len() || is_doi_stop(s[i]) {
        i
    } else {
        doi_end(s, i + 1)
    }
}

/// Find the identifier token end from `i`.
fn doi_end_exec(v: &Vec<char>, i: usize) -> (r: usize)
    requires
        i <= v@.len(),
    ensures
        r == doi_end(v@, i as int),
        i <= r <= v@.len(),
{
    let n = v.len();
    let mut j: usize = i;
    while j < n && !(crate::text::is_space_exec(v[j]) || v[j] == ')')
        invariant
            n == v@.len(),
            i <= j <= n,
            doi_end(v@, i as int) == doi_end(v@, j as int),
        decreases n - j,
    {
        j += 1;
    }
    j
}

/// An identifier token is written at `k`: the registry prefix, at least
/// four digits, a slash, and a non-empty suffix.
pub open spec fn doi_token_at(s: Seq<char>, k: int) -> Option<Seq<char>> {
    if matches_at(s, "10."@, k) {
        let d = crate::extract::num_end(s, k + 3);
        if d - k >= 7 && d < s.len() && s[d] == '/' {
            let e = doi_end(s, d + 1);
            if e > d + 1 {
                Some(s.subrange(k, e))
            } else {
                None
            }
        } else {
            None
        }
    } else {
        None
    }
}

/// The identifier at a marker at `i`: `doi.org/` directly before a token,
/// or a `doi` label, separators, and the token.
pub open spec fn doi_at(s: Seq<char>, l: Seq<char>, i: int) -> Option<Seq<char>> {
    if matches_at(l, "doi.org/"@, i) {
        doi_token_at(s, i + 8)
    } else if matches_at(l, "doi"@, i) {
        let k = sep_end(s, i + 3);
        if k > i + 3 {
            doi_token_at(s, k)
        } else {
            None
        }
    } else {
        None
    }
}

/// The identifier of the text: the first marker that a token follows.
pub open spec fn doi_spec(s: Seq<char>, l: Seq<char>, i: int) -> Option<Seq<char>>
    decreases s.len() - i,
{
    if i < 0 || i >= s.len() {
        None
    } else {
        match doi_at(s, l, i) {
            Some(d) => Some(d),
            None => doi_spec(s, l, i + 1),
        }
    }
}

/// Read the identifier token at `k`, if one is written there.
fn doi_token_at_exec(v: &Vec<char>, k: usize) -> (r: Option<Vec<char>>)
    requires
        k <= v@.len(),
    ensures
        match r {
            Some(t) => doi_token_at(v@, k as int) == Some(t@),
            None => doi_token_at(v@, k as int) is None,
        },
{
    let n = v.len();
    let p = str_chars("10.");
    if !(n - k >= p.len() && matches_at_exec(v, &p, k)) {
        proof {
            reveal_strlit("10.");
        }
        return None;
    }
    proof {
        reveal_strlit("10.");
    }
    let d = crate::extract::num_end_exec(v, k + 3);
    if d - k >= 7 && d < n && v[d] == '/' {
        let e = doi_end_exec(v, d + 1);
        if e > d + 1 {
            return Some(subrange_chars(v, k, e));
        }
    }
    None
}

/// Extract the identifier named in a document text.
pub fn extract_doi(text: &str) -> (r: Option<String>)
    ensures
        match r {
            Some(t) => doi_spec(text@, lower_seq(text@), 0) == Some(t@),
            None => doi_spec(text@, lower_seq(text@), 0) is None,
        },
{
    let v = str_chars(text);
    let l = lowercase_chars(&v);
    let n = v.len();
    let dorg = str_chars("doi.org/");
    let dlab = str_chars("doi");
    let mut i: usize = 0;
    while i < n
        invariant
            v@ == text@,
            l@ == lower_seq(text@),
            n == v@.len(),
            l@.len() == n,
            i <= n,
            dorg@ == "doi.org/"@,
            dlab@ == "doi"@,
            doi_spec(v@, l@, 0) == doi_spec(v@, l@, i as int),
        decreases n - i,
    {
        proof {
            reveal_strlit("doi.org/");
            reveal_strlit("doi");
        }
        if n - i >= dorg.len() && matches_at_exec(&l, &dorg, i) {
            match doi_token_at_exec(&v, i + 8) {
                Some(t) => {
                    proof {
                        assert(doi_at(v@, l@, i as int) == Some(t@));
                    }
                    return Some(chars_to_string(&t));
                },
                None => {
                    proof {
                        assert(doi_at(v@, l@, i as int) is None);
                    }
                },
            }
        } else if n - i >= dlab.len() && matches_at_exec(&l, &dlab, i) {
            let k = sep_end_exec(&v, i + 3);
            if k > i + 3 {
                match doi_token_at_exec(&v, k) {
                    Some(t) => {
                        proof {
                            assert(doi_at(v@, l@, i as int) == Some(t@));
                        }
                        return Some(chars_to_string(&t));
                    },
                    None => {
                        proof {
                            assert(doi_at(v@, l@, i as int) is None);
                        }
                    },
                }
            } else {
                proof {
                    assert(doi_at(v@, l@, i as int) is None);
                }
            }
        } else {
            proof {
                assert(doi_at(v@, l@, i as int) is None);
            }
        }
        i += 1;
    }
    None
}

/// The links of a document text: its distinct URLs, each under its own
/// text cut to one hundred characters, capped at fifty.
pub open spec fn pdf_links_spec(text: Seq<char>) -> Seq<(Seq<char>, Seq<char>)> {
    let urls = cap_seq(dedup_seq(url_scan(text, 0)), 50);
    Seq::new(urls.len(), |x: int| (truncate_spec(urls[x], 100), urls[x]))
}

/// Extract the links written in a document text.
pub fn extract_links(text: &str) -> (r: Vec<Link>)
    ensures
        r@.len() == pdf_links_spec(text@).len(),
        forall|i: int| 0 <= i < r@.len() ==> link_model(r@[i]) == pdf_links_spec(text@)[i],
        r@.len() <= 50,
{
    let v = str_chars(text);
    let toks = scan_url_tokens(&v);
    let ded = dedup_tokens(&toks);
    let ghost urls = cap_seq(dedup_seq(url_scan(text@, 0)), 50);
    let mut out: Vec<Link> = Vec::new();
    let mut i: usize = 0;
    while i < ded.len() && i < 50
        invariant
            ded.deep_view() == dedup_seq(url_scan(text@, 0)),
            urls == cap_seq(dedup_seq(url_scan(text@, 0)), 50),
            i <= ded@.len(),
            i <= 50,
            i <= urls.len(),
            out@.len() == i,
            forall|x: int| 0 <= x < out@.len() ==> link_model(out@[x]) == pdf_links_spec(text@)[x],
        decreases ded@.len() - i,
    {
        proof {
            lemma_deep_view_index(&ded, i as int);
        }
        let short = truncate_chars(&ded[i], 100);
        out.push(Link { text: chars_to_string(&short), url: chars_to_string(&ded[i]) });
        i += 1;
        proof {
            assert(urls[i - 1] == ded.deep_view()[i - 1]);
            assert(link_model(out@[out@.len() - 1]) == pdf_links_spec(text@)[out@.len() - 1]);
        }
    }
    out
}

/// Assemble the structured record of a decoded document text.
pub fn page_from_text(text: &str, url: &str, stem: Option<&str>) -> (r: ExtractedPage)
    ensures
        r.url@ == url@,
        r.classification == Status::Okay,
        match r.title {
            Some(t) => pdf_title_spec(text@, stem.deep_view()) == Some(t@),
            None => pdf_title_spec(text@, stem.deep_view()) is None,
        },
        match r.author {
            Some(t) => author_spec(text@, lower_seq(text@), 0) == Some(t@),
            None => author_spec(text@, lower_seq(text@), 0) is None,
        },
        match r.date {
            Some(t) => date_spec(text@, lower_seq(text@), 0) == Some(t@),
            None => date_spec(text@, lower_seq(text@), 0) is None,
        },
        match r.doi {
            Some(t) => doi_spec(text@, lower_seq(text@), 0) == Some(t@),
            None => doi_spec(text@, lower_seq(text@), 0) is None,
        },
        r.site is None,
        r.sections@.len() == crate::sections::sections_spec(text@).len(),
        forall|i: int|
            0 <= i < r.sections@.len() ==> section_model(r.sections@[i])
                == crate::sections::sections_spec(text@)[i],
        r.links@.len() == pdf_links_spec(text@).len(),
        forall|i: int|
            0 <= i < r.links@.len() ==> link_model(r.links@[i]) == pdf_links_spec(text@)[i],
        r.code@.len() == crate::codeblocks::code_blocks_spec(text@).len(),
        forall|i: int|
            0 <= i < r.code@.len() ==> crate::codeblocks::code_model(r.code@[i])
                == crate::codeblocks::code_blocks_spec(text@)[i],
        r.alerts@.len() == 0,
        r.chars == sections_char_sum(
            Seq::new(r.sections@.len(), |x: int| section_model(r.sections@[x])),
        ),
{
    let sections = parse_sections(text);
    let chars = char_count(&sections);
    ExtractedPage {
        url: url.to_owned(),
        classification: Status::Okay,
        title: extract_title(text, stem),
        site: None,
        author: extract_author(text),
        date: extract_date(text),
        doi: extract_doi(text),
        sections,
        links: extract_links(text),
        code: extract_code(text),
        alerts: Vec::new(),
        chars,
    }
}

} // verus!
