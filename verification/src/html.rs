//! The HTML extraction pipeline: content-scope selection, metadata,
//! sections, links, and code blocks, assembled into one page record.
//!
//! Parsing and selection are the `scraper` crate's work, reached through
//! a small set of wrappers; everything downstream of them is verified.

use vstd::prelude::*;
use crate::text::{
    matches_at, matches_at_exec, trim_spec, trim_chars, truncate_spec, truncate_chars,
    truncate_space_spec, truncate_space_chars, str_chars, chars_to_string, subrange_chars,
    cap_seq, split_lines_spec, split_lines, append_chars, lemma_truncate_space_len,
};
use crate::urls::chars_eq;
use crate::schema::{Status, str_eq};
use crate::sections::{
    Section, section_model, SectState, flush_state, sect_init, flush_exec, heading_level,
};
use crate::codeblocks::CodeBlock;
use crate::classify::{selector_found, selector_found_spec};
use crate::host::{resolve_url, resolved_of};

verus! {

// ---------------------------------------------------------------------
// Trusted wrappers over the document parser and the text renderer.
// ---------------------------------------------------------------------

/// The trimmed text of the first element the selector matches, when the
/// selector parses, a match exists, and its text is non-empty.
pub uninterp spec fn sel_text_of(html: Seq<char>, sel: Seq<char>) -> Option<Seq<char>>;

/// Relies on `scraper::Html::parse_document`, `scraper::Selector::parse`
/// and `scraper::ElementRef::text`: the first match's collected text is a
/// function of the document and selector texts alone.
#[verifier::external_body]
pub(crate) fn select_first_text(html: &str, sel: &str) -> (r: Option<String>)
    ensures
        match r {
            Some(t) => sel_text_of(html@, sel@) == Some(t@),
            None => sel_text_of(html@, sel@) is None,
        },
{
    let selector = match scraper::Selector::parse(sel) {
        Ok(s) => s,
        Err(_) => {
            return None;
        },
    };
    scraper::Html::parse_document(html)
        .select(&selector)
        .next()
        .map(|el| el.text().collect::<String>().trim().to_string())
        .filter(|s| !s.is_empty())
}

/// The trimmed value of the named attribute on the first element the
/// selector matches, when non-empty.
pub uninterp spec fn sel_attr_of(html: Seq<char>, sel: Seq<char>, attr: Seq<char>) -> Option<
    Seq<char>,
>;

/// Relies on `scraper::Html::parse_document`, `scraper::Selector::parse`
/// and `scraper::Element::attr`: the first match's attribute value is a
/// function of the three texts alone.
#[verifier::external_body]
pub(crate) fn select_first_attr(html: &str, sel: &str, attr: &str) -> (r: Option<String>)
    ensures
        match r {
            Some(t) => sel_attr_of(html@, sel@, attr@) == Some(t@),
            None => sel_attr_of(html@, sel@, attr@) is None,
        },
{
    let selector = match scraper::Selector::parse(sel) {
        Ok(s) => s,
        Err(_) => {
            return None;
        },
    };
    scraper::Html::parse_document(html)
        .select(&selector)
        .next()
        .and_then(|el| el.value().attr(attr))
        .map(|s| s.trim().to_string())
        .filter(|s| !s.is_empty())
}

/// Every element the selector matches, in document order, as the pair of
/// its tag name and its collected text.
pub uninterp spec fn sel_nodes_of(html: Seq<char>, sel: Seq<char>) -> Seq<(Seq<char>, Seq<char>)>;

/// The spec-level image of a node list.
pub open spec fn nodes_model(v: Seq<(String, String)>) -> Seq<(Seq<char>, Seq<char>)> {
    Seq::new(v.len(), |x: int| (v[x].0@, v[x].1@))
}

/// Relies on `scraper::Html::parse_document` and `scraper::Selector::parse`:
/// the matched elements, their tag names and texts, in document order, are
/// a function of the document and selector texts alone.
#[verifier::external_body]
pub(crate) fn select_nodes(html: &str, sel: &str) -> (r: Vec<(String, String)>)
    ensures
        nodes_model(r@) == sel_nodes_of(html@, sel@),
{
    let selector = match scraper::Selector::parse(sel) {
        Ok(s) => s,
        Err(_) => {
            return Vec::new();
        },
    };
    scraper::Html::parse_document(html)
        .select(&selector)
        .map(|el| (el.value().name().to_string(), el.text().collect::<String>()))
        .collect()
}

/// Every anchor the selector matches, in document order, as the pair of
/// its `href` value (empty when absent) and its collected text.
pub uninterp spec fn sel_anchors_of(html: Seq<char>, sel: Seq<char>) -> Seq<(Seq<char>, Seq<char>)>;

/// Relies on `scraper::Html::parse_document`, `scraper::Selector::parse`
/// and `scraper::Element::attr`: the anchors, their references and texts,
/// in document order, are a function of the document and selector texts.
#[verifier::external_body]
pub(crate) fn select_anchors(html: &str, sel: &str) -> (r: Vec<(String, String)>)
    ensures
        nodes_model(r@) == sel_anchors_of(html@, sel@),
{
    let selector = match scraper::Selector::parse(sel) {
        Ok(s) => s,
        Err(_) => {
            return Vec::new();
        },
    };
    scraper::Html::parse_document(html)
        .select(&selector)
        .map(
            |el| (
                el.value().attr("href").unwrap_or("").to_string(),
                el.text().collect::<String>(),
            ),
        )
        .collect()
}

/// Every element the selector matches, in document order, as the pair of
/// its `class` value, when present, and its collected text.
pub uninterp spec fn sel_code_of(html: Seq<char>, sel: Seq<char>) -> Seq<(
    Option<Seq<char>>,
    Seq<char>,
)>;

/// The spec-level image of a class-and-text list.
pub open spec fn classed_model(v: Seq<(Option<String>, String)>) -> Seq<(
    Option<Seq<char>>,
    Seq<char>,
)> {
    Seq::new(
        v.len(),
        |x: int| (
            match v[x].0 {
                Some(c) => Some(c@),
                None => None,
            },
            v[x].1@,
        ),
    )
}

/// Relies on `scraper::Html::parse_document`, `scraper::Selector::parse`
/// and `scraper::Element::attr`: the matched elements' class values and
/// texts, in document order, are a function of the two texts alone.
#[verifier::external_body]
pub(crate) fn select_code(html: &str, sel: &str) -> (r: Vec<(Option<String>, String)>)
    ensures
        classed_model(r@) == sel_code_of(html@, sel@),
{
    let selector = match scraper::Selector::parse(sel) {
        Ok(s) => s,
        Err(_) => {
            return Vec::new();
        },
    };
    scraper::Html::parse_document(html)
        .select(&selector)
        .map(
            |el| (
                el.value().attr("class").map(|c| c.to_string()),
                el.text().collect::<String>(),
            ),
        )
        .collect()
}

/// The plain-text rendering of the document at the given column width,
/// when the renderer accepts the document.
pub uninterp spec fn rendered_of(html: Seq<char>, width: int) -> Option<Seq<char>>;

/// Relies on `html2text::from_read`: the wrapped plain-text rendering is a
/// function of the document text and the column width alone.
#[verifier::external_body]
pub(crate) fn render_plain(html: &str, width: usize) -> (r: Option<String>)
    ensures
        match r {
            Some(t) => rendered_of(html@, width as int) == Some(t@),
            None => rendered_of(html@, width as int) is None,
        },
{
    html2text::from_read(html.as_bytes(), width).ok()
}

// ---------------------------------------------------------------------
// Content scope.
// ---------------------------------------------------------------------

/// The content scope chosen for a document: the first selector of the
/// fixed cascade that matches, the document body as a late resort.
pub open spec fn scope_choice(html: Seq<char>) -> Option<Seq<char>> {
    if selector_found_spec(html, "main"@) {
        Some("main"@)
    } else if selector_found_spec(html, "[role='main']"@) {
        Some("[role='main']"@)
    } else if selector_found_spec(html, "article"@) {
        Some("article"@)
    } else if selector_found_spec(html, "#content"@) {
        Some("#content"@)
    } else if selector_found_spec(html, ".content"@) {
        Some(".content"@)
    } else if selector_found_spec(html, ".post"@) {
        Some(".post"@)
    } else if selector_found_spec(html, ".article-body"@) {
        Some(".article-body"@)
    } else if selector_found_spec(html, "body"@) {
        Some("body"@)
    } else {
        None
    }
}

/// Choose the content scope of a document.
pub fn choose_scope(html: &str) -> (r: Option<&'static str>)
    ensures
        match r {
            Some(s) => scope_choice(html@) == Some(s@),
            None => scope_choice(html@) is None,
        },
{
    if selector_found(html, "main") {
        Some("main")
    } else if selector_found(html, "[role='main']") {
        Some("[role='main']")
    } else if selector_found(html, "article") {
        Some("article")
    } else if selector_found(html, "#content") {
        Some("#content")
    } else if selector_found(html, ".content") {
        Some(".content")
    } else if selector_found(html, ".post") {
        Some(".post")
    } else if selector_found(html, ".article-body") {
        Some(".article-body")
    } else if selector_found(html, "body") {
        Some("body")
    } else {
        None
    }
}

// ---------------------------------------------------------------------
// Metadata, each field a first-match cascade.
// ---------------------------------------------------------------------

/// The page title: document title, social-graph title, first top heading.
pub open spec fn page_title_spec(html: Seq<char>) -> Option<Seq<char>> {
    match sel_text_of(html, "title"@) {
        Some(t) => Some(t),
        None => match sel_attr_of(html, "meta[property='og:title']"@, "content"@) {
            Some(t) => Some(t),
            None => sel_text_of(html, "h1"@),
        },
    }
}

/// Extract the page title.
pub fn page_title(html: &str) -> (r: Option<String>)
    ensures
        match r {
            Some(t) => page_title_spec(html@) == Some(t@),
            None => page_title_spec(html@) is None,
        },
{
    match select_first_text(html, "title") {
        Some(t) => Some(t),
        None => match select_first_attr(html, "meta[property='og:title']", "content") {
            Some(t) => Some(t),
            None => select_first_text(html, "h1"),
        },
    }
}

/// The site name, from the social-graph site tag.
pub open spec fn page_site_spec(html: Seq<char>) -> Option<Seq<char>> {
    sel_attr_of(html, "meta[property='og:site_name']"@, "content"@)
}

/// Extract the site name.
pub fn page_site(html: &str) -> (r: Option<String>)
    ensures
        match r {
            Some(t) => page_site_spec(html@) == Some(t@),
            None => page_site_spec(html@) is None,
        },
{
    select_first_attr(html, "meta[property='og:site_name']", "content")
}

/// The author: author meta tag, then article author tag.
pub open spec fn page_author_spec(html: Seq<char>) -> Option<Seq<char>> {
    match sel_attr_of(html, "meta[name='author']"@, "content"@) {
        Some(t) => Some(t),
        None => sel_attr_of(html, "meta[property='article:author']"@, "content"@),
    }
}

/// Extract the author.
pub fn page_author(html: &str) -> (r: Option<String>)
    ensures
        match r {
            Some(t) => page_author_spec(html@) == Some(t@),
            None => page_author_spec(html@) is None,
        },
{
    match select_first_attr(html, "meta[name='author']", "content") {
        Some(t) => Some(t),
        None => select_first_attr(html, "meta[property='article:author']", "content"),
    }
}

/// The date: published-time tag, date meta, publication-date meta.
pub open spec fn page_date_spec(html: Seq<char>) -> Option<Seq<char>> {
    match sel_attr_of(html, "meta[property='article:published_time']"@, "content"@) {
        Some(t) => Some(t),
        None => match sel_attr_of(html, "meta[name='date']"@, "content"@) {
            Some(t) => Some(t),
            None => sel_attr_of(html, "meta[name='pubdate']"@, "content"@),
        },
    }
}

/// Extract the date.
pub fn page_date(html: &str) -> (r: Option<String>)
    ensures
        match r {
            Some(t) => page_date_spec(html@) == Some(t@),
            None => page_date_spec(html@) is None,
        },
{
    match select_first_attr(html, "meta[property='article:published_time']", "content") {
        Some(t) => Some(t),
        None => match select_first_attr(html, "meta[name='date']", "content") {
            Some(t) => Some(t),
            None => select_first_attr(html, "meta[name='pubdate']", "content"),
        },
    }
}

/// A text that looks like a digital object identifier.
pub open spec fn looks_like_doi(d: Seq<char>) -> bool {
    matches_at(d, "10."@, 0)
}

/// The reference of the first anchor that points into the identifier
/// resolver.
pub open spec fn first_doi_link(ans: Seq<(Seq<char>, Seq<char>)>, i: int) -> Option<Seq<char>>
    decreases ans.len() - i,
{
    if i < 0 || i >= ans.len() {
        None
    } else if crate::text::contains_seq(ans[i].0, "doi.org/"@) {
        Some(ans[i].0)
    } else {
        first_doi_link(ans, i + 1)
    }
}

/// The identifier: the citation meta tag, the identifier meta tag when it
/// looks like one, or the first in-page link to the resolver.
pub open spec fn page_doi_spec(html: Seq<char>) -> Option<Seq<char>> {
    match sel_attr_of(html, "meta[name='citation_doi']"@, "content"@) {
        Some(d) => Some(d),
        None => match sel_attr_of(html, "meta[name='DC.identifier']"@, "content"@) {
            Some(d) => {
                if looks_like_doi(d) {
                    Some(d)
                } else {
                    first_doi_link(sel_anchors_of(html, "a"@), 0)
                }
            },
            None => first_doi_link(sel_anchors_of(html, "a"@), 0),
        },
    }
}

/// Scan the anchors for a resolver link.
fn find_doi_link(anchors: &Vec<(String, String)>) -> (r: Option<String>)
    ensures
        match r {
            Some(t) => first_doi_link(nodes_model(anchors@), 0) == Some(t@),
            None => first_doi_link(nodes_model(anchors@), 0) is None,
        },
{
    let mut i: usize = 0;
    while i < anchors.len()
        invariant
            i <= anchors@.len(),
            first_doi_link(nodes_model(anchors@), 0) == first_doi_link(
                nodes_model(anchors@),
                i as int,
            ),
        decreases anchors@.len() - i,
    {
        let hv = str_chars(anchors[i].0.as_str());
        if crate::text::contains_pattern(&hv, "doi.org/") {
            proof {
                assert(nodes_model(anchors@)[i as int].0 == anchors@[i as int].0@);
            }
            return Some(chars_to_string(&hv));
        }
        i += 1;
    }
    None
}

/// Extract the identifier.
pub fn page_doi(html: &str) -> (r: Option<String>)
    ensures
        match r {
            Some(t) => page_doi_spec(html@) == Some(t@),
            None => page_doi_spec(html@) is None,
        },
{
    match select_first_attr(html, "meta[name='citation_doi']", "content") {
        Some(d) => Some(d),
        None => {
            let dc = select_first_attr(html, "meta[name='DC.identifier']", "content");
            match dc {
                Some(d) => {
                    let dv = str_chars(d.as_str());
                    let p = str_chars("10.");
                    let looks = if dv.len() >= p.len() {
                        matches_at_exec(&dv, &p, 0)
                    } else {
                        false
                    };
                    if looks {
                        Some(d)
                    } else {
                        let anchors = select_anchors(html, "a");
                        find_doi_link(&anchors)
                    }
                },
                None => {
                    let anchors = select_anchors(html, "a");
                    find_doi_link(&anchors)
                },
            }
        },
    }
}

// ---------------------------------------------------------------------
// Links.
// ---------------------------------------------------------------------

/// One extracted link: the anchor's text and the resolved absolute URL.
pub struct Link {
    /// Anchor text, cut to 100 characters.
    pub text: String,
    /// Resolved absolute URL.
    pub url: String,
}

/// The spec-level image of a `Link`.
pub open spec fn link_model(l: Link) -> (Seq<char>, Seq<char>) {
    (l.text@, l.url@)
}

/// An anchor worth keeping: a reference that is present, not a bare
/// fragment, not a script call, under a visible text of at least three
/// characters.
pub open spec fn anchor_ok(href: Seq<char>, text: Seq<char>) -> bool {
    href.len() > 0 && href[0] != '#' && !matches_at(href, "javascript:"@, 0) && trim_spec(
        text,
    ).len() >= 3
}

/// The URLs of the kept links.
pub open spec fn link_urls(ls: Seq<(Seq<char>, Seq<char>)>) -> Seq<Seq<char>> {
    Seq::new(ls.len(), |x: int| ls[x].1)
}

/// The links gathered from the anchors, in order: each kept anchor's
/// reference is resolved against the page URL, and a URL already seen is
/// dropped, so the first anchor text wins.
pub open spec fn links_acc(base: Seq<char>, ans: Seq<(Seq<char>, Seq<char>)>) -> Seq<(
    Seq<char>,
    Seq<char>,
)>
    decreases ans.len(),
{
    if ans.len() == 0 {
        Seq::empty()
    } else {
        let k = links_acc(base, ans.drop_last());
        let href = ans.last().0;
        let text = ans.last().1;
        if anchor_ok(href, text) {
            match resolved_of(base, href) {
                Some(u) => {
                    if link_urls(k).contains(u) {
                        k
                    } else {
                        k + seq![(truncate_spec(trim_spec(text), 100), u)]
                    }
                },
                None => k,
            }
        } else {
            k
        }
    }
}

/// No two gathered links share a URL: a URL that several anchors carry
/// yields exactly one link, under the first anchor's text.
pub proof fn lemma_links_distinct(base: Seq<char>, ans: Seq<(Seq<char>, Seq<char>)>)
    ensures
        forall|i: int, j: int|
            0 <= i < j < links_acc(base, ans).len() ==> links_acc(base, ans)[i].1 != links_acc(
                base,
                ans,
            )[j].1,
    decreases ans.len(),
{
    if ans.len() > 0 {
        lemma_links_distinct(base, ans.drop_last());
        let k = links_acc(base, ans.drop_last());
        let full = links_acc(base, ans);
        assert forall|i: int, j: int| 0 <= i < j < full.len() implies full[i].1 != full[j].1 by {
            if full.len() == k.len() {
                assert(full =~= k);
            } else {
                assert(forall|x: int| 0 <= x < k.len() ==> full[x] == k[x]);
                if j == full.len() - 1 {
                    let u = full[j].1;
                    assert(!link_urls(k).contains(u));
                    if full[i].1 == u {
                        assert(link_urls(k)[i] == k[i].1);
                        assert(link_urls(k).contains(u));
                    }
                }
            }
        };
    }
}

/// Gather the links of the anchors, capped at fifty.
pub fn build_links(base: &str, anchors: &Vec<(String, String)>) -> (r: Vec<Link>)
    ensures
        r@.len() == cap_seq(links_acc(base@, nodes_model(anchors@)), 50).len(),
        forall|i: int|
            0 <= i < r@.len() ==> link_model(r@[i]) == cap_seq(
                links_acc(base@, nodes_model(anchors@)),
                50,
            )[i],
        r@.len() <= 50,
{
    let ghost ans = nodes_model(anchors@);
    let mut out: Vec<Link> = Vec::new();
    let mut i: usize = 0;
    proof {
        assert(ans.subrange(0, 0) =~= Seq::<(Seq<char>, Seq<char>)>::empty());
    }
    while i < anchors.len()
        invariant
            i <= anchors@.len(),
            ans == nodes_model(anchors@),
            out@.len() == links_acc(base@, ans.subrange(0, i as int)).len(),
            forall|x: int|
                0 <= x < out@.len() ==> link_model(out@[x]) == links_acc(
                    base@,
                    ans.subrange(0, i as int),
                )[x],
        decreases anchors@.len() - i,
    {
        let ghost pre = ans.subrange(0, i as int);
        let href = str_chars(anchors[i].0.as_str());
        let text = str_chars(anchors[i].1.as_str());
        proof {
            assert(ans[i as int] == (anchors@[i as int].0@, anchors@[i as int].1@));
        }
        let jsv = str_chars("javascript:");
        let is_js = if href.len() >= jsv.len() {
            matches_at_exec(&href, &jsv, 0)
        } else {
            false
        };
        let tt = trim_chars(&text);
        let keep = href.len() > 0 && href[0] != '#' && !is_js && tt.len() >= 3;
        if keep {
            match resolve_url(base, anchors[i].0.as_str()) {
                Some(u) => {
                    let uv = str_chars(u.as_str());
                    let mut seen: bool = false;
                    let mut k: usize = 0;
                    while k < out.len() && !seen
                        invariant
                            k <= out@.len(),
                            out@.len() == links_acc(base@, pre).len(),
                            forall|x: int|
                                0 <= x < out@.len() ==> link_model(out@[x]) == links_acc(
                                    base@,
                                    pre,
                                )[x],
                            uv@ == u@,
                            seen ==> link_urls(links_acc(base@, pre)).contains(u@),
                            !seen ==> forall|x: int|
                                0 <= x < k ==> links_acc(base@, pre)[x].1 != u@,
                        decreases out@.len() - k + (if seen {
                            0int
                        } else {
                            1int
                        }),
                    {
                        let ov = str_chars(out[k].url.as_str());
                        if chars_eq(&ov, &uv) {
                            proof {
                                assert(links_acc(base@, pre)[k as int].1 == u@);
                                assert(link_urls(links_acc(base@, pre))[k as int] == u@);
                            }
                            seen = true;
                        } else {
                            k += 1;
                        }
                    }
                    proof {
                        if !seen {
                            assert(!link_urls(links_acc(base@, pre)).contains(u@)) by {
                                if link_urls(links_acc(base@, pre)).contains(u@) {
                                    let acc = links_acc(base@, pre);
                                    let x = choose|x: int|
                                        0 <= x < link_urls(acc).len() && link_urls(acc)[x] == u@;
                                    assert(acc[x].1 == u@);
                                }
                            }
                        }
                    }
                    if !seen {
                        let short = truncate_chars(&tt, 100);
                        out.push(Link { text: chars_to_string(&short), url: u });
                    }
                },
                None => {},
            }
        }
        i += 1;
        proof {
            let post = ans.subrange(0, i as int);
            assert(post.drop_last() =~= pre);
            assert(post.last() == ans[i - 1]);
            assert(out@.len() == links_acc(base@, post).len());
            assert(forall|x: int|
                0 <= x < out@.len() ==> link_model(out@[x]) == links_acc(base@, post)[x]);
        }
    }
    proof {
        assert(ans.subrange(0, ans.len() as int) =~= ans);
    }
    let mut capped: Vec<Link> = Vec::new();
    let mut t: usize = 0;
    while t < out.len() && t < 50
        invariant
            t <= out@.len(),
            t <= 50,
            out@.len() == links_acc(base@, ans).len(),
            forall|x: int|
                0 <= x < out@.len() ==> link_model(out@[x]) == links_acc(base@, ans)[x],
            ans == nodes_model(anchors@),
            capped@ == out@.subrange(0, t as int),
        decreases out@.len() - t,
    {
        let l = &out[t];
        capped.push(Link { text: l.text.clone(), url: l.url.clone() });
        t += 1;
        proof {
            assert(capped@ =~= out@.subrange(0, t as int));
        }
    }
    proof {
        if out@.len() <= 50 {
            assert(out@.subrange(0, out@.len() as int) =~= out@);
        }
        assert(forall|x: int| 0 <= x < capped@.len() ==> capped@[x] == out@[x]);
    }
    capped
}


// ---------------------------------------------------------------------
// Sections from the content scope's headings and paragraphs.
// ---------------------------------------------------------------------

/// The heading level a tag name opens; zero for a non-heading tag.
pub open spec fn tag_level_spec(tag: Seq<char>) -> int {
    if tag == "h1"@ {
        1
    } else if tag == "h2"@ {
        2
    } else if tag == "h3"@ {
        3
    } else if tag == "h4"@ {
        4
    } else if tag == "h5"@ {
        5
    } else if tag == "h6"@ {
        6
    } else {
        0
    }
}

/// The heading level of a tag name.
fn tag_level(tag: &str) -> (r: u8)
    ensures
        r as int == tag_level_spec(tag@),
        r <= 6,
{
    if str_eq(tag, "h1") {
        1
    } else if str_eq(tag, "h2") {
        2
    } else if str_eq(tag, "h3") {
        3
    } else if str_eq(tag, "h4") {
        4
    } else if str_eq(tag, "h5") {
        5
    } else if str_eq(tag, "h6") {
        6
    } else {
        0
    }
}

/// Read one node of the content scope: a heading opens a section, a
/// paragraph of at least three characters joins the open content, cut to
/// 2000 characters, and any other node is passed over.
pub open spec fn node_step(st: SectState, tag: Seq<char>, text: Seq<char>) -> SectState {
    let lvl = tag_level_spec(tag);
    if 1 <= lvl {
        SectState {
            acc: flush_state(st),
            opened: true,
            level: lvl,
            heading: trim_spec(text),
            content: Seq::empty(),
        }
    } else if tag == "p"@ {
        let t = trim_spec(text);
        if t.len() < 3 {
            st
        } else {
            let piece = truncate_space_spec(t, 2000);
            let joined = if st.content.len() > 0 && st.content.last() != '\n' {
                st.content + seq![' '] + piece
            } else {
                st.content + piece
            };
            SectState { content: joined, ..st }
        }
    } else {
        st
    }
}

/// The state after the first `i` nodes.
pub open spec fn node_fold(nodes: Seq<(Seq<char>, Seq<char>)>, i: int) -> SectState
    decreases i,
{
    if i <= 0 {
        sect_init()
    } else {
        node_step(node_fold(nodes, i - 1), nodes[i - 1].0, nodes[i - 1].1)
    }
}

/// The sections the scope's nodes yield, capped at fifty.
pub open spec fn html_sections_of(nodes: Seq<(Seq<char>, Seq<char>)>) -> Seq<(
    int,
    Seq<char>,
    Seq<char>,
)> {
    cap_seq(flush_state(node_fold(nodes, nodes.len() as int)), 50)
}

/// Build sections from the scope's heading and paragraph nodes.
pub fn build_sections(nodes: &Vec<(String, String)>) -> (r: Vec<Section>)
    ensures
        r@.len() == html_sections_of(nodes_model(nodes@)).len(),
        forall|i: int|
            0 <= i < r@.len() ==> section_model(r@[i]) == html_sections_of(nodes_model(nodes@))[i],
        r@.len() <= 50,
        forall|i: int|
            0 <= i < r@.len() ==> r@[i].heading@.len() <= 200 && r@[i].content@.len() <= 10000,
{
    let ghost nd = nodes_model(nodes@);
    let mut acc: Vec<Section> = Vec::new();
    let mut opened: bool = false;
    let mut level: u8 = 1;
    let mut heading: Vec<char> = Vec::new();
    let mut content: Vec<char> = Vec::new();
    let mut li: usize = 0;
    proof {
        assert(Seq::new(acc@.len(), |x: int| section_model(acc@[x])) =~= Seq::<(
            int,
            Seq<char>,
            Seq<char>,
        )>::empty());
        assert(heading@ =~= Seq::<char>::empty());
        assert(content@ =~= Seq::<char>::empty());
        assert(node_fold(nd, 0) == (SectState {
            acc: Seq::new(acc@.len(), |x: int| section_model(acc@[x])),
            opened,
            level: level as int,
            heading: heading@,
            content: content@,
        }));
    }
    while li < nodes.len()
        invariant
            nd == nodes_model(nodes@),
            li <= nd.len(),
            nodes@.len() == nd.len(),
            1 <= level <= 6,
            node_fold(nd, li as int) == (SectState {
                acc: Seq::new(acc@.len(), |x: int| section_model(acc@[x])),
                opened,
                level: level as int,
                heading: heading@,
                content: content@,
            }),
            forall|x: int|
                0 <= x < acc@.len() ==> acc@[x].heading@.len() <= 200 && acc@[x].content@.len()
                    <= 10000,
        decreases nd.len() - li,
    {
        let ghost st = node_fold(nd, li as int);
        proof {
            assert(nd[li as int] == (nodes@[li as int].0@, nodes@[li as int].1@));
        }
        let lvl = tag_level(nodes[li].0.as_str());
        if lvl >= 1 {
            let tv = str_chars(nodes[li].1.as_str());
            let ht = trim_chars(&tv);
            flush_exec(&mut acc, opened, level, &heading, &content);
            opened = true;
            level = lvl;
            heading = ht;
            content = Vec::new();
        } else if str_eq(nodes[li].0.as_str(), "p") {
            let tv = str_chars(nodes[li].1.as_str());
            let tt = trim_chars(&tv);
            if tt.len() >= 3 {
                let piece = truncate_space_chars(&tt, 2000);
                if content.len() > 0 && content[content.len() - 1] != '\n' {
                    content.push(' ');
                    append_chars(&mut content, &piece);
                    proof {
                        assert(content@ =~= st.content + seq![' '] + truncate_space_spec(
                            trim_spec(nd[li as int].1),
                            2000,
                        ));
                    }
                } else {
                    append_chars(&mut content, &piece);
                }
            }
        }
        li += 1;
        proof {
            assert(node_fold(nd, li as int) == node_step(st, nd[li - 1].0, nd[li - 1].1));
            assert(node_fold(nd, li as int) == (SectState {
                acc: Seq::new(acc@.len(), |x: int| section_model(acc@[x])),
                opened,
                level: level as int,
                heading: heading@,
                content: content@,
            }));
        }
    }
    flush_exec(&mut acc, opened, level, &heading, &content);
    let ghost full = flush_state(node_fold(nd, nd.len() as int));
    let mut out: Vec<Section> = Vec::new();
    let mut t: usize = 0;
    while t < acc.len() && t < 50
        invariant
            t <= acc@.len(),
            t <= 50,
            acc@.len() == full.len(),
            forall|x: int| 0 <= x < acc@.len() ==> section_model(acc@[x]) == full[x],
            forall|x: int|
                0 <= x < acc@.len() ==> acc@[x].heading@.len() <= 200 && acc@[x].content@.len()
                    <= 10000,
            out@ == acc@.subrange(0, t as int),
        decreases acc@.len() - t,
    {
        let s = &acc[t];
        out.push(Section { level: s.level, heading: s.heading.clone(), content: s.content.clone() });
        t += 1;
        proof {
            assert(out@ =~= acc@.subrange(0, t as int));
        }
    }
    proof {
        if acc@.len() <= 50 {
            assert(acc@.subrange(0, acc@.len() as int) =~= acc@);
        }
        assert(forall|i: int| 0 <= i < out@.len() ==> out@[i] == acc@[i]);
    }
    out
}

/// The node selector scoped to the chosen content region.
pub open spec fn scoped_nodes_sel(scope: Seq<char>) -> Seq<char> {
    scope + " h1, "@ + scope + " h2, "@ + scope + " h3, "@ + scope + " h4, "@ + scope + " h5, "@
        + scope + " h6, "@ + scope + " p"@
}

/// Build the node selector for a scope.
fn make_nodes_sel(scope: &str) -> (r: String)
    ensures
        r@ == scoped_nodes_sel(scope@),
{
    let mut s = String::new();
    s.append(scope);
    s.append(" h1, ");
    s.append(scope);
    s.append(" h2, ");
    s.append(scope);
    s.append(" h3, ");
    s.append(scope);
    s.append(" h4, ");
    s.append(scope);
    s.append(" h5, ");
    s.append(scope);
    s.append(" h6, ");
    s.append(scope);
    s.append(" p");
    proof {
        assert(s@ =~= scoped_nodes_sel(scope@));
    }
    s
}

/// The anchor selector scoped to the chosen content region.
pub open spec fn scoped_anchors_sel(scope: Seq<char>) -> Seq<char> {
    scope + " a"@
}

/// Build the anchor selector for a scope.
fn make_anchors_sel(scope: &str) -> (r: String)
    ensures
        r@ == scoped_anchors_sel(scope@),
{
    let mut s = String::new();
    s.append(scope);
    s.append(" a");
    proof {
        assert(s@ =~= scoped_anchors_sel(scope@));
    }
    s
}

// ---------------------------------------------------------------------
// Fallback: a rendered-text section when the scope yields nothing.
// ---------------------------------------------------------------------

/// Trimmed non-blank lines, in order.
pub open spec fn nonblank_lines(ls: Seq<Seq<char>>) -> Seq<Seq<char>>
    decreases ls.len(),
{
    if ls.len() == 0 {
        Seq::empty()
    } else {
        let k = nonblank_lines(ls.drop_last());
        if trim_spec(ls.last()).len() > 0 {
            k + seq![trim_spec(ls.last())]
        } else {
            k
        }
    }
}

/// The fallback text: the rendering's non-blank lines, capped at one
/// hundred, joined with newlines.
pub open spec fn fallback_text_spec(html: Seq<char>) -> Seq<char> {
    match rendered_of(html, 120) {
        Some(r) => crate::codeblocks::join_nl(cap_seq(nonblank_lines(split_lines_spec(r)), 100)),
        None => Seq::empty(),
    }
}

/// The fallback section list: one `Content` section holding the fallback
/// text, or nothing when even that is blank.
pub open spec fn fallback_sections_spec(html: Seq<char>) -> Seq<(int, Seq<char>, Seq<char>)> {
    let t = fallback_text_spec(html);
    if t.len() > 0 {
        seq![(1int, "Content"@, crate::text::truncate_space_spec(t, 10000))]
    } else {
        Seq::empty()
    }
}

/// Render the fallback text of a document.
fn fallback_text(html: &str) -> (r: Vec<char>)
    ensures
        r@ == fallback_text_spec(html@),
{
    match render_plain(html, 120) {
        Some(rendered) => {
            let rv = str_chars(rendered.as_str());
            let lines = split_lines(&rv);
            let ghost ld = split_lines_spec(rv@);
            let mut kept: Vec<Vec<char>> = Vec::new();
            let mut i: usize = 0;
            while i < lines.len()
                invariant
                    lines@.len() == ld.len(),
                    forall|x: int| 0 <= x < ld.len() ==> lines@[x]@ == ld[x],
                    i <= ld.len(),
                    kept.deep_view() == nonblank_lines(ld.subrange(0, i as int)),
                decreases ld.len() - i,
            {
                let ghost pre = ld.subrange(0, i as int);
                let tt = trim_chars(&lines[i]);
                if tt.len() > 0 {
                    kept.push(tt);
                }
                i += 1;
                proof {
                    let post = ld.subrange(0, i as int);
                    assert(post.drop_last() =~= pre);
                    assert(kept.deep_view() =~~= nonblank_lines(post));
                }
            }
            proof {
                assert(ld.subrange(0, ld.len() as int) =~= ld);
            }
            let mut capped: Vec<Vec<char>> = Vec::new();
            let mut t: usize = 0;
            while t < kept.len() && t < 100
                invariant
                    t <= kept@.len(),
                    t <= 100,
                    capped.deep_view() == kept.deep_view().subrange(0, t as int),
                decreases kept@.len() - t,
            {
                let c = subrange_chars(&kept[t], 0, kept[t].len());
                proof {
                    assert(capped.deep_view().len() == capped@.len());
                    assert(capped@.len() == t);
                    crate::urls::lemma_deep_view_index(&kept, t as int);
                    assert(c@ =~= kept@[t as int]@);
                }
                capped.push(c);
                t += 1;
                proof {
                    assert(capped.deep_view().len() == capped@.len());
                    assert(capped@.len() == t);
                    let post = kept.deep_view().subrange(0, t as int);
                    assert forall|k: int|
                        0 <= k < post.len() implies capped.deep_view()[k] == post[k] by {
                        crate::urls::lemma_deep_view_index(&capped, k);
                        crate::urls::lemma_deep_view_index(&kept, k);
                    };
                    assert(capped.deep_view() =~= post);
                }
            }
            proof {
                if kept.deep_view().len() <= 100 {
                    assert(kept.deep_view().subrange(0, kept.deep_view().len() as int)
                        =~= kept.deep_view());
                }
            }
            crate::codeblocks::join_nl_exec(&capped)
        },
        None => Vec::new(),
    }
}

// ---------------------------------------------------------------------
// Code blocks from the scope's preformatted elements.
// ---------------------------------------------------------------------

/// The first position at or after `i` where the pattern occurs.
pub open spec fn first_at(s: Seq<char>, pat: Seq<char>, i: int) -> Option<int>
    decreases s.len() + 1 - i,
{
    if i < 0 || i > s.len() - pat.len() {
        None
    } else if matches_at(s, pat, i) {
        Some(i)
    } else {
        first_at(s, pat, i + 1)
    }
}

/// The language named by a class value: the token after a `language-` or
/// `lang-` mark, up to the next space.
pub open spec fn lang_from_class(c: Option<Seq<char>>) -> Option<Seq<char>> {
    match c {
        None => None,
        Some(cl) => match first_at(cl, "language-"@, 0) {
            Some(i) => Some(cl.subrange(i + 9, crate::scan::scan_to(cl, i + 9, ' '))),
            None => match first_at(cl, "lang-"@, 0) {
                Some(i) => Some(cl.subrange(i + 5, crate::scan::scan_to(cl, i + 5, ' '))),
                None => None,
            },
        },
    }
}

/// Find the first occurrence of the pattern.
fn first_at_exec(v: &Vec<char>, pat: &Vec<char>) -> (r: Option<usize>)
    ensures
        match r {
            Some(i) => first_at(v@, pat@, 0) == Some(i as int) && matches_at(v@, pat@, i as int),
            None => first_at(v@, pat@, 0) is None,
        },
{
    let n = v.len();
    if pat.len() > n {
        return None;
    }
    if pat.len() == 0 {
        proof {
            assert(v@.subrange(0, 0) =~= pat@);
        }
        return Some(0);
    }
    let last = n - pat.len();
    let mut i: usize = 0;
    while i <= last
        invariant
            n == v@.len(),
            1 <= pat@.len() <= n,
            last == n - pat@.len(),
            i <= last + 1,
            first_at(v@, pat@, 0) == first_at(v@, pat@, i as int),
        decreases last + 1 - i,
    {
        if matches_at_exec(v, pat, i) {
            return Some(i);
        }
        i += 1;
    }
    None
}

/// Read the language mark off a class value.
fn lang_of_class(c: &Option<String>) -> (r: Option<String>)
    ensures
        match r {
            Some(l) => lang_from_class(
                match c {
                    Some(cl) => Some(cl@),
                    None => None,
                },
            ) == Some(l@),
            None => lang_from_class(
                match c {
                    Some(cl) => Some(cl@),
                    None => None,
                },
            ) is None,
        },
{
    match c {
        None => None,
        Some(cl) => {
            let cv = str_chars(cl.as_str());
            let lpat = str_chars("language-");
            match first_at_exec(&cv, &lpat) {
                Some(i) => {
                    let cn = cv.len();
                    proof {
                        reveal_strlit("language-");
                        assert(matches_at(cv@, "language-"@, i as int));
                        assert(i + 9 <= cn);
                    }
                    let e = crate::scan::scan_to_exec(&cv, i + 9, ' ');
                    Some(chars_to_string(&subrange_chars(&cv, i + 9, e)))
                },
                None => {
                    let spat = str_chars("lang-");
                    match first_at_exec(&cv, &spat) {
                        Some(i) => {
                            let cn = cv.len();
                            proof {
                                reveal_strlit("lang-");
                                assert(matches_at(cv@, "lang-"@, i as int));
                                assert(i + 5 <= cn);
                            }
                            let e = crate::scan::scan_to_exec(&cv, i + 5, ' ');
                            Some(chars_to_string(&subrange_chars(&cv, i + 5, e)))
                        },
                        None => None,
                    }
                },
            }
        },
    }
}

/// The sources of the kept blocks.
pub open spec fn block_sources(ls: Seq<(Option<Seq<char>>, Seq<char>)>) -> Seq<Seq<char>> {
    Seq::new(ls.len(), |x: int| ls[x].1)
}

/// The code blocks gathered from the preformatted elements, in order: a
/// trimmed text of at least ten characters is kept, cut to 5000, unless
/// its source was already kept or twenty blocks were.
pub open spec fn code_acc(blocks: Seq<(Option<Seq<char>>, Seq<char>)>) -> Seq<(
    Option<Seq<char>>,
    Seq<char>,
)>
    decreases blocks.len(),
{
    if blocks.len() == 0 {
        Seq::empty()
    } else {
        let k = code_acc(blocks.drop_last());
        let t = trim_spec(blocks.last().1);
        let cut = truncate_spec(t, 5000);
        if t.len() >= 10 && !block_sources(k).contains(cut) && k.len() < 20 {
            k + seq![(lang_from_class(blocks.last().0), cut)]
        } else {
            k
        }
    }
}

/// Gather the code blocks of the scope's preformatted elements.
pub fn build_code(blocks: &Vec<(Option<String>, String)>) -> (r: Vec<CodeBlock>)
    ensures
        r@.len() == code_acc(classed_model(blocks@)).len(),
        forall|i: int|
            0 <= i < r@.len() ==> crate::codeblocks::code_model(r@[i]) == code_acc(
                classed_model(blocks@),
            )[i],
        r@.len() <= 20,
{
    let ghost bs = classed_model(blocks@);
    let mut out: Vec<CodeBlock> = Vec::new();
    let mut i: usize = 0;
    proof {
        assert(bs.subrange(0, 0) =~= Seq::<(Option<Seq<char>>, Seq<char>)>::empty());
    }
    while i < blocks.len()
        invariant
            bs == classed_model(blocks@),
            i <= blocks@.len(),
            out@.len() == code_acc(bs.subrange(0, i as int)).len(),
            out@.len() <= 20,
            forall|x: int|
                0 <= x < out@.len() ==> crate::codeblocks::code_model(out@[x]) == code_acc(
                    bs.subrange(0, i as int),
                )[x],
        decreases blocks@.len() - i,
    {
        let ghost pre = bs.subrange(0, i as int);
        proof {
            assert(bs[i as int] == (
                match blocks@[i as int].0 {
                    Some(c) => Some(c@),
                    None => None,
                },
                blocks@[i as int].1@,
            ));
        }
        let tv = str_chars(blocks[i].1.as_str());
        let tt = trim_chars(&tv);
        if tt.len() >= 10 && out.len() < 20 {
            let cut = truncate_chars(&tt, 5000);
            let mut seen: bool = false;
            let mut k: usize = 0;
            while k < out.len() && !seen
                invariant
                    k <= out@.len(),
                    out@.len() == code_acc(pre).len(),
                    forall|x: int|
                        0 <= x < out@.len() ==> crate::codeblocks::code_model(out@[x]) == code_acc(
                            pre,
                        )[x],
                    cut@ == truncate_spec(trim_spec(bs[i as int].1), 5000),
                    seen ==> block_sources(code_acc(pre)).contains(cut@),
                    !seen ==> forall|x: int| 0 <= x < k ==> code_acc(pre)[x].1 != cut@,
                decreases out@.len() - k + (if seen {
                    0int
                } else {
                    1int
                }),
            {
                let ov = str_chars(out[k].source.as_str());
                if chars_eq(&ov, &cut) {
                    proof {
                        assert(code_acc(pre)[k as int].1 == cut@);
                        assert(block_sources(code_acc(pre))[k as int] == cut@);
                    }
                    seen = true;
                } else {
                    k += 1;
                }
            }
            proof {
                if !seen {
                    assert(!block_sources(code_acc(pre)).contains(cut@)) by {
                        if block_sources(code_acc(pre)).contains(cut@) {
                            let acc = code_acc(pre);
                            let x = choose|x: int|
                                0 <= x < block_sources(acc).len() && block_sources(acc)[x] == cut@;
                            assert(acc[x].1 == cut@);
                        }
                    }
                }
            }
            if !seen {
                let lang = lang_of_class(&blocks[i].0);
                out.push(CodeBlock { lang, source: chars_to_string(&cut) });
            }
        }
        i += 1;
        proof {
            let post = bs.subrange(0, i as int);
            assert(post.drop_last() =~= pre);
            assert(post.last() == bs[i - 1]);
            assert(out@.len() == code_acc(post).len());
            assert(forall|x: int|
                0 <= x < out@.len() ==> crate::codeblocks::code_model(out@[x]) == code_acc(
                    post,
                )[x]);
        }
    }
    proof {
        assert(bs.subrange(0, bs.len() as int) =~= bs);
    }
    out
}


// ---------------------------------------------------------------------
// Page assembly.
// ---------------------------------------------------------------------

/// The extracted record of one fetched page.
pub struct ExtractedPage {
    pub url: String,
    pub classification: Status,
    pub title: Option<String>,
    pub site: Option<String>,
    pub author: Option<String>,
    pub date: Option<String>,
    pub doi: Option<String>,
    pub sections: Vec<Section>,
    pub links: Vec<Link>,
    pub code: Vec<CodeBlock>,
    pub alerts: Vec<String>,
    pub chars: usize,
}

/// The character count of a section list: heading and content lengths
/// summed over every section.
pub open spec fn sections_char_sum(ms: Seq<(int, Seq<char>, Seq<char>)>) -> int
    decreases ms.len(),
{
    if ms.len() == 0 {
        0
    } else {
        sections_char_sum(ms.drop_last()) + ms.last().1.len() + ms.last().2.len()
    }
}

/// Sum the heading and content lengths of the sections.
pub fn char_count(sections: &Vec<Section>) -> (r: usize)
    requires
        sections@.len() <= 50,
        forall|i: int|
            0 <= i < sections@.len() ==> sections@[i].heading@.len() <= 200
                && sections@[i].content@.len() <= 10000,
    ensures
        r == sections_char_sum(Seq::new(sections@.len(), |x: int| section_model(sections@[x]))),
{
    let ghost ms = Seq::new(sections@.len(), |x: int| section_model(sections@[x]));
    let mut sum: usize = 0;
    let mut i: usize = 0;
    proof {
        assert(ms.subrange(0, 0) =~= Seq::<(int, Seq<char>, Seq<char>)>::empty());
    }
    while i < sections.len()
        invariant
            sections@.len() <= 50,
            forall|x: int|
                0 <= x < sections@.len() ==> sections@[x].heading@.len() <= 200
                    && sections@[x].content@.len() <= 10000,
            ms == Seq::new(sections@.len(), |x: int| section_model(sections@[x])),
            i <= sections@.len(),
            sum == sections_char_sum(ms.subrange(0, i as int)),
            sum <= i * 10200,
        decreases sections@.len() - i,
    {
        let ghost pre = ms.subrange(0, i as int);
        let h = sections[i].heading.as_str().unicode_len();
        let c = sections[i].content.as_str().unicode_len();
        proof {
            assert(ms[i as int] == section_model(sections@[i as int]));
        }
        sum = sum + h + c;
        i += 1;
        proof {
            assert(ms.subrange(0, i as int).drop_last() =~= pre);
            assert(sum <= i * 10200) by (nonlinear_arith)
                requires
                    sum <= (i - 1) * 10200 + 10200,
                    i >= 1,
            ;
        }
    }
    proof {
        assert(ms.subrange(0, ms.len() as int) =~= ms);
    }
    sum
}

/// The sections a page yields: the nodes of the chosen content scope, or
/// the rendered-text fallback when the scope yields none.
pub open spec fn page_sections_spec(html: Seq<char>) -> Seq<(int, Seq<char>, Seq<char>)> {
    match scope_choice(html) {
        Some(scope) => {
            let secs = html_sections_of(sel_nodes_of(html, scoped_nodes_sel(scope)));
            if secs.len() > 0 {
                secs
            } else {
                fallback_sections_spec(html)
            }
        },
        None => fallback_sections_spec(html),
    }
}

/// The links a page yields: the scope's anchors, or the whole document's
/// when no scope was chosen, resolved and de-duplicated.
pub open spec fn page_links_spec(html: Seq<char>, base: Seq<char>) -> Seq<(Seq<char>, Seq<char>)> {
    let sel = match scope_choice(html) {
        Some(scope) => scoped_anchors_sel(scope),
        None => "a"@,
    };
    cap_seq(links_acc(base, sel_anchors_of(html, sel)), 50)
}

/// The code blocks a page yields: `pre > code` elements when any match,
/// plain `pre` elements otherwise.
pub open spec fn page_code_spec(html: Seq<char>) -> Seq<(Option<Seq<char>>, Seq<char>)> {
    let pc = sel_code_of(html, "pre > code"@);
    if pc.len() > 0 {
        code_acc(pc)
    } else {
        code_acc(sel_code_of(html, "pre"@))
    }
}

/// Build the section list of a page.
pub fn page_sections(html: &str) -> (r: Vec<Section>)
    ensures
        r@.len() == page_sections_spec(html@).len(),
        forall|i: int|
            0 <= i < r@.len() ==> section_model(r@[i]) == page_sections_spec(html@)[i],
        r@.len() <= 50,
        forall|i: int|
            0 <= i < r@.len() ==> r@[i].heading@.len() <= 200 && r@[i].content@.len() <= 10000,
{
    let scope = choose_scope(html);
    match scope {
        Some(sel) => {
            let nsel = make_nodes_sel(sel);
            let nodes = select_nodes(html, nsel.as_str());
            let secs = build_sections(&nodes);
            if secs.len() > 0 {
                secs
            } else {
                fallback_section_vec(html)
            }
        },
        None => fallback_section_vec(html),
    }
}

/// The fallback section list as a vector.
fn fallback_section_vec(html: &str) -> (r: Vec<Section>)
    ensures
        r@.len() == fallback_sections_spec(html@).len(),
        forall|i: int|
            0 <= i < r@.len() ==> section_model(r@[i]) == fallback_sections_spec(html@)[i],
        r@.len() <= 1,
        forall|i: int|
            0 <= i < r@.len() ==> r@[i].heading@.len() <= 200 && r@[i].content@.len() <= 10000,
{
    let text = fallback_text(html);
    let mut out: Vec<Section> = Vec::new();
    if text.len() > 0 {
        let cut = crate::text::truncate_space_chars(&text, 10000);
        proof {
            lemma_truncate_space_len(text@, 10000);
            reveal_strlit("Content");
        }
        out.push(
            Section { level: 1, heading: "Content".to_owned(), content: chars_to_string(&cut) },
        );
    }
    out
}

/// Extract the full structured record of a reachable page.
pub fn extract_page(url: &str, classification: Status, html: &str) -> (r: ExtractedPage)
    ensures
        r.url@ == url@,
        r.classification == classification,
        match r.title {
            Some(t) => page_title_spec(html@) == Some(t@),
            None => page_title_spec(html@) is None,
        },
        match r.site {
            Some(t) => page_site_spec(html@) == Some(t@),
            None => page_site_spec(html@) is None,
        },
        match r.author {
            Some(t) => page_author_spec(html@) == Some(t@),
            None => page_author_spec(html@) is None,
        },
        match r.date {
            Some(t) => page_date_spec(html@) == Some(t@),
            None => page_date_spec(html@) is None,
        },
        match r.doi {
            Some(t) => page_doi_spec(html@) == Some(t@),
            None => page_doi_spec(html@) is None,
        },
        r.sections@.len() == page_sections_spec(html@).len(),
        forall|i: int|
            0 <= i < r.sections@.len() ==> section_model(r.sections@[i]) == page_sections_spec(
                html@,
            )[i],
        r.links@.len() == page_links_spec(html@, url@).len(),
        forall|i: int|
            0 <= i < r.links@.len() ==> link_model(r.links@[i]) == page_links_spec(html@, url@)[i],
        r.code@.len() == page_code_spec(html@).len(),
        forall|i: int|
            0 <= i < r.code@.len() ==> crate::codeblocks::code_model(r.code@[i]) == page_code_spec(
                html@,
            )[i],
        r.alerts@.len() == 0,
        r.chars == sections_char_sum(
            Seq::new(r.sections@.len(), |x: int| section_model(r.sections@[x])),
        ),
{
    let sections = page_sections(html);
    let scope = choose_scope(html);
    let anchors = match scope {
        Some(sel) => {
            let asel = make_anchors_sel(sel);
            select_anchors(html, asel.as_str())
        },
        None => select_anchors(html, "a"),
    };
    let links = build_links(url, &anchors);
    let pc = select_code(html, "pre > code");
    let code = if pc.len() > 0 {
        proof {
            assert(classed_model(pc@).len() == pc@.len());
        }
        build_code(&pc)
    } else {
        proof {
            assert(classed_model(pc@).len() == pc@.len());
        }
        let pp = select_code(html, "pre");
        build_code(&pp)
    };
    let chars = char_count(&sections);
    ExtractedPage {
        url: url.to_owned(),
        classification,
        title: page_title(html),
        site: page_site(html),
        author: page_author(html),
        date: page_date(html),
        doi: page_doi(html),
        sections,
        links,
        code,
        alerts: Vec::new(),
        chars,
    }
}

/// The failure record for a page that could not be fetched or read: the
/// classification is Dead, the diagnostic is the only alert, and every
/// other part is empty.
pub fn error_page(url: &str, error: &str) -> (r: ExtractedPage)
    ensures
        r.url@ == url@,
        r.classification == Status::Dead,
        r.title is None && r.site is None && r.author is None && r.date is None && r.doi is None,
        r.sections@.len() == 0,
        r.links@.len() == 0,
        r.code@.len() == 0,
        r.alerts@.len() == 1 && r.alerts@[0]@ == error@,
        r.chars == 0,
{
    let mut alerts: Vec<String> = Vec::new();
    alerts.push(error.to_owned());
    ExtractedPage {
        url: url.to_owned(),
        classification: Status::Dead,
        title: None,
        site: None,
        author: None,
        date: None,
        doi: None,
        sections: Vec::new(),
        links: Vec::new(),
        code: Vec::new(),
        alerts,
        chars: 0,
    }
}

} // verus!


