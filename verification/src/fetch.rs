//! The compact fetch record: title, description, headings, and a plain
//! text rendering of a fetched page.

use vstd::prelude::*;
use crate::text::{
    trim_spec, trim_chars, str_chars, chars_to_string, subrange_chars, cap_seq, split_lines_spec,
    split_lines,
};
use crate::html::{sel_attr_of, sel_nodes_of, rendered_of, page_title_spec, page_title};
use crate::codeblocks::{join_nl, join_nl_exec};

verus! {

/// The compact record of one fetched page.
pub struct Page {
    pub url: String,
    pub ok: bool,
    pub err: Option<String>,
    pub title: Option<String>,
    pub desc: Option<String>,
    pub text: Option<String>,
    pub h: Vec<String>,
    pub len: usize,
}

/// The description: the description meta tag, then the social-graph one.
pub open spec fn page_desc_spec(html: Seq<char>) -> Option<Seq<char>> {
    match sel_attr_of(html, "meta[name='description']"@, "content"@) {
        Some(t) => Some(t),
        None => sel_attr_of(html, "meta[property='og:description']"@, "content"@),
    }
}

/// Extract the description.
pub fn page_desc(html: &str) -> (r: Option<String>)
    ensures
        match r {
            Some(t) => page_desc_spec(html@) == Some(t@),
            None => page_desc_spec(html@) is None,
        },
{
    match crate::html::select_first_attr(html, "meta[name='description']", "content") {
        Some(t) => Some(t),
        None => crate::html::select_first_attr(html, "meta[property='og:description']", "content"),
    }
}

/// The trimmed texts of the first ten matches that are non-empty and
/// under two hundred characters.
pub open spec fn heads_filter(ns: Seq<(Seq<char>, Seq<char>)>) -> Seq<Seq<char>>
    decreases ns.len(),
{
    if ns.len() == 0 {
        Seq::empty()
    } else {
        let k = heads_filter(ns.drop_last());
        let t = trim_spec(ns.last().1);
        if t.len() > 0 && t.len() < 200 {
            k + seq![t]
        } else {
            k
        }
    }
}

/// The heading list of a page: the first ten kept headings of each level
/// one to three, in level order, capped at twenty.
pub open spec fn headings_spec(html: Seq<char>) -> Seq<Seq<char>> {
    cap_seq(
        heads_filter(cap_seq(sel_nodes_of(html, "h1"@), 10)) + heads_filter(
            cap_seq(sel_nodes_of(html, "h2"@), 10),
        ) + heads_filter(cap_seq(sel_nodes_of(html, "h3"@), 10)),
        20,
    )
}

/// Keep the first ten matches' trimmed texts that pass the filter.
fn heads_of(nodes: &Vec<(String, String)>) -> (r: Vec<String>)
    ensures
        r.deep_view() == heads_filter(cap_seq(crate::html::nodes_model(nodes@), 10)),
{
    let ghost ns = cap_seq(crate::html::nodes_model(nodes@), 10);
    let mut out: Vec<String> = Vec::new();
    let mut i: usize = 0;
    proof {
        assert(ns.subrange(0, 0) =~= Seq::<(Seq<char>, Seq<char>)>::empty());
    }
    while i < nodes.len() && i < 10
        invariant
            i <= nodes@.len(),
            i <= 10,
            ns == cap_seq(crate::html::nodes_model(nodes@), 10),
            i <= ns.len(),
            out.deep_view() == heads_filter(ns.subrange(0, i as int)),
        decreases nodes@.len() - i,
    {
        let ghost pre = ns.subrange(0, i as int);
        proof {
            assert(ns[i as int] == (nodes@[i as int].0@, nodes@[i as int].1@));
        }
        let tv = str_chars(nodes[i].1.as_str());
        let tt = trim_chars(&tv);
        if tt.len() > 0 && tt.len() < 200 {
            out.push(chars_to_string(&tt));
        }
        i += 1;
        proof {
            let post = ns.subrange(0, i as int);
            assert(post.drop_last() =~= pre);
            assert(out.deep_view() =~~= heads_filter(post));
        }
    }
    proof {
        if nodes@.len() <= 10 {
            assert(ns.subrange(0, ns.len() as int) =~= ns);
        } else {
            assert(ns.subrange(0, 10) =~= ns);
        }
    }
    out
}

/// Extract the heading list of a page.
pub fn extract_headings(html: &str) -> (r: Vec<String>)
    ensures
        r.deep_view() == headings_spec(html@),
{
    let n1 = crate::html::select_nodes(html, "h1");
    let n2 = crate::html::select_nodes(html, "h2");
    let n3 = crate::html::select_nodes(html, "h3");
    let h1 = heads_of(&n1);
    let h2 = heads_of(&n2);
    let h3 = heads_of(&n3);
    let mut all: Vec<String> = Vec::new();
    crate::urls::append_string_vec(&mut all, &h1);
    crate::urls::append_string_vec(&mut all, &h2);
    crate::urls::append_string_vec(&mut all, &h3);
    proof {
        assert(all.deep_view() =~= h1.deep_view() + h2.deep_view() + h3.deep_view());
    }
    let capped = crate::urls::cap_string_vec(&all, 20);
    capped
}

/// Lines of at least three characters once trimmed, in order.
pub open spec fn kept_lines(ls: Seq<Seq<char>>) -> Seq<Seq<char>>
    decreases ls.len(),
{
    if ls.len() == 0 {
        Seq::empty()
    } else {
        let k = kept_lines(ls.drop_last());
        let t = trim_spec(ls.last());
        if t.len() > 2 {
            k + seq![t]
        } else {
            k
        }
    }
}

/// The plain text of a page: the rendering's kept lines joined, `None`
/// when nothing is left; a text over the budget is cut there with a
/// truncation mark appended.
pub open spec fn page_text_spec(html: Seq<char>, max_chars: int) -> Option<Seq<char>> {
    match rendered_of(html, 120) {
        Some(r) => {
            let text = join_nl(kept_lines(split_lines_spec(r)));
            if text.len() == 0 {
                None
            } else if max_chars > 0 && text.len() > max_chars {
                Some(text.subrange(0, max_chars) + "...[truncated]"@)
            } else {
                Some(text)
            }
        },
        None => None,
    }
}

/// Extract the plain text of a page.
pub fn extract_text(html: &str, max_chars: usize) -> (r: Option<String>)
    ensures
        match r {
            Some(t) => page_text_spec(html@, max_chars as int) == Some(t@),
            None => page_text_spec(html@, max_chars as int) is None,
        },
{
    match crate::html::render_plain(html, 120) {
        Some(rendered) => {
            let rv = str_chars(rendered.as_str());
            let lines = split_lines(&rv);
            let ghost ld = split_lines_spec(rv@);
            let mut kept: Vec<Vec<char>> = Vec::new();
            let mut i: usize = 0;
            while i < lines.len()
                invariant
                    lines@.len() == ld.len(),
                    forall|x: int| 0 <= x < ld.len() ==> lines@[x]@ == ld[x],
                    i <= ld.len(),
                    kept.deep_view() == kept_lines(ld.subrange(0, i as int)),
                decreases ld.len() - i,
            {
                let ghost pre = ld.subrange(0, i as int);
                let tt = trim_chars(&lines[i]);
                if tt.len() > 2 {
                    kept.push(tt);
                }
                i += 1;
                proof {
                    let post = ld.subrange(0, i as int);
                    assert(post.drop_last() =~= pre);
                    assert(kept.deep_view() =~~= kept_lines(post));
                }
            }
            proof {
                assert(ld.subrange(0, ld.len() as int) =~= ld);
            }
            let text = join_nl_exec(&kept);
            if text.len() == 0 {
                None
            } else if max_chars > 0 && text.len() > max_chars {
                let mut cut = subrange_chars(&text, 0, max_chars);
                crate::text::append_str_chars(&mut cut, "...[truncated]");
                Some(chars_to_string(&cut))
            } else {
                Some(chars_to_string(&text))
            }
        },
        None => None,
    }
}

/// Parse a fetched page into its compact record.
pub fn parse(html: &str, url: &str, max_chars: usize) -> (r: Page)
    ensures
        r.url@ == url@,
        r.ok,
        r.err is None,
        match r.title {
            Some(t) => page_title_spec(html@) == Some(t@),
            None => page_title_spec(html@) is None,
        },
        match r.desc {
            Some(t) => page_desc_spec(html@) == Some(t@),
            None => page_desc_spec(html@) is None,
        },
        match r.text {
            Some(t) => page_text_spec(html@, max_chars as int) == Some(t@) && r.len == t@.len(),
            None => page_text_spec(html@, max_chars as int) is None && r.len == 0,
        },
        r.h.deep_view() == headings_spec(html@),
{
    let title = page_title(html);
    let desc = page_desc(html);
    let h = extract_headings(html);
    let text = extract_text(html, max_chars);
    let len: usize = match &text {
        Some(t) => t.as_str().unicode_len(),
        None => 0,
    };
    Page { url: url.to_owned(), ok: true, err: None, title, desc, text, h, len }
}

/// The failure record for a URL whose fetch failed before any content was
/// read.
pub fn page_failure(url: &str, err: &str, title: Option<String>) -> (r: Page)
    ensures
        r.url@ == url@,
        !r.ok,
        match r.err {
            Some(e) => e@ == err@,
            None => false,
        },
        r.title == title,
        r.desc is None && r.text is None,
        r.h@.len() == 0,
        r.len == 0,
{
    Page {
        url: url.to_owned(),
        ok: false,
        err: Some(err.to_owned()),
        title,
        desc: None,
        text: None,
        h: Vec::new(),
        len: 0,
    }
}

/// How many pages of a run are marked fetched.
pub open spec fn ok_count(s: Seq<Page>) -> int
    decreases s.len(),
{
    if s.len() == 0 {
        0
    } else {
        ok_count(s.drop_last()) + if s.last().ok {
            1int
        } else {
            0int
        }
    }
}

/// The wrapper over a whole fetch run.
pub struct FetchResults {
    pub pages: Vec<Page>,
    pub total: usize,
    pub ok: usize,
    pub failed: usize,
}

/// Wrap a run's pages into its result record.
pub fn fetch_results(pages: Vec<Page>, total: usize) -> (r: FetchResults)
    ensures
        r.total == total,
        r.ok == ok_count(pages@),
        r.ok + r.failed == pages@.len(),
        r.pages == pages,
{
    let mut ok: usize = 0;
    let mut i: usize = 0;
    while i < pages.len()
        invariant
            i <= pages@.len(),
            ok == ok_count(pages@.subrange(0, i as int)),
            ok <= i,
        decreases pages@.len() - i,
    {
        let ghost pre = pages@.subrange(0, i as int);
        if pages[i].ok {
            ok += 1;
        }
        i += 1;
        proof {
            assert(pages@.subrange(0, i as int).drop_last() =~= pre);
        }
    }
    proof {
        assert(pages@.subrange(0, pages@.len() as int) =~= pages@);
    }
    let failed = pages.len() - ok;
    FetchResults { pages, total, ok, failed }
}

} // verus!
