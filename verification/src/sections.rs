//! Section segmentation of plain text: heading lines open sections,
//! paragraph lines fill them, and fixed budgets cap every part.
//!
//! Headings are recognized by a fixed table of text patterns: a run of `#`
//! marks, a `Chapter`/`Section`/`Part` label followed by a number, or a
//! line dominated by upper-case letters.

use vstd::prelude::*;
use crate::text::{
    trim_spec, trim_chars, truncate_spec, truncate_chars, truncate_space_spec,
    truncate_space_chars, split_lines_spec, split_lines, str_chars, chars_to_string,
    subrange_chars, append_chars, append_str_chars, matches_at, matches_at_exec, cap_seq,
};
use crate::extract::{space_end, space_end_exec};

verus! {

/// An upper-case ASCII letter.
pub open spec fn is_upper(c: char) -> bool {
    'A' <= c && c <= 'Z'
}

/// An ASCII digit.
pub open spec fn is_digit(c: char) -> bool {
    '0' <= c && c <= '9'
}

/// How many upper-case letters the text holds.
pub open spec fn upper_count(s: Seq<char>) -> int
    decreases s.len(),
{
    if s.len() == 0 {
        0
    } else {
        upper_count(s.drop_last()) + if is_upper(s.last()) {
            1int
        } else {
            0int
        }
    }
}

/// The end of the `#` run that begins the line.
pub open spec fn hash_end(s: Seq<char>, i: int) -> int
    decreases s.len() - i,
{
    if i < 0 {
        0
    } else if i >= s.len() || s[i] != '#' {
        i
    } else {
        hash_end(s, i + 1)
    }
}

/// The end of the run of digits and dots that begins the line.
pub open spec fn numdot_end(s: Seq<char>, i: int) -> int
    decreases s.len() - i,
{
    if i < 0 {
        0
    } else if i >= s.len() || !(is_digit(s[i]) || s[i] == '.') {
        i
    } else {
        numdot_end(s, i + 1)
    }
}

/// How many dots the text holds.
pub open spec fn dot_count(s: Seq<char>) -> int
    decreases s.len(),
{
    if s.len() == 0 {
        0
    } else {
        dot_count(s.drop_last()) + if s.last() == '.' {
            1int
        } else {
            0int
        }
    }
}

/// A `#`-marked heading: one to six marks, a space, and a non-blank rest.
pub open spec fn is_md_heading(t: Seq<char>) -> bool {
    let k = hash_end(t, 0);
    1 <= k <= 6 && k < t.len() && t[k] == ' ' && trim_spec(t.subrange(k, t.len() as int)).len()
        > 0
}

/// The text of a `#`-marked heading: everything after the marks, trimmed.
pub open spec fn md_heading_text(t: Seq<char>) -> Seq<char> {
    trim_spec(t.subrange(hash_end(t, 0), t.len() as int))
}

/// The length of a `Chapter`/`Section`/`Part` label opening the line, or
/// `-1` when none does.
pub open spec fn chapter_prefix_len(t: Seq<char>) -> int {
    if matches_at(t, "Chapter"@, 0) {
        7
    } else if matches_at(t, "Section"@, 0) {
        7
    } else if matches_at(t, "Part"@, 0) {
        4
    } else {
        -1
    }
}

/// A numbered heading: a chapter-like label, whitespace, and a digit.
pub open spec fn is_chapter_heading(t: Seq<char>) -> bool {
    let p = chapter_prefix_len(t);
    p > 0 && {
        let sp = space_end(t, p);
        sp > p && sp < t.len() && is_digit(t[sp])
    }
}

/// An upper-case-run heading: a short line more than half of whose
/// characters are upper-case letters.
pub open spec fn is_upper_heading(t: Seq<char>) -> bool {
    3 < t.len() && t.len() < 100 && 2 * upper_count(t) > t.len()
}

/// Whether the trimmed line is a heading.
pub open spec fn is_heading_line(t: Seq<char>) -> bool {
    is_md_heading(t) || is_chapter_heading(t) || is_upper_heading(t)
}

/// The level a heading line opens: the number of `#` marks, or one more
/// than the dots of its leading numbering, capped at six.
pub open spec fn heading_level(t: Seq<char>) -> int {
    if is_md_heading(t) {
        hash_end(t, 0)
    } else if t.len() > 0 && is_digit(t[0]) {
        let d = dot_count(t.subrange(0, numdot_end(t, 0))) + 1;
        if d > 6 {
            6
        } else {
            d
        }
    } else {
        1
    }
}

/// The heading text a heading line carries.
pub open spec fn heading_text(t: Seq<char>) -> Seq<char> {
    if is_md_heading(t) {
        md_heading_text(t)
    } else {
        t
    }
}

/// One section: a heading with its level, and the paragraph text gathered
/// under it.
pub struct Section {
    /// Heading level, 1 to 6.
    pub level: u8,
    /// Heading text, at most 200 characters.
    pub heading: String,
    /// Gathered content, at most 10000 characters.
    pub content: String,
}

/// The spec-level image of a `Section`.
pub open spec fn section_model(s: Section) -> (int, Seq<char>, Seq<char>) {
    (s.level as int, s.heading@, s.content@)
}

/// The walker's state: finished sections, whether a heading is open, and
/// the open section's level, heading, and gathered content.
pub struct SectState {
    pub acc: Seq<(int, Seq<char>, Seq<char>)>,
    pub opened: bool,
    pub level: int,
    pub heading: Seq<char>,
    pub content: Seq<char>,
}

/// The state before any line is read.
pub open spec fn sect_init() -> SectState {
    SectState { acc: Seq::empty(), opened: false, level: 1, heading: Seq::empty(), content: Seq::empty() }
}

/// Close the open section: its heading is cut to 200 characters, its
/// trimmed content to 10000 preferring a space near the cut.  Content
/// gathered before any heading goes under a section of its own.
pub open spec fn flush_state(st: SectState) -> Seq<(int, Seq<char>, Seq<char>)> {
    let tc = trim_spec(st.content);
    if st.opened {
        st.acc + seq![
            (st.level, truncate_spec(st.heading, 200), truncate_space_spec(tc, 10000)),
        ]
    } else if tc.len() > 0 {
        st.acc + seq![(1int, "Content"@, truncate_space_spec(tc, 10000))]
    } else {
        st.acc
    }
}

/// Read one line: a blank line marks a paragraph break, a heading line
/// flushes the open section and opens a new one, and any other line of at
/// least three characters joins the open content, cut to 2000 characters.
pub open spec fn sect_step(st: SectState, line: Seq<char>) -> SectState {
    let t = trim_spec(line);
    if t.len() == 0 {
        if st.content.len() > 0 {
            SectState { content: st.content + "\n\n"@, ..st }
        } else {
            st
        }
    } else if is_heading_line(t) {
        SectState {
            acc: flush_state(st),
            opened: true,
            level: heading_level(t),
            heading: heading_text(t),
            content: Seq::empty(),
        }
    } else if t.len() < 3 {
        st
    } else {
        let piece = truncate_space_spec(t, 2000);
        let joined = if st.content.len() > 0 && st.content.last() != '\n' {
            st.content + seq![' '] + piece
        } else {
            st.content + piece
        };
        SectState { content: joined, ..st }
    }
}

/// The state after the first `i` lines.
pub open spec fn sect_fold(lines: Seq<Seq<char>>, i: int) -> SectState
    decreases i,
{
    if i <= 0 {
        sect_init()
    } else {
        sect_step(sect_fold(lines, i - 1), lines[i - 1])
    }
}

/// The sections of a text: every line read in order, the final section
/// flushed, and the list capped at fifty.
pub open spec fn sections_spec(text: Seq<char>) -> Seq<(int, Seq<char>, Seq<char>)> {
    let lines = split_lines_spec(text);
    cap_seq(flush_state(sect_fold(lines, lines.len() as int)), 50)
}

/// How many upper-case letters the vector holds.
fn upper_count_exec(t: &Vec<char>) -> (r: usize)
    ensures
        r == upper_count(t@),
        r <= t@.len(),
{
    let mut r: usize = 0;
    let mut i: usize = 0;
    while i < t.len()
        invariant
            i <= t@.len(),
            r == upper_count(t@.subrange(0, i as int)),
            r <= i,
        decreases t@.len() - i,
    {
        let ghost pre = t@.subrange(0, i as int);
        if 'A' <= t[i] && t[i] <= 'Z' {
            r += 1;
        }
        i += 1;
        proof {
            assert(t@.subrange(0, i as int).drop_last() =~= pre);
        }
    }
    proof {
        assert(t@.subrange(0, t@.len() as int) =~= t@);
    }
    r
}

/// Find the `#` run end.
fn hash_end_exec(t: &Vec<char>) -> (r: usize)
    ensures
        r == hash_end(t@, 0),
        r <= t@.len(),
{
    let n = t.len();
    let mut j: usize = 0;
    while j < n && t[j] == '#'
        invariant
            n == t@.len(),
            j <= n,
            hash_end(t@, 0) == hash_end(t@, j as int),
        decreases n - j,
    {
        j += 1;
    }
    j
}

/// Find the digits-and-dots run end, counting the dots passed.
fn numdot_scan_exec(t: &Vec<char>) -> (r: (usize, usize))
    ensures
        r.0 == numdot_end(t@, 0),
        r.0 <= t@.len(),
        r.1 == dot_count(t@.subrange(0, numdot_end(t@, 0))),
{
    let n = t.len();
    let mut j: usize = 0;
    let mut dots: usize = 0;
    while j < n && (('0' <= t[j] && t[j] <= '9') || t[j] == '.')
        invariant
            n == t@.len(),
            j <= n,
            numdot_end(t@, 0) == numdot_end(t@, j as int),
            dots == dot_count(t@.subrange(0, j as int)),
            dots <= j,
        decreases n - j,
    {
        let ghost pre = t@.subrange(0, j as int);
        if t[j] == '.' {
            dots += 1;
        }
        j += 1;
        proof {
            assert(t@.subrange(0, j as int).drop_last() =~= pre);
        }
    }
    (j, dots)
}

/// Whether the trimmed line is a heading.
fn is_heading_line_exec(t: &Vec<char>) -> (b: bool)
    ensures
        b == is_heading_line(t@),
{
    let n = t.len();
    let k = hash_end_exec(t);
    if 1 <= k && k <= 6 && k < n && t[k] == ' ' {
        let rest = subrange_chars(t, k, n);
        let trimmed = trim_chars(&rest);
        if trimmed.len() > 0 {
            return true;
        }
    }
    let chapter = str_chars("Chapter");
    let section = str_chars("Section");
    let part = str_chars("Part");
    let p: usize = if n >= chapter.len() && matches_at_exec(t, &chapter, 0) {
        7
    } else if n >= section.len() && matches_at_exec(t, &section, 0) {
        7
    } else if n >= part.len() && matches_at_exec(t, &part, 0) {
        4
    } else {
        0
    };
    proof {
        reveal_strlit("Chapter");
        reveal_strlit("Section");
        reveal_strlit("Part");
        if p == 0 {
            assert(chapter_prefix_len(t@) == -1);
        } else {
            assert(chapter_prefix_len(t@) == p);
        }
    }
    if p > 0 {
        let sp = space_end_exec(t, p);
        if sp > p && sp < n {
            let c = t[sp];
            if '0' <= c && c <= '9' {
                return true;
            }
        }
    }
    let uc = upper_count_exec(t);
    proof {
        if !(3 < t@.len() && t@.len() < 100 && 2 * upper_count(t@) > t@.len()) {
            assert(!is_upper_heading(t@));
        }
    }
    3 < n && n < 100 && 2 * uc > n
}

/// The level the heading line opens.
fn heading_level_exec(t: &Vec<char>) -> (r: u8)
    ensures
        r as int == heading_level(t@),
        1 <= r <= 6,
{
    if is_md_heading_exec(t) {
        let k = hash_end_exec(t);
        k as u8
    } else if t.len() > 0 && '0' <= t[0] && t[0] <= '9' {
        let (_e, dots) = numdot_scan_exec(t);
        if dots >= 6 {
            6
        } else {
            (dots + 1) as u8
        }
    } else {
        1
    }
}

/// Whether the line is a `#`-marked heading.
fn is_md_heading_exec(t: &Vec<char>) -> (b: bool)
    ensures
        b == is_md_heading(t@),
{
    let n = t.len();
    let k = hash_end_exec(t);
    if 1 <= k && k <= 6 && k < n && t[k] == ' ' {
        let rest = subrange_chars(t, k, n);
        let trimmed = trim_chars(&rest);
        trimmed.len() > 0
    } else {
        false
    }
}

/// The heading text the line carries.
fn heading_text_exec(t: &Vec<char>) -> (r: Vec<char>)
    ensures
        r@ == heading_text(t@),
{
    if is_md_heading_exec(t) {
        let k = hash_end_exec(t);
        let rest = subrange_chars(t, k, t.len());
        trim_chars(&rest)
    } else {
        subrange_chars(t, 0, t.len())
    }
}

/// Close the open exec section and push it.
pub(crate) fn flush_exec(
    acc: &mut Vec<Section>,
    opened: bool,
    level: u8,
    heading: &Vec<char>,
    content: &Vec<char>,
)
    requires
        1 <= level <= 6,
    ensures
        final(acc)@.len() == flush_state(
            SectState {
                acc: Seq::new(old(acc)@.len(), |x: int| section_model(old(acc)@[x])),
                opened,
                level: level as int,
                heading: heading@,
                content: content@,
            },
        ).len(),
        Seq::new(final(acc)@.len(), |x: int| section_model(final(acc)@[x])) == flush_state(
            SectState {
                acc: Seq::new(old(acc)@.len(), |x: int| section_model(old(acc)@[x])),
                opened,
                level: level as int,
                heading: heading@,
                content: content@,
            },
        ),
        forall|x: int| 0 <= x < old(acc)@.len() ==> final(acc)@[x] == old(acc)@[x],
        forall|x: int|
            old(acc)@.len() <= x < final(acc)@.len() ==> final(acc)@[x].heading@.len() <= 200
                && final(acc)@[x].content@.len() <= 10000,
{
    let ghost st = SectState {
        acc: Seq::new(acc@.len(), |x: int| section_model(acc@[x])),
        opened,
        level: level as int,
        heading: heading@,
        content: content@,
    };
    let tc = trim_chars(content);
    proof {
        crate::text::lemma_truncate_space_len(trim_spec(content@), 10000);
    }
    if opened {
        let h = truncate_chars(heading, 200);
        let c = truncate_space_chars(&tc, 10000);
        acc.push(Section { level, heading: chars_to_string(&h), content: chars_to_string(&c) });
        proof {
            assert(Seq::new(acc@.len(), |x: int| section_model(acc@[x])) =~= flush_state(st));
        }
    } else if tc.len() > 0 {
        let c = truncate_space_chars(&tc, 10000);
        acc.push(
            Section { level: 1, heading: "Content".to_owned(), content: chars_to_string(&c) },
        );
        proof {
            reveal_strlit("Content");
            assert(Seq::new(acc@.len(), |x: int| section_model(acc@[x])) =~= flush_state(st));
        }
    } else {
        proof {
            assert(Seq::new(acc@.len(), |x: int| section_model(acc@[x])) =~= flush_state(st));
        }
    }
}

/// Split a text into sections.
pub fn parse_sections(text: &str) -> (r: Vec<Section>)
    ensures
        r@.len() == sections_spec(text@).len(),
        forall|i: int| 0 <= i < r@.len() ==> section_model(r@[i]) == sections_spec(text@)[i],
        r@.len() <= 50,
        forall|i: int|
            0 <= i < r@.len() ==> r@[i].heading@.len() <= 200 && r@[i].content@.len() <= 10000,
{
    let v = str_chars(text);
    let lines = split_lines(&v);
    let ghost ld = split_lines_spec(v@);
    let mut acc: Vec<Section> = Vec::new();
    let mut opened: bool = false;
    let mut level: u8 = 1;
    let mut heading: Vec<char> = Vec::new();
    let mut content: Vec<char> = Vec::new();
    let mut li: usize = 0;
    proof {
        assert(Seq::new(acc@.len(), |x: int| section_model(acc@[x])) =~= Seq::<(
            int,
            Seq<char>,
            Seq<char>,
        )>::empty());
        assert(heading@ =~= Seq::<char>::empty());
        assert(content@ =~= Seq::<char>::empty());
        assert(sect_fold(ld, 0) == (SectState {
            acc: Seq::new(acc@.len(), |x: int| section_model(acc@[x])),
            opened,
            level: level as int,
            heading: heading@,
            content: content@,
        }));
    }
    while li < lines.len()
        invariant
            lines@.len() == ld.len(),
            forall|x: int| 0 <= x < ld.len() ==> lines@[x]@ == ld[x],
            li <= ld.len(),
            1 <= level <= 6,
            sect_fold(ld, li as int) == (SectState {
                acc: Seq::new(acc@.len(), |x: int| section_model(acc@[x])),
                opened,
                level: level as int,
                heading: heading@,
                content: content@,
            }),
            forall|x: int|
                0 <= x < acc@.len() ==> acc@[x].heading@.len() <= 200 && acc@[x].content@.len()
                    <= 10000,
        decreases ld.len() - li,
    {
        let ghost st = sect_fold(ld, li as int);
        let line = &lines[li];
        let t = trim_chars(line);
        if t.len() == 0 {
            if content.len() > 0 {
                append_str_chars(&mut content, "\n\n");
            }
        } else if is_heading_line_exec(&t) {
            flush_exec(&mut acc, opened, level, &heading, &content);
            opened = true;
            level = heading_level_exec(&t);
            heading = heading_text_exec(&t);
            content = Vec::new();
        } else if t.len() < 3 {
        } else {
            let piece = truncate_space_chars(&t, 2000);
            if content.len() > 0 && content[content.len() - 1] != '\n' {
                content.push(' ');
                append_chars(&mut content, &piece);
                proof {
                    assert(content@ =~= st.content + seq![' '] + truncate_space_spec(
                        trim_spec(ld[li as int]),
                        2000,
                    ));
                }
            } else {
                append_chars(&mut content, &piece);
            }
        }
        li += 1;
        proof {
            assert(sect_fold(ld, li as int) == sect_step(st, ld[li - 1]));
            assert(sect_fold(ld, li as int) == (SectState {
                acc: Seq::new(acc@.len(), |x: int| section_model(acc@[x])),
                opened,
                level: level as int,
                heading: heading@,
                content: content@,
            }));
        }
    }
    flush_exec(&mut acc, opened, level, &heading, &content);
    let ghost full = flush_state(sect_fold(ld, ld.len() as int));
    let mut out: Vec<Section> = Vec::new();
    let mut t: usize = 0;
    while t < acc.len() && t < 50
        invariant
            t <= acc@.len(),
            t <= 50,
            acc@.len() == full.len(),
            forall|x: int| 0 <= x < acc@.len() ==> section_model(acc@[x]) == full[x],
            forall|x: int|
                0 <= x < acc@.len() ==> acc@[x].heading@.len() <= 200 && acc@[x].content@.len()
                    <= 10000,
            out@ == acc@.subrange(0, t as int),
        decreases acc@.len() - t,
    {
        let s = &acc[t];
        out.push(Section { level: s.level, heading: s.heading.clone(), content: s.content.clone() });
        t += 1;
        proof {
            assert(out@ =~= acc@.subrange(0, t as int));
        }
    }
    proof {
        if acc@.len() <= 50 {
            assert(acc@.subrange(0, acc@.len() as int) =~= acc@);
        }
        assert(forall|i: int| 0 <= i < out@.len() ==> out@[i] == acc@[i]);
    }
    out
}

} // verus!
