//! Code-block extraction from plain text, by indentation and keyword
//! heuristics, with language detection.

use vstd::prelude::*;
use crate::text::{
    matches_at, contains_seq, str_chars, chars_to_string, subrange_chars, append_chars,
    truncate_spec, truncate_chars, split_lines_spec, split_lines, contains_pattern,
};
use crate::urls::chars_eq;

verus! {

/// A line that looks like code: indented four spaces or a tab, or holding
/// one of a fixed set of code markers.
pub open spec fn is_code_line(l: Seq<char>) -> bool {
    matches_at(l, "    "@, 0) || (l.len() > 0 && l[0] == '\t') || contains_seq(l, "def "@)
        || contains_seq(l, "fn "@) || contains_seq(l, "function "@) || contains_seq(l, "class "@)
        || contains_seq(l, "import "@) || contains_seq(l, "package "@) || contains_seq(l, "//"@)
        || contains_seq(l, "/*"@) || contains_seq(l, "#include"@)
}

/// Lines joined with newlines.
pub open spec fn join_nl(ls: Seq<Seq<char>>) -> Seq<char>
    decreases ls.len(),
{
    if ls.len() == 0 {
        Seq::empty()
    } else if ls.len() == 1 {
        ls[0]
    } else {
        join_nl(ls.drop_last()) + seq!['\n'] + ls.last()
    }
}

/// The language guessed from the source, by fixed markers in fixed order.
pub open spec fn detect_language_spec(c: Seq<char>) -> Option<Seq<char>> {
    if contains_seq(c, "fn "@) && contains_seq(c, "->"@) {
        Some("rust"@)
    } else if contains_seq(c, "def "@) && contains_seq(c, ":"@) {
        Some("python"@)
    } else if contains_seq(c, "function "@) || contains_seq(c, "const "@) || contains_seq(
        c,
        "let "@,
    ) {
        Some("javascript"@)
    } else if contains_seq(c, "public class"@) || contains_seq(c, "private "@) {
        Some("java"@)
    } else if contains_seq(c, "#include"@) {
        Some("c"@)
    } else {
        None
    }
}

/// One extracted code block.
pub struct CodeBlock {
    /// The guessed language, when one was recognized.
    pub lang: Option<String>,
    /// The source text, cut to 5000 characters.
    pub source: String,
}

/// The spec-level image of a `CodeBlock`.
pub open spec fn code_model(b: CodeBlock) -> (Option<Seq<char>>, Seq<char>) {
    (
        match b.lang {
            Some(l) => Some(l@),
            None => None,
        },
        b.source@,
    )
}

/// Whether a block with this source text was already kept.
pub open spec fn has_source(acc: Seq<(Option<Seq<char>>, Seq<char>)>, s: Seq<char>) -> bool {
    exists|i: int| 0 <= i < acc.len() && acc[i].1 == s
}

/// Close the gathered run of code lines: it is kept when it spans at
/// least three lines and twenty characters, its source is new, and fewer
/// than twenty blocks were kept.
pub open spec fn code_flush(
    acc: Seq<(Option<Seq<char>>, Seq<char>)>,
    buf: Seq<Seq<char>>,
) -> Seq<(Option<Seq<char>>, Seq<char>)> {
    let src = join_nl(buf);
    let cut = truncate_spec(src, 5000);
    if buf.len() >= 3 && src.len() >= 20 && !has_source(acc, cut) && acc.len() < 20 {
        acc + seq![(detect_language_spec(src), cut)]
    } else {
        acc
    }
}

/// Read one line: code lines gather, and any other line closes the run.
pub open spec fn code_step(
    st: (Seq<(Option<Seq<char>>, Seq<char>)>, Seq<Seq<char>>),
    line: Seq<char>,
) -> (Seq<(Option<Seq<char>>, Seq<char>)>, Seq<Seq<char>>) {
    if is_code_line(line) {
        (st.0, st.1 + seq![line])
    } else {
        (code_flush(st.0, st.1), Seq::empty())
    }
}

/// The state after the first `i` lines.
pub open spec fn code_fold(lines: Seq<Seq<char>>, i: int) -> (
    Seq<(Option<Seq<char>>, Seq<char>)>,
    Seq<Seq<char>>,
)
    decreases i,
{
    if i <= 0 {
        (Seq::empty(), Seq::empty())
    } else {
        code_step(code_fold(lines, i - 1), lines[i - 1])
    }
}

/// The code blocks of a text: every line read in order and the trailing
/// run closed.
pub open spec fn code_blocks_spec(text: Seq<char>) -> Seq<(Option<Seq<char>>, Seq<char>)> {
    let lines = split_lines_spec(text);
    let st = code_fold(lines, lines.len() as int);
    code_flush(st.0, st.1)
}

/// Whether the line looks like code.
fn is_code_line_exec(l: &Vec<char>) -> (b: bool)
    ensures
        b == is_code_line(l@),
{
    let indent = str_chars("    ");
    let ind = if l.len() >= indent.len() {
        crate::text::matches_at_exec(l, &indent, 0)
    } else {
        false
    };
    ind || (l.len() > 0 && l[0] == '\t') || contains_pattern(l, "def ") || contains_pattern(
        l,
        "fn ",
    ) || contains_pattern(l, "function ") || contains_pattern(l, "class ") || contains_pattern(
        l,
        "import ",
    ) || contains_pattern(l, "package ") || contains_pattern(l, "//") || contains_pattern(l, "/*")
        || contains_pattern(l, "#include")
}

/// Join gathered lines with newlines.
pub(crate) fn join_nl_exec(ls: &Vec<Vec<char>>) -> (r: Vec<char>)
    ensures
        r@ == join_nl(ls.deep_view()),
{
    let mut r: Vec<char> = Vec::new();
    let mut i: usize = 0;
    while i < ls.len()
        invariant
            i <= ls@.len(),
            r@ == join_nl(ls.deep_view().subrange(0, i as int)),
        decreases ls@.len() - i,
    {
        let ghost pre = ls.deep_view().subrange(0, i as int);
        if i > 0 {
            r.push('\n');
        }
        append_chars(&mut r, &ls[i]);
        i += 1;
        proof {
            let post = ls.deep_view().subrange(0, i as int);
            assert(post.drop_last() =~= pre);
            crate::urls::lemma_deep_view_index(ls, i - 1);
            if i == 1 {
                assert(r@ =~= join_nl(post));
            } else {
                assert(r@ =~= join_nl(post));
            }
        }
    }
    proof {
        assert(ls.deep_view().subrange(0, ls@.len() as int) =~= ls.deep_view());
    }
    r
}

/// Guess the language of a piece of code.
pub fn detect_language(code: &str) -> (r: Option<String>)
    ensures
        match r {
            Some(l) => detect_language_spec(code@) == Some(l@),
            None => detect_language_spec(code@) is None,
        },
{
    let v = str_chars(code);
    detect_language_chars(&v)
}

/// `detect_language`, on a character vector.
pub fn detect_language_chars(v: &Vec<char>) -> (r: Option<String>)
    ensures
        match r {
            Some(l) => detect_language_spec(v@) == Some(l@),
            None => detect_language_spec(v@) is None,
        },
{
    if contains_pattern(v, "fn ") && contains_pattern(v, "->") {
        Some("rust".to_owned())
    } else if contains_pattern(v, "def ") && contains_pattern(v, ":") {
        Some("python".to_owned())
    } else if contains_pattern(v, "function ") || contains_pattern(v, "const ")
        || contains_pattern(v, "let ") {
        Some("javascript".to_owned())
    } else if contains_pattern(v, "public class") || contains_pattern(v, "private ") {
        Some("java".to_owned())
    } else if contains_pattern(v, "#include") {
        Some("c".to_owned())
    } else {
        None
    }
}

/// Whether a kept block already has this source.
fn has_source_exec(acc: &Vec<CodeBlock>, s: &Vec<char>) -> (b: bool)
    ensures
        b == has_source(Seq::new(acc@.len(), |x: int| code_model(acc@[x])), s@),
{
    let ghost models = Seq::new(acc@.len(), |x: int| code_model(acc@[x]));
    let mut i: usize = 0;
    while i < acc.len()
        invariant
            i <= acc@.len(),
            models == Seq::new(acc@.len(), |x: int| code_model(acc@[x])),
            forall|y: int| 0 <= y < i ==> models[y].1 != s@,
        decreases acc@.len() - i,
    {
        let sv = str_chars(acc[i].source.as_str());
        if chars_eq(&sv, s) {
            proof {
                assert(models[i as int].1 == s@);
            }
            return true;
        }
        i += 1;
    }
    false
}

/// Close the gathered run and push the block it yields, if any.
fn code_flush_exec(acc: &mut Vec<CodeBlock>, buf: &Vec<Vec<char>>)
    ensures
        final(acc)@.len() == code_flush(
            Seq::new(old(acc)@.len(), |x: int| code_model(old(acc)@[x])),
            buf.deep_view(),
        ).len(),
        Seq::new(final(acc)@.len(), |x: int| code_model(final(acc)@[x])) == code_flush(
            Seq::new(old(acc)@.len(), |x: int| code_model(old(acc)@[x])),
            buf.deep_view(),
        ),
{
    let ghost models = Seq::new(acc@.len(), |x: int| code_model(acc@[x]));
    let src = join_nl_exec(buf);
    let cut = truncate_chars(&src, 5000);
    if buf.len() >= 3 && src.len() >= 20 && acc.len() < 20 {
        if !has_source_exec(acc, &cut) {
            let lang = detect_language_chars(&src);
            acc.push(CodeBlock { lang, source: chars_to_string(&cut) });
            proof {
                assert(Seq::new(acc@.len(), |x: int| code_model(acc@[x])) =~= code_flush(
                    models,
                    buf.deep_view(),
                ));
            }
            return ;
        }
    }
    proof {
        assert(Seq::new(acc@.len(), |x: int| code_model(acc@[x])) =~= code_flush(
            models,
            buf.deep_view(),
        ));
    }
}

/// Extract the code blocks of a text.
pub fn extract_code(text: &str) -> (r: Vec<CodeBlock>)
    ensures
        r@.len() == code_blocks_spec(text@).len(),
        forall|i: int| 0 <= i < r@.len() ==> code_model(r@[i]) == code_blocks_spec(text@)[i],
        r@.len() <= 20,
{
    let v = str_chars(text);
    let lines = split_lines(&v);
    let ghost ld = split_lines_spec(v@);
    let mut acc: Vec<CodeBlock> = Vec::new();
    let mut buf: Vec<Vec<char>> = Vec::new();
    let mut li: usize = 0;
    proof {
        assert(Seq::new(acc@.len(), |x: int| code_model(acc@[x])) =~= Seq::<(
            Option<Seq<char>>,
            Seq<char>,
        )>::empty());
        assert(buf.deep_view() =~= Seq::<Seq<char>>::empty());
    }
    while li < lines.len()
        invariant
            lines@.len() == ld.len(),
            forall|x: int| 0 <= x < ld.len() ==> lines@[x]@ == ld[x],
            li <= ld.len(),
            code_fold(ld, li as int) == (
                Seq::new(acc@.len(), |x: int| code_model(acc@[x])),
                buf.deep_view(),
            ),
            acc@.len() <= 20,
        decreases ld.len() - li,
    {
        let ghost st = code_fold(ld, li as int);
        let line = &lines[li];
        if is_code_line_exec(line) {
            let copy = subrange_chars(line, 0, line.len());
            let ghost prebuf = buf.deep_view();
            buf.push(copy);
            proof {
                assert(buf.deep_view() =~~= prebuf + seq![ld[li as int]]);
            }
        } else {
            code_flush_exec(&mut acc, &buf);
            buf = Vec::new();
            proof {
                assert(buf.deep_view() =~= Seq::<Seq<char>>::empty());
            }
        }
        li += 1;
        proof {
            assert(code_fold(ld, li as int) == code_step(st, ld[li - 1]));
            assert(code_fold(ld, li as int) == (
                Seq::new(acc@.len(), |x: int| code_model(acc@[x])),
                buf.deep_view(),
            ));
        }
    }
    code_flush_exec(&mut acc, &buf);
    acc
}

} // verus!
