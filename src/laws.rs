//! Properties of the preprocessor that span many lines or many calls.
use vstd::prelude::*;
use crate::grammar::{
    block_class, is_block_close, is_class_char, is_display_open, is_eval_open, is_fence, is_tabs_open, kind_of,
    LineKind,
};
use crate::inline::{expr_bodies, line_spliced, next_span, spliced};
use crate::machine::{eval_output, next_tab, run, step, wants, SessionView};
use crate::markup::{
    close_line, group_close, open_line, panel_close, tab_item, tabs_open, unmatched_close,
};
use crate::processor::{processes, results_of, sources_of, Evaluation};
use crate::text::{
    indent_len, is_blank, is_space, join_lines, line_len, lines_of, strip_cr, trim_end_newlines, trim_start,
};

verus! {

/// The lines, each followed by a newline.
pub open spec fn unlines(ls: Seq<Seq<char>>) -> Seq<char>
    decreases ls.len(),
{
    if ls.len() == 0 {
        Seq::empty()
    } else {
        ls[0] + "\n"@ + unlines(ls.drop_first())
    }
}

/// The line is one of the dialect's markers.
pub open spec fn is_marker(line: Seq<char>) -> bool {
    ||| is_block_close(line)
    ||| is_tabs_open(line)
    ||| is_eval_open(line)
    ||| is_display_open(line)
    ||| is_fence(line)
    ||| block_class(line) is Some
}

/// A line with no dialect syntax, which is not blank unless empty.
pub open spec fn plain_line(line: Seq<char>) -> bool {
    &&& !is_marker(line)
    &&& next_span(line, 0) is None
    &&& is_blank(line) ==> line.len() == 0
}

/// No `\r` stands right before a `\n`.
pub open spec fn no_crlf(s: Seq<char>) -> bool {
    forall|i: int| 0 <= i < s.len() - 1 ==> !(#[trigger] s[i] == '\r' && s[i + 1] == '\n')
}

/// One line run on its own.
pub proof fn lemma_run_one(s: SessionView, line: Seq<char>, results: Seq<Seq<char>>)
    requires
        results.len() == wants(s, line).len(),
    ensures
        run(s, seq![line], results) == (step(s, line, results).0, step(s, line, results).1, wants(
            s,
            line,
        )),
{
    let w = wants(s, line);
    assert(results.take(w.len() as int) =~= results);
    assert(seq![line].drop_first() =~= Seq::<Seq<char>>::empty());
    let s1 = step(s, line, results).0;
    assert(run(s1, Seq::<Seq<char>>::empty(), results.skip(w.len() as int)) == (
        s1,
        Seq::<char>::empty(),
        Seq::<Seq<char>>::empty(),
    ));
    assert(step(s, line, results).1 + Seq::<char>::empty() =~= step(s, line, results).1);
    assert(w + Seq::<Seq<char>>::empty() =~= w);
}

/// The engine is asked in document order: a document made of two parts
/// asks the sources of the first part, then those of the second, the second
/// part running from where the first left the session and taking the answers
/// that remain.
pub proof fn evaluation_follows_document_order(
    s: SessionView,
    a: Seq<Seq<char>>,
    b: Seq<Seq<char>>,
    results: Seq<Seq<char>>,
)
    requires
        run(s, a, results).2.len() <= results.len(),
    ensures
        run(s, a + b, results) == ({
            let (s1, o1, w1) = run(s, a, results);
            let (s2, o2, w2) = run(s1, b, results.skip(w1.len() as int));
            (s2, o1 + o2, w1 + w2)
        }),
    decreases a.len(),
{
    if a.len() == 0 {
        assert(a + b =~= b);
        assert(results.skip(0) =~= results);
        let (s2, o2, w2) = run(s, b, results);
        assert(Seq::<char>::empty() + o2 =~= o2);
        assert(Seq::<Seq<char>>::empty() + w2 =~= w2);
    } else {
        let w = wants(s, a[0]);
        let rest = results.skip(w.len() as int);
        let (s1, o1) = step(s, a[0], results.take(w.len() as int));
        assert((a + b)[0] == a[0]);
        assert((a + b).drop_first() =~= a.drop_first() + b);
        evaluation_follows_document_order(s1, a.drop_first(), b, rest);
        let (s3, o3, w3) = run(s1, a.drop_first(), rest);
        assert(rest.skip(w3.len() as int) =~= results.skip((w.len() + w3.len()) as int));
        let (s4, o4, w4) = run(s3, b, rest.skip(w3.len() as int));
        assert(o1 + (o3 + o4) =~= (o1 + o3) + o4);
        assert(w + (w3 + w4) =~= (w + w3) + w4);
    }
}

/// Lines that hand nothing to the engine leave the answers to the lines
/// after them.
pub proof fn lemma_run_append_quiet(
    s: SessionView,
    a: Seq<Seq<char>>,
    b: Seq<Seq<char>>,
    results: Seq<Seq<char>>,
)
    requires
        run(s, a, results).2.len() == 0,
    ensures
        run(s, a + b, results) == ({
            let (s1, o1, w1) = run(s, a, results);
            let (s2, o2, w2) = run(s1, b, results);
            (s2, o1 + o2, w2)
        }),
    decreases a.len(),
{
    if a.len() == 0 {
        assert(a + b =~= b);
        let (s2, o2, w2) = run(s, b, results);
        assert(Seq::<char>::empty() + o2 =~= o2);
    } else {
        let w = wants(s, a[0]);
        let (s1, o1) = step(s, a[0], results.take(w.len() as int));
        assert(w.len() == 0);
        assert(results.skip(0) =~= results);
        assert((a + b)[0] == a[0]);
        assert((a + b).drop_first() =~= a.drop_first() + b);
        lemma_run_append_quiet(s1, a.drop_first(), b, results);
        let (s3, o3, w3) = run(s1, a.drop_first(), results);
        let (s4, o4, w4) = run(s3, b, results);
        assert(o1 + (o3 + o4) =~= (o1 + o3) + o4);
        assert(w + w4 =~= w4);
    }
}

/// A plain line asks nothing, comes out as itself and changes nothing.
pub proof fn lemma_plain_step(s: SessionView, line: Seq<char>, results: Seq<Seq<char>>)
    requires
        plain_line(line),
        !s.buffering,
    ensures
        wants(s, line).len() == 0,
        step(s, line, results).0 == s,
        step(s, line, results).1 == line + "\n"@,
{
    assert(kind_of(line, s.in_tabs, s.tabs_closing) == LineKind::Regular);
    assert(expr_bodies(line, 0) =~= Seq::<Seq<char>>::empty());
    assert(line_spliced(line, results) == spliced(line, 0, results));
    assert(line.subrange(0, line.len() as int) =~= line);
    if is_blank(line) {
        assert(line =~= Seq::<char>::empty());
        assert(line + "\n"@ =~= "\n"@);
    }
}

/// Plain lines come out as themselves, each with a newline.
pub proof fn lemma_plain_run(s: SessionView, lines: Seq<Seq<char>>, results: Seq<Seq<char>>)
    requires
        !s.buffering,
        forall|i: int| 0 <= i < lines.len() ==> plain_line(#[trigger] lines[i]),
    ensures
        run(s, lines, results).0 == s,
        run(s, lines, results).1 == unlines(lines),
        run(s, lines, results).2.len() == 0,
    decreases lines.len(),
{
    if lines.len() > 0 {
        lemma_plain_step(s, lines[0], results.take(0));
        let s1 = step(s, lines[0], results.take(0)).0;
        assert(results.skip(0) =~= results);
        assert forall|i: int| 0 <= i < lines.drop_first().len() implies plain_line(
            #[trigger] lines.drop_first()[i],
        ) by {
            assert(lines.drop_first()[i] == lines[i + 1]);
        }
        lemma_plain_run(s1, lines.drop_first(), results);
    }
}

pub proof fn lemma_line_len(s: Seq<char>)
    ensures
        line_len(s) <= s.len(),
        forall|k: int| 0 <= k < line_len(s) ==> #[trigger] s[k] != '\n',
        line_len(s) < s.len() ==> s[line_len(s) as int] == '\n',
    decreases s.len(),
{
    if s.len() > 0 && s[0] != '\n' {
        lemma_line_len(s.drop_first());
        assert forall|k: int| 0 <= k < line_len(s) implies #[trigger] s[k] != '\n' by {
            if k > 0 {
                assert(s[k] == s.drop_first()[k - 1]);
            }
        }
    }
}

/// Lines with a newline after each give the text back, with a newline added
/// when the text did not end with one.
pub proof fn lemma_unlines_lines_of(s: Seq<char>)
    requires
        no_crlf(s),
    ensures
        unlines(lines_of(s)) == (if s.len() == 0 || s.last() == '\n' {
            s
        } else {
            s.push('\n')
        }),
    decreases s.len(),
{
    reveal_strlit("\n");
    assert("\n"@ =~= seq!['\n']);
    if s.len() > 0 {
        lemma_line_len(s);
        let k = line_len(s) as int;
        if k < s.len() {
            let rest = s.skip(k + 1);
            assert(strip_cr(s.take(k)) == s.take(k)) by {
                if k > 0 {
                    assert(s.take(k).last() == s[k - 1]);
                }
            }
            assert forall|i: int| 0 <= i < rest.len() - 1 implies !(#[trigger] rest[i] == '\r'
                && rest[i + 1] == '\n') by {
                assert(rest[i] == s[k + 1 + i]);
                assert(rest[i + 1] == s[k + 1 + i + 1]);
            }
            lemma_unlines_lines_of(rest);
            let ls = lines_of(s);
            assert(ls[0] == s.take(k));
            assert(ls.drop_first() =~= lines_of(rest));
            assert(unlines(ls) == s.take(k) + seq!['\n'] + unlines(lines_of(rest)));
            if rest.len() == 0 {
                assert(s =~= s.take(k) + seq!['\n']);
                assert(s.last() == '\n');
                assert(unlines(lines_of(s)) == s);
            } else if rest.last() == '\n' {
                assert(s =~= s.take(k) + seq!['\n'] + rest);
                assert(s.last() == '\n');
                assert(unlines(lines_of(s)) == s);
            } else {
                assert(s.last() == rest.last());
                assert(s.push('\n') =~= s.take(k) + seq!['\n'] + rest.push('\n'));
                assert(unlines(lines_of(s)) == s.push('\n'));
            }
        } else {
            assert(lines_of(s) == seq![s]);
            assert(seq![s].drop_first() =~= Seq::<Seq<char>>::empty());
            assert(unlines(seq![s].drop_first()) == Seq::<char>::empty());
            assert(s.last() != '\n');
            assert(s + "\n"@ + Seq::<char>::empty() =~= s.push('\n'));
            assert(unlines(lines_of(s)) == s.push('\n'));
        }
    }
}

/// A line without dialect syntax: plain, or a bare fence of an ordinary
/// code block.
pub open spec fn passes_through(line: Seq<char>) -> bool {
    plain_line(line) || is_fence(line)
}

/// Lines without dialect syntax come out as themselves, each with a newline,
/// and change nothing.
pub proof fn lemma_plain_document_run(s: SessionView, lines: Seq<Seq<char>>, results: Seq<Seq<char>>)
    requires
        !s.buffering,
        forall|i: int| 0 <= i < lines.len() ==> passes_through(#[trigger] lines[i]),
    ensures
        run(s, lines, results) == (s, unlines(lines), Seq::<Seq<char>>::empty()),
    decreases lines.len(),
{
    if lines.len() == 0 {
        assert(unlines(lines) == Seq::<char>::empty());
    } else {
        let l = lines[0];
        assert(passes_through(l));
        assert(results.take(0) =~= Seq::<Seq<char>>::empty());
        assert(results.skip(0) =~= results);
        if plain_line(l) {
            lemma_plain_step(s, l, results.take(0));
        } else {
            lemma_fence_kinds(l, s.in_tabs, s.tabs_closing);
        }
        assert forall|i: int| 0 <= i < lines.drop_first().len() implies passes_through(
            #[trigger] lines.drop_first()[i],
        ) by {
            assert(lines.drop_first()[i] == lines[i + 1]);
        }
        lemma_plain_document_run(s, lines.drop_first(), results);
        assert(Seq::<Seq<char>>::empty() + Seq::<Seq<char>>::empty() =~= Seq::<Seq<char>>::empty());
    }
}

/// A document with no dialect syntax comes out as it went in, trailing
/// newlines aside, and asks nothing of the engine: every line is plain or a
/// bare fence of an ordinary code block, and no `\r\n` ends a line.
pub proof fn plain_document_is_unchanged(
    s: SessionView,
    input: Seq<char>,
    fresh: Seq<Evaluation>,
    end: SessionView,
    out: Seq<char>,
)
    requires
        !s.buffering,
        no_crlf(input),
        forall|i: int| 0 <= i < lines_of(input).len() ==> passes_through(#[trigger] lines_of(input)[i]),
        processes(s, input, fresh, end, out),
    ensures
        out == trim_end_newlines(input),
        fresh.len() == 0,
        end == s,
{
    reveal_strlit("\n");
    lemma_plain_document_run(s, lines_of(input), results_of(fresh));
    lemma_unlines_lines_of(input);
    assert(sources_of(fresh).len() == fresh.len());
    if !(input.len() == 0 || input.last() == '\n') {
        assert(input.push('\n').drop_last() =~= input);
    }
}

/// The first character of `line` is not white space, so nothing is trimmed.
pub proof fn lemma_no_indent(line: Seq<char>)
    requires
        line.len() > 0,
        !is_space(line[0]),
    ensures
        trim_start(line) == line,
{
    assert(indent_len(line) == 0);
    assert(line.skip(0) =~= line);
}

/// A close marker is what the state makes of it: the owed marker of a
/// finished tab group, the close of a tab, or the close of a block.
pub proof fn lemma_close_kind(line: Seq<char>, in_tabs: bool, closing: bool)
    requires
        is_block_close(line),
    ensures
        kind_of(line, in_tabs, closing) == (if closing {
            LineKind::SuppressedClose
        } else if in_tabs {
            LineKind::TabItemClose
        } else {
            LineKind::BlockClose
        }),
{
    reveal_strlit(":::");
    reveal_strlit(":::tabs");
    reveal_strlit("```{rhai}");
    reveal_strlit("```{rhai-display}");
    reveal_strlit("```");
    let t = trim_start(line);
    assert(t != ":::tabs"@);
    assert(t != "```{rhai}"@);
    assert(t != "```{rhai-display}"@);
    assert(t[0] != "```"@[0]);
    assert(block_class(line) is None);
}

/// An unmatched close marker outside a tab group, with no tab group's
/// marker owed, comes out as the marker itself and changes nothing, whatever
/// else the state holds.
pub proof fn unmatched_close_is_kept(s: SessionView, line: Seq<char>, results: Seq<Seq<char>>)
    requires
        is_block_close(line),
        s.stack.len() == 0,
        !s.in_tabs,
        !s.tabs_closing,
    ensures
        wants(s, line).len() == 0,
        step(s, line, results) == (s, unmatched_close()),
{
    lemma_close_kind(line, s.in_tabs, s.tabs_closing);
}

/// One line that asks nothing of the engine, run on its own.
pub proof fn lemma_run_one_quiet(s: SessionView, line: Seq<char>, results: Seq<Seq<char>>)
    requires
        wants(s, line).len() == 0,
    ensures
        run(s, seq![line], results) == (
            step(s, line, Seq::empty()).0,
            step(s, line, Seq::empty()).1,
            Seq::<Seq<char>>::empty(),
        ),
{
    assert(results.take(0) =~= Seq::<Seq<char>>::empty());
    assert(seq![line].drop_first() =~= Seq::<Seq<char>>::empty());
    let s1 = step(s, line, Seq::empty()).0;
    assert(run(s1, Seq::<Seq<char>>::empty(), results.skip(0)) == (
        s1,
        Seq::<char>::empty(),
        Seq::<Seq<char>>::empty(),
    ));
    assert(step(s, line, Seq::empty()).1 + Seq::<char>::empty() =~= step(
        s,
        line,
        Seq::empty(),
    ).1);
    assert(Seq::<Seq<char>>::empty() + Seq::<Seq<char>>::empty() =~= Seq::<Seq<char>>::empty());
}

/// A class name that a block-open marker can carry; `tabs` opens a tab group
/// instead.
pub open spec fn valid_class(c: Seq<char>) -> bool {
    &&& c.len() > 0
    &&& forall|i: int| 0 <= i < c.len() ==> is_class_char(#[trigger] c[i])
    &&& c != "tabs"@
}

/// The open marker of a block of class `c` opens that block.
pub proof fn lemma_open_kind(c: Seq<char>, in_tabs: bool, closing: bool)
    requires
        valid_class(c),
    ensures
        kind_of(":::"@ + c, in_tabs, closing) == (if in_tabs && c == "tab"@ {
            LineKind::TabItemOpen
        } else {
            LineKind::BlockOpen
        }),
        block_class(":::"@ + c) == Some(c),
{
    reveal_strlit(":::");
    reveal_strlit(":::tabs");
    reveal_strlit("tabs");
    reveal_strlit("```{rhai}");
    reveal_strlit("```{rhai-display}");
    reveal_strlit("```");
    let line = ":::"@ + c;
    assert(line[0] == ':');
    lemma_no_indent(line);
    assert(line != ":::"@);
    if line == ":::tabs"@ {
        assert(line.skip(3) =~= c);
        assert(":::tabs"@.skip(3) =~= "tabs"@);
    }
    assert(line[0] != "```{rhai}"@[0]);
    assert(line[0] != "```{rhai-display}"@[0]);
    assert(line[0] != "```"@[0]);
    assert(line.take(3) =~= ":::"@);
    assert(line.skip(3) =~= c);
    assert forall|i: int| 3 <= i < line.len() implies is_class_char(#[trigger] line[i]) by {
        assert(line[i] == c[i - 3]);
    }
}

/// An arrangement of blocks: empty, or a block of some class with the
/// blocks it holds and the blocks that follow it.
pub enum Nest {
    Empty,
    Block { class: Seq<char>, inner: Box<Nest>, next: Box<Nest> },
}

/// The marker lines of an arrangement of blocks.
pub open spec fn nest_lines(n: Nest) -> Seq<Seq<char>>
    decreases n,
{
    match n {
        Nest::Empty => Seq::empty(),
        Nest::Block { class, inner, next } => seq![":::"@ + class] + nest_lines(*inner) + seq![
            ":::"@,
        ] + nest_lines(*next),
    }
}

/// Each block as its opening tag, what it holds, and the closing tag that
/// matches its own class.
pub open spec fn nest_render(n: Nest) -> Seq<char>
    decreases n,
{
    match n {
        Nest::Empty => Seq::empty(),
        Nest::Block { class, inner, next } => open_line(class) + nest_render(*inner) + close_line(
            class,
        ) + nest_render(*next),
    }
}

pub open spec fn nest_classes_valid(n: Nest) -> bool
    decreases n,
{
    match n {
        Nest::Empty => true,
        Nest::Block { class, inner, next } => valid_class(class) && nest_classes_valid(*inner)
            && nest_classes_valid(*next),
    }
}

/// Blocks nest: for any well-nested arrangement of open and close markers,
/// whatever the class names, each open marker gives its block's opening tag
/// and each close marker the closing tag of the innermost block still open,
/// so that every block is rendered as its open tag, its contents and its
/// matching close tag. Nothing is asked of the engine, and the state is as it
/// was.
pub proof fn nested_blocks_render(s: SessionView, n: Nest, results: Seq<Seq<char>>)
    requires
        !s.in_tabs,
        !s.tabs_closing,
        nest_classes_valid(n),
    ensures
        run(s, nest_lines(n), results) == (s, nest_render(n), Seq::<Seq<char>>::empty()),
    decreases n,
{
    match n {
        Nest::Empty => {
            assert(nest_lines(n) == Seq::<Seq<char>>::empty());
            assert(nest_render(n) == Seq::<char>::empty());
        },
        Nest::Block { class, inner, next } => {
            reveal_strlit(":::");
            let open = seq![":::"@ + class];
            let close = seq![":::"@];
            let a = nest_lines(*inner);
            let b = nest_lines(*next);
            assert(nest_lines(n) =~= open + (a + (close + b)));
            lemma_open_kind(class, s.in_tabs, s.tabs_closing);
            let s1 = SessionView { stack: s.stack.push(class), ..s };
            lemma_run_one_quiet(s, ":::"@ + class, results);
            assert(run(s, open, results) == (s1, open_line(class), Seq::<Seq<char>>::empty()));
            nested_blocks_render(s1, *inner, results);
            assert(is_block_close(":::"@)) by {
                lemma_no_indent(":::"@);
            }
            lemma_close_kind(":::"@, s1.in_tabs, s1.tabs_closing);
            lemma_run_one_quiet(s1, ":::"@, results);
            assert(s1.stack.drop_last() =~= s.stack);
            assert(run(s1, close, results) == (s, close_line(class), Seq::<Seq<char>>::empty()));
            nested_blocks_render(s, *next, results);
            lemma_run_append_quiet(s1, close, b, results);
            lemma_run_append_quiet(s1, a, close + b, results);
            lemma_run_append_quiet(s, open, a + (close + b), results);
            assert(nest_render(n) =~= open_line(class) + (nest_render(*inner) + (close_line(class)
                + nest_render(*next))));
        },
    }
}

/// The fences of eval blocks are told apart by what follows the backticks.
pub proof fn lemma_fence_kinds(line: Seq<char>, in_tabs: bool, closing: bool)
    ensures
        is_eval_open(line) ==> kind_of(line, in_tabs, closing) == (LineKind::EvalOpen {
            display: false,
        }),
        is_display_open(line) ==> kind_of(line, in_tabs, closing) == (LineKind::EvalOpen {
            display: true,
        }),
        is_fence(line) ==> kind_of(line, in_tabs, closing) == LineKind::FenceClose,
{
    reveal_strlit(":::");
    reveal_strlit(":::tabs");
    reveal_strlit("```{rhai}");
    reveal_strlit("```{rhai-display}");
    reveal_strlit("```");
    let t = trim_start(line);
    if is_eval_open(line) || is_display_open(line) || is_fence(line) {
        assert(t[0] != ":::"@[0]);
        assert(t[0] != ":::tabs"@[0]);
        assert(t != ":::"@);
        assert(t != ":::tabs"@);
    }
}

/// Lines that are no markers, taken while an eval block is open, are
/// collected and emit nothing.
pub proof fn lemma_buffer_run(s: SessionView, lines: Seq<Seq<char>>, results: Seq<Seq<char>>)
    requires
        s.buffering,
        forall|i: int| 0 <= i < lines.len() ==> !is_marker(#[trigger] lines[i]),
    ensures
        run(s, lines, results) == (
            SessionView { contents: s.contents + lines, ..s },
            Seq::<char>::empty(),
            Seq::<Seq<char>>::empty(),
        ),
    decreases lines.len(),
{
    if lines.len() == 0 {
        assert(s.contents + lines =~= s.contents);
    } else {
        let l = lines[0];
        assert(kind_of(l, s.in_tabs, s.tabs_closing) == LineKind::Regular);
        let s1 = SessionView { contents: s.contents.push(l), ..s };
        assert(results.take(0) =~= Seq::<Seq<char>>::empty());
        assert(results.skip(0) =~= results);
        assert forall|i: int| 0 <= i < lines.drop_first().len() implies !is_marker(
            #[trigger] lines.drop_first()[i],
        ) by {
            assert(lines.drop_first()[i] == lines[i + 1]);
        }
        lemma_buffer_run(s1, lines.drop_first(), results);
        assert(s1.contents + lines.drop_first() =~= s.contents + lines);
        assert(Seq::<char>::empty() + Seq::<char>::empty() =~= Seq::<char>::empty());
        assert(Seq::<Seq<char>>::empty() + Seq::<Seq<char>>::empty() =~= Seq::<
            Seq<char>,
        >::empty());
    }
}

/// An eval block: its opening fence, body lines that are no markers, and a
/// bare closing fence. The body joined by newlines goes to the engine once,
/// if the body is not empty. A silent block emits nothing whatever the
/// answer; a display block emits its source and the answer, each in its own
/// container, unless the answer is blank, and then nothing.
pub proof fn eval_block_emits(
    s: SessionView,
    display: bool,
    open: Seq<char>,
    body: Seq<Seq<char>>,
    close: Seq<char>,
    results: Seq<Seq<char>>,
)
    requires
        display ==> is_display_open(open),
        !display ==> is_eval_open(open),
        is_fence(close),
        forall|i: int| 0 <= i < body.len() ==> !is_marker(#[trigger] body[i]),
        results.len() == (if body.len() > 0 {
            1int
        } else {
            0int
        }),
    ensures
        run(s, seq![open] + body + seq![close], results) == (
            SessionView {
                buffering: false,
                display: display,
                contents: Seq::empty(),
                ..s
            },
            if body.len() > 0 {
                eval_output(display, join_lines(body), results[0])
            } else {
                Seq::empty()
            },
            if body.len() > 0 {
                seq![join_lines(body)]
            } else {
                Seq::empty()
            },
        ),
        !display ==> run(s, seq![open] + body + seq![close], results).1.len() == 0,
        display && body.len() > 0 ==> run(s, seq![open] + body + seq![close], results).1 == (
        if is_blank(results[0]) {
            Seq::empty()
        } else {
            crate::markup::display_block(join_lines(body), results[0])
        }),
{
    lemma_fence_kinds(open, s.in_tabs, s.tabs_closing);
    let s1 = SessionView {
        buffering: true,
        display: display,
        contents: Seq::empty(),
        ..s
    };
    lemma_run_one_quiet(s, open, results);
    lemma_buffer_run(s1, body, results);
    let s2 = SessionView { contents: s1.contents + body, ..s1 };
    assert(s1.contents + body =~= body);
    lemma_run_append_quiet(s, seq![open], body, results);
    assert(Seq::<char>::empty() + Seq::<char>::empty() =~= Seq::<char>::empty());
    lemma_fence_kinds(close, s2.in_tabs, s2.tabs_closing);
    lemma_run_one(s2, close, results);
    lemma_run_append_quiet(s, seq![open] + body, seq![close], results);
    let (s3, o3) = step(s2, close, results);
    assert(Seq::<char>::empty() + o3 =~= o3);
}

/// The markers of a tab group.
pub proof fn lemma_tab_markers()
    ensures
        ":::"@ + "tab"@ == ":::tab"@,
        valid_class("tab"@),
        is_tabs_open(":::tabs"@),
        is_block_close(":::"@),
{
    reveal_strlit(":::");
    reveal_strlit("tab");
    reveal_strlit(":::tab");
    reveal_strlit("tabs");
    reveal_strlit(":::tabs");
    assert(":::"@ + "tab"@ =~= ":::tab"@);
    assert("tab"@ != "tabs"@);
    lemma_no_indent(":::tabs"@);
    lemma_no_indent(":::"@);
}

/// One tab of a group: lines before it, its open marker, its content and its
/// close marker.
pub open spec fn tab_lines(before: Seq<Seq<char>>, content: Seq<Seq<char>>) -> Seq<Seq<char>> {
    before + seq![":::tab"@] + content + seq![":::"@]
}

/// A tab group of three tabs with gaps of lines `gaps[0..3]` before each tab
/// and `gaps[3]` before the group's own close marker.
pub open spec fn tab_group_lines(gaps: Seq<Seq<Seq<char>>>, tabs: Seq<Seq<Seq<char>>>) -> Seq<
    Seq<char>,
> {
    seq![":::tabs"@] + tab_lines(gaps[0], tabs[0]) + tab_lines(gaps[1], tabs[1]) + tab_lines(
        gaps[2],
        tabs[2],
    ) + gaps[3] + seq![":::"@]
}

/// What a three-tab group becomes: one tab list around three selectors and
/// three panels, the second selector pre-selected; the group's own close
/// marker emits nothing.
pub open spec fn tab_group_render(gaps: Seq<Seq<Seq<char>>>, tabs: Seq<Seq<Seq<char>>>) -> Seq<
    char,
> {
    tabs_open() + unlines(gaps[0]) + tab_item(1) + unlines(tabs[0]) + panel_close() + unlines(
        gaps[1],
    ) + tab_item(2) + unlines(tabs[1]) + panel_close() + unlines(gaps[2]) + tab_item(3)
        + unlines(tabs[2]) + group_close() + unlines(gaps[3])
}

pub open spec fn all_plain(lines: Seq<Seq<char>>) -> bool {
    forall|i: int| 0 <= i < lines.len() ==> plain_line(#[trigger] lines[i])
}

/// Tab `k` of a group whose first `k - 1` tabs have closed.
pub proof fn lemma_one_tab(
    t: SessionView,
    k: nat,
    before: Seq<Seq<char>>,
    content: Seq<Seq<char>>,
    results: Seq<Seq<char>>,
)
    requires
        1 <= k <= 3,
        t.in_tabs,
        t.tab_count == k - 1,
        !t.tabs_closing,
        !t.buffering,
        all_plain(before),
        all_plain(content),
    ensures
        ({
            let (u, o, w) = run(t, tab_lines(before, content), results);
            &&& w.len() == 0
            &&& o == unlines(before) + tab_item(k) + unlines(content) + (if k == 3 {
                group_close()
            } else {
                panel_close()
            })
            &&& u.stack == t.stack
            &&& !u.buffering
            &&& k < 3 ==> u.in_tabs && u.tab_count == k && !u.tabs_closing
            &&& k == 3 ==> !u.in_tabs && u.tab_count == 0 && u.tabs_closing
        }),
{
    lemma_tab_markers();
    let open = seq![":::tab"@];
    let close = seq![":::"@];
    lemma_plain_run(t, before, results);
    let t1 = run(t, before, results).0;
    lemma_open_kind("tab"@, t1.in_tabs, t1.tabs_closing);
    lemma_run_one_quiet(t1, ":::tab"@, results);
    let t2 = run(t1, open, results).0;
    assert(next_tab(t1.tab_count) == k);
    lemma_plain_run(t2, content, results);
    let t3 = run(t2, content, results).0;
    lemma_close_kind(":::"@, t3.in_tabs, t3.tabs_closing);
    lemma_run_one_quiet(t3, ":::"@, results);
    lemma_run_append_quiet(t, before, open, results);
    lemma_run_append_quiet(t, before + open, content, results);
    lemma_run_append_quiet(t, before + open + content, close, results);
}

/// The tab list opened and its three tabs taken.
proof fn lemma_three_tabs_prefix(
    s: SessionView,
    gaps: Seq<Seq<Seq<char>>>,
    tabs: Seq<Seq<Seq<char>>>,
    results: Seq<Seq<char>>,
)
    requires
        !s.buffering,
        gaps.len() == 4,
        tabs.len() == 3,
        all_plain(gaps[0]) && all_plain(gaps[1]) && all_plain(gaps[2]),
        all_plain(tabs[0]) && all_plain(tabs[1]) && all_plain(tabs[2]),
    ensures
        ({
            let lines = seq![":::tabs"@] + tab_lines(gaps[0], tabs[0]) + tab_lines(gaps[1], tabs[1])
                + tab_lines(gaps[2], tabs[2]);
            let (u, o, w) = run(s, lines, results);
            &&& w.len() == 0
            &&& o == tabs_open() + unlines(gaps[0]) + tab_item(1) + unlines(tabs[0]) + panel_close()
                + unlines(gaps[1]) + tab_item(2) + unlines(tabs[1]) + panel_close() + unlines(
                gaps[2],
            ) + tab_item(3) + unlines(tabs[2]) + group_close()
            &&& u.stack == s.stack
            &&& !u.buffering
            &&& !u.in_tabs
            &&& u.tabs_closing
        }),
{
    lemma_tab_markers();
    let open = seq![":::tabs"@];
    assert(":::tabs"@ != ":::"@) by {
        reveal_strlit(":::tabs");
        reveal_strlit(":::");
    }
    assert(kind_of(":::tabs"@, s.in_tabs, s.tabs_closing) == LineKind::TabsOpen);
    lemma_run_one_quiet(s, ":::tabs"@, results);
    let s0 = run(s, open, results).0;
    lemma_one_tab(s0, 1, gaps[0], tabs[0], results);
    let s1 = run(s0, tab_lines(gaps[0], tabs[0]), results).0;
    lemma_one_tab(s1, 2, gaps[1], tabs[1], results);
    let s2 = run(s1, tab_lines(gaps[1], tabs[1]), results).0;
    lemma_one_tab(s2, 3, gaps[2], tabs[2], results);
    let with_one = open + tab_lines(gaps[0], tabs[0]);
    let with_two = with_one + tab_lines(gaps[1], tabs[1]);
    lemma_run_append_quiet(s, open, tab_lines(gaps[0], tabs[0]), results);
    lemma_concat5(tabs_open(), unlines(gaps[0]), tab_item(1), unlines(tabs[0]), panel_close());
    lemma_run_append_quiet(s, with_one, tab_lines(gaps[1], tabs[1]), results);
    let o1 = run(s, with_one, results).1;
    lemma_concat5(o1, unlines(gaps[1]), tab_item(2), unlines(tabs[1]), panel_close());
    lemma_run_append_quiet(s, with_two, tab_lines(gaps[2], tabs[2]), results);
    let o2 = run(s, with_two, results).1;
    lemma_concat5(o2, unlines(gaps[2]), tab_item(3), unlines(tabs[2]), group_close());
}

proof fn lemma_concat5(a: Seq<char>, b: Seq<char>, c: Seq<char>, d: Seq<char>, e: Seq<char>)
    ensures
        a + (b + c + d + e) == a + b + c + d + e,
{
    assert(a + (b + c + d + e) =~= a + b + c + d + e);
}

/// A tab group with exactly three tabs, each tab and gap made of plain
/// lines: one tab list opened and closed, three selectors of which the
/// second is pre-selected, three panels opened and closed, and the group's
/// own close marker swallowed. Nothing is asked of the engine, and the
/// session leaves the group with its blocks as they were.
#[verifier::spinoff_prover]
pub proof fn three_tabs_render(
    s: SessionView,
    gaps: Seq<Seq<Seq<char>>>,
    tabs: Seq<Seq<Seq<char>>>,
    results: Seq<Seq<char>>,
)
    requires
        !s.buffering,
        gaps.len() == 4,
        tabs.len() == 3,
        forall|i: int| 0 <= i < 4 ==> all_plain(#[trigger] gaps[i]),
        forall|i: int| 0 <= i < 3 ==> all_plain(#[trigger] tabs[i]),
    ensures
        ({
            let (u, o, w) = run(s, tab_group_lines(gaps, tabs), results);
            &&& w.len() == 0
            &&& o == tab_group_render(gaps, tabs)
            &&& u.stack == s.stack
            &&& !u.in_tabs
            &&& !u.tabs_closing
        }),
{
    lemma_tab_markers();
    assert(all_plain(gaps[0]) && all_plain(gaps[1]) && all_plain(gaps[2]) && all_plain(gaps[3]));
    assert(all_plain(tabs[0]) && all_plain(tabs[1]) && all_plain(tabs[2]));
    let with_three = seq![":::tabs"@] + tab_lines(gaps[0], tabs[0]) + tab_lines(gaps[1], tabs[1])
        + tab_lines(gaps[2], tabs[2]);
    lemma_three_tabs_prefix(s, gaps, tabs, results);
    let (s3, o3, w3) = run(s, with_three, results);
    lemma_plain_run(s3, gaps[3], results);
    let s4 = run(s3, gaps[3], results).0;
    lemma_close_kind(":::"@, s4.in_tabs, s4.tabs_closing);
    lemma_run_one_quiet(s4, ":::"@, results);
    let close = seq![":::"@];
    lemma_run_append_quiet(s, with_three, gaps[3], results);
    let before_close = with_three + gaps[3];
    lemma_run_append_quiet(s, before_close, close, results);
    assert(before_close + close == tab_group_lines(gaps, tabs));
    let o = run(s, before_close + close, results).1;
    assert(o == o3 + unlines(gaps[3]) + Seq::<char>::empty());
    assert(o3 + unlines(gaps[3]) + Seq::<char>::empty() =~= o3 + unlines(gaps[3]));
}

/// The close marker owed by a finished tab group is swallowed before any
/// other reading of a close marker: it emits nothing and only clears the
/// debt.
pub proof fn owed_close_is_swallowed(s: SessionView, line: Seq<char>, results: Seq<Seq<char>>)
    requires
        s.tabs_closing,
        is_block_close(line),
    ensures
        wants(s, line).len() == 0,
        step(s, line, results) == (SessionView { tabs_closing: false, ..s }, Seq::<char>::empty()),
{
    lemma_close_kind(line, s.in_tabs, s.tabs_closing);
}

/// Inside a tab group, `:::tab` opens the next tab: its number goes up by
/// one and its selector and panel are emitted.
pub proof fn tab_open_numbers_the_tab(s: SessionView, results: Seq<Seq<char>>)
    requires
        s.in_tabs,
        s.tab_count < usize::MAX,
    ensures
        wants(s, ":::tab"@).len() == 0,
        step(s, ":::tab"@, results) == (
            SessionView { tab_count: s.tab_count + 1, ..s },
            tab_item(s.tab_count + 1),
        ),
{
    lemma_tab_markers();
    lemma_open_kind("tab"@, s.in_tabs, s.tabs_closing);
}

/// Inside a tab group, a close marker closes the tab's panel; after the
/// third tab it also closes the tab list, leaves the group and owes the
/// group's own close marker.
pub proof fn tab_close_ends_the_group_after_three(
    s: SessionView,
    line: Seq<char>,
    results: Seq<Seq<char>>,
)
    requires
        s.in_tabs,
        !s.tabs_closing,
        is_block_close(line),
    ensures
        wants(s, line).len() == 0,
        s.tab_count == 3 ==> step(s, line, results) == (
            SessionView { in_tabs: false, tab_count: 0, tabs_closing: true, ..s },
            group_close(),
        ),
        s.tab_count != 3 ==> step(s, line, results) == (s, panel_close()),
{
    lemma_close_kind(line, s.in_tabs, s.tabs_closing);
}

/// The bare fence that ends an eval block with collected lines hands their
/// text, joined by newlines, to the engine; a silent block then emits
/// nothing, a display block its source and the answer unless the answer is
/// blank. Either way the block is closed and its lines dropped.
pub proof fn eval_block_close(s: SessionView, line: Seq<char>, results: Seq<Seq<char>>)
    requires
        s.buffering,
        s.contents.len() > 0,
        is_fence(line),
        results.len() == 1,
    ensures
        wants(s, line) == seq![join_lines(s.contents)],
        step(s, line, results).0 == (SessionView {
            buffering: false,
            contents: Seq::empty(),
            ..s
        }),
        !s.display ==> step(s, line, results).1.len() == 0,
        s.display && is_blank(results[0]) ==> step(s, line, results).1.len() == 0,
        s.display && !is_blank(results[0]) ==> step(s, line, results).1
            == crate::markup::display_block(join_lines(s.contents), results[0]),
{
    lemma_fence_kinds(line, s.in_tabs, s.tabs_closing);
}

/// An unmatched close marker anywhere in a document: where the lines before
/// it leave no block open, no tab group open and no group's marker owed, the
/// marker comes out as itself at its place, between what the lines before
/// and after it emit, and the lines after run on from the same state.
pub proof fn unmatched_close_in_a_document(
    s: SessionView,
    before: Seq<Seq<char>>,
    line: Seq<char>,
    after: Seq<Seq<char>>,
    results: Seq<Seq<char>>,
)
    requires
        run(s, before, results).2.len() <= results.len(),
        run(s, before, results).0.stack.len() == 0,
        !run(s, before, results).0.in_tabs,
        !run(s, before, results).0.tabs_closing,
        is_block_close(line),
    ensures
        ({
            let (s1, o1, w1) = run(s, before, results);
            let (s2, o2, w2) = run(s1, after, results.skip(w1.len() as int));
            run(s, before + seq![line] + after, results) == (
                s2,
                o1 + unmatched_close() + o2,
                w1 + w2,
            )
        }),
{
    let (s1, o1, w1) = run(s, before, results);
    let rest = results.skip(w1.len() as int);
    unmatched_close_is_kept(s1, line, rest);
    lemma_run_one_quiet(s1, line, rest);
    evaluation_follows_document_order(s1, seq![line], after, rest);
    assert(rest.skip(0) =~= rest);
    assert(before + seq![line] + after =~= before + (seq![line] + after));
    evaluation_follows_document_order(s, before, seq![line] + after, results);
    let (s2, o2, w2) = run(s1, after, rest);
    assert(o1 + (unmatched_close() + o2) =~= o1 + unmatched_close() + o2);
    assert(Seq::<Seq<char>>::empty() + w2 =~= w2);
}

} // verus!
