//! The preprocessor's state and what one line does to it. Evaluation is not
//! done here: `wants` names the sources that a line hands to the expression
//! engine, and `step` takes the engine's answers as an argument.
use vstd::prelude::*;
use crate::grammar::{block_class, class_of, classify, kind_of, LineKind};
use crate::inline::{line_bodies, line_spliced, span_bodies, splice};
use crate::markup::{
    close_line, display_block, group_close, open_line, panel_close, push_close_line,
    push_display_block, push_open_line, push_tab_item, tab_item, tabs_open, unmatched_close,
};
use crate::text::{
    blank, copy_chars, is_blank, join_lines, join_with_newlines, push_chars, push_str,
};

verus! {

/// The model of a session's state.
pub struct SessionView {
    /// Class names of the open blocks, innermost last.
    pub stack: Seq<Seq<char>>,
    pub in_tabs: bool,
    /// The number of tabs opened in the current tab group.
    pub tab_count: nat,
    /// A finished tab group's own close marker is still to be swallowed.
    pub tabs_closing: bool,
    /// Lines are being collected for an eval block.
    pub buffering: bool,
    /// The eval block being collected shows its source and result.
    pub display: bool,
    /// The lines collected for the eval block.
    pub contents: Seq<Seq<char>>,
}

/// The state of a fresh session.
pub open spec fn initial() -> SessionView {
    SessionView {
        stack: Seq::empty(),
        in_tabs: false,
        tab_count: 0,
        tabs_closing: false,
        buffering: false,
        display: false,
        contents: Seq::empty(),
    }
}

/// The tab number after one more tab opens; it stays put at the largest
/// `usize`.
pub open spec fn next_tab(n: nat) -> nat {
    if n < usize::MAX {
        n + 1
    } else {
        n
    }
}

/// A regular line outside an eval block: spans replaced by `results`, and a
/// line that is blank after that becomes an empty one.
pub open spec fn regular_output(line: Seq<char>, results: Seq<Seq<char>>) -> Seq<char> {
    let t = line_spliced(line, results);
    if is_blank(t) {
        "\n"@
    } else {
        t + "\n"@
    }
}

/// What an eval block emits at its closing fence, given the engine's answer
/// for its source.
pub open spec fn eval_output(display: bool, code: Seq<char>, result: Seq<char>) -> Seq<char> {
    if display && !is_blank(result) {
        display_block(code, result)
    } else {
        Seq::empty()
    }
}

/// The sources that `line` hands to the expression engine, in order.
pub open spec fn wants(s: SessionView, line: Seq<char>) -> Seq<Seq<char>> {
    match kind_of(line, s.in_tabs, s.tabs_closing) {
        LineKind::FenceClose => if s.buffering && s.contents.len() > 0 {
            seq![join_lines(s.contents)]
        } else {
            Seq::empty()
        },
        LineKind::Regular => if s.buffering {
            Seq::empty()
        } else {
            line_bodies(line)
        },
        _ => Seq::empty(),
    }
}

/// The state after `line` and the text it emits, given the engine's answers
/// to `wants(s, line)`.
pub open spec fn step(s: SessionView, line: Seq<char>, results: Seq<Seq<char>>) -> (
    SessionView,
    Seq<char>,
) {
    match kind_of(line, s.in_tabs, s.tabs_closing) {
        LineKind::SuppressedClose => (SessionView { tabs_closing: false, ..s }, Seq::empty()),
        LineKind::TabsOpen => (
            SessionView { in_tabs: true, tab_count: 0, tabs_closing: false, ..s },
            tabs_open(),
        ),
        LineKind::EvalOpen { display } => (
            SessionView {
                buffering: true,
                display: display,
                contents: Seq::empty(),
                ..s
            },
            Seq::empty(),
        ),
        LineKind::FenceClose => if s.buffering {
            (
                SessionView { buffering: false, contents: Seq::empty(), ..s },
                if s.contents.len() > 0 {
                    eval_output(s.display, join_lines(s.contents), results[0])
                } else {
                    Seq::empty()
                },
            )
        } else {
            (s, line + "\n"@)
        },
        LineKind::TabItemOpen => (
            SessionView { tab_count: next_tab(s.tab_count), ..s },
            tab_item(next_tab(s.tab_count)),
        ),
        LineKind::BlockOpen => (
            SessionView { stack: s.stack.push(block_class(line)->0), ..s },
            open_line(block_class(line)->0),
        ),
        LineKind::TabItemClose => if s.tab_count == 3 {
            (
                SessionView { in_tabs: false, tab_count: 0, tabs_closing: true, ..s },
                group_close(),
            )
        } else {
            (s, panel_close())
        },
        LineKind::BlockClose => if s.stack.len() == 0 {
            (s, unmatched_close())
        } else {
            (SessionView { stack: s.stack.drop_last(), ..s }, close_line(s.stack.last()))
        },
        LineKind::Regular => if s.buffering {
            (SessionView { contents: s.contents.push(line), ..s }, Seq::empty())
        } else {
            (s, regular_output(line, results))
        },
    }
}

/// A document's lines taken in order from state `s`, the engine's answers
/// drawn from `results` as the lines ask: the final state, the text emitted,
/// and the sources handed to the engine.
pub open spec fn run(s: SessionView, lines: Seq<Seq<char>>, results: Seq<Seq<char>>) -> (
    SessionView,
    Seq<char>,
    Seq<Seq<char>>,
)
    decreases lines.len(),
{
    if lines.len() == 0 {
        (s, Seq::empty(), Seq::empty())
    } else {
        let w = wants(s, lines[0]);
        let (s1, o1) = step(s, lines[0], results.take(w.len() as int));
        let (s2, o2, w2) = run(s1, lines.drop_first(), results.skip(w.len() as int));
        (s2, o1 + o2, w + w2)
    }
}

/// Running one more line continues a run from where it stopped.
pub proof fn lemma_run_push(
    s: SessionView,
    lines: Seq<Seq<char>>,
    results: Seq<Seq<char>>,
    line: Seq<char>,
    more: Seq<Seq<char>>,
)
    requires
        run(s, lines, results).2.len() == results.len(),
        more.len() == wants(run(s, lines, results).0, line).len(),
    ensures
        run(s, lines.push(line), results + more) == ({
            let (s1, o1, w1) = run(s, lines, results);
            let (s2, o2) = step(s1, line, more);
            (s2, o1 + o2, w1 + wants(s1, line))
        }),
    decreases lines.len(),
{
    if lines.len() == 0 {
        assert(lines.push(line) =~= seq![line]);
        assert(results =~= Seq::<Seq<char>>::empty());
        assert(results + more =~= more);
        assert(more.take(more.len() as int) =~= more);
        assert(seq![line].drop_first() =~= Seq::<Seq<char>>::empty());
        let (s2, o2) = step(s, line, more);
        let tail = more.skip(more.len() as int);
        assert(run(s2, seq![line].drop_first(), tail) == (
            s2,
            Seq::<char>::empty(),
            Seq::<Seq<char>>::empty(),
        ));
        assert(o2 + Seq::<char>::empty() =~= Seq::<char>::empty() + o2);
        assert(wants(s, line) + Seq::<Seq<char>>::empty() =~= Seq::<Seq<char>>::empty() + wants(
            s,
            line,
        ));
    } else {
        let w = wants(s, lines[0]);
        let (s1, o1) = step(s, lines[0], results.take(w.len() as int));
        assert(lines.push(line)[0] == lines[0]);
        assert(lines.push(line).drop_first() =~= lines.drop_first().push(line));
        assert((results + more).take(w.len() as int) =~= results.take(w.len() as int));
        assert((results + more).skip(w.len() as int) =~= results.skip(w.len() as int) + more);
        lemma_run_push(s1, lines.drop_first(), results.skip(w.len() as int), line, more);
        let (s3, o3, w3) = run(s1, lines.drop_first(), results.skip(w.len() as int));
        let (s4, o4) = step(s3, line, more);
        assert(o1 + (o3 + o4) =~= (o1 + o3) + o4);
        assert(w + (w3 + wants(s3, line)) =~= (w + w3) + wants(s3, line));
    }
}

/// The state of a session between lines.
pub struct Session {
    stack: Vec<Vec<char>>,
    in_tabs: bool,
    tab_count: usize,
    tabs_closing: bool,
    buffering: bool,
    display: bool,
    contents: Vec<Vec<char>>,
}

impl View for Session {
    type V = SessionView;

    closed spec fn view(&self) -> SessionView {
        SessionView {
            stack: self.stack.deep_view(),
            in_tabs: self.in_tabs,
            tab_count: self.tab_count as nat,
            tabs_closing: self.tabs_closing,
            buffering: self.buffering,
            display: self.display,
            contents: self.contents.deep_view(),
        }
    }
}

impl Session {
    pub fn new() -> (s: Session)
        ensures
            s@ == initial(),
    {
        let s = Session {
            stack: Vec::new(),
            in_tabs: false,
            tab_count: 0,
            tabs_closing: false,
            buffering: false,
            display: false,
            contents: Vec::new(),
        };
        assert(s@.stack =~= Seq::<Seq<char>>::empty());
        assert(s@.contents =~= Seq::<Seq<char>>::empty());
        s
    }

    /// The sources that `line` hands to the expression engine.
    pub fn requests(&self, line: &Vec<char>) -> (r: Vec<Vec<char>>)
        ensures
            r.deep_view() == wants(self@, line@),
    {
        let kind = classify(line, self.in_tabs, self.tabs_closing);
        match kind {
            LineKind::FenceClose => {
                let mut r: Vec<Vec<char>> = Vec::new();
                if self.buffering && self.contents.len() > 0 {
                    let code = join_with_newlines(&self.contents);
                    assert(code.deep_view() =~= code@);
                    r.push(code);
                    assert(r.deep_view() =~= seq![join_lines(self@.contents)]);
                } else {
                    assert(r.deep_view() =~= Seq::<Seq<char>>::empty());
                }
                r
            },
            LineKind::Regular => {
                if self.buffering {
                    let r: Vec<Vec<char>> = Vec::new();
                    assert(r.deep_view() =~= Seq::<Seq<char>>::empty());
                    r
                } else {
                    span_bodies(line)
                }
            },
            _ => {
                let r: Vec<Vec<char>> = Vec::new();
                assert(r.deep_view() =~= Seq::<Seq<char>>::empty());
                r
            },
        }
    }
}

impl Session {
    /// Opens a block of class `class`; an empty class opens nothing.
    fn handle_admonition_start(&mut self, class: Vec<char>) -> (out: Vec<char>)
        ensures
            class@.len() == 0 ==> final(self)@ == old(self)@ && out@.len() == 0,
            class@.len() > 0 ==> final(self)@ == (SessionView {
                stack: old(self)@.stack.push(class@),
                ..old(self)@
            }) && out@ == open_line(class@),
    {
        let mut out: Vec<char> = Vec::new();
        if class.len() == 0 {
            return out;
        }
        push_open_line(&mut out, &class);
        let ghost before = self.stack.deep_view();
        assert(class.deep_view() =~= class@);
        self.stack.push(class);
        assert(self.stack.deep_view() =~= before.push(class@));
        out
    }

    /// Closes the innermost open block, or gives the marker back when none
    /// is open.
    fn handle_admonition_end(&mut self) -> (out: Vec<char>)
        ensures
            old(self)@.stack.len() == 0 ==> final(self)@ == old(self)@ && out@
                == unmatched_close(),
            old(self)@.stack.len() > 0 ==> final(self)@ == (SessionView {
                stack: old(self)@.stack.drop_last(),
                ..old(self)@
            }) && out@ == close_line(old(self)@.stack.last()),
    {
        let mut out: Vec<char> = Vec::new();
        let ghost before = self.stack.deep_view();
        match self.stack.pop() {
            Some(class) => {
                assert(self.stack.deep_view() =~= before.drop_last());
                assert(class@ == before.last());
                push_close_line(&mut out, &class);
            },
            None => {
                push_str(&mut out, ":::\n");
            },
        }
        out
    }

    fn handle_tabs_start(&mut self) -> (out: Vec<char>)
        ensures
            final(self)@ == (SessionView {
                in_tabs: true,
                tab_count: 0,
                tabs_closing: false,
                ..old(self)@
            }),
            out@ == tabs_open(),
    {
        self.in_tabs = true;
        self.tab_count = 0;
        self.tabs_closing = false;
        let mut out: Vec<char> = Vec::new();
        push_str(&mut out, "<div role=\"tablist\" class=\"tabs tabs-lifted\">\n");
        out
    }

    fn handle_tab(&mut self) -> (out: Vec<char>)
        ensures
            final(self)@ == (SessionView { tab_count: next_tab(old(self)@.tab_count), ..old(self)@ }),
            out@ == tab_item(next_tab(old(self)@.tab_count)),
    {
        if self.tab_count < usize::MAX {
            self.tab_count = self.tab_count + 1;
        }
        let mut out: Vec<char> = Vec::new();
        push_tab_item(&mut out, self.tab_count);
        out
    }

    fn handle_tab_end(&mut self) -> (out: Vec<char>)
        ensures
            old(self)@.tab_count == 3 ==> final(self)@ == (SessionView {
                in_tabs: false,
                tab_count: 0,
                tabs_closing: true,
                ..old(self)@
            }) && out@ == group_close(),
            old(self)@.tab_count != 3 ==> final(self)@ == old(self)@ && out@ == panel_close(),
    {
        let mut out: Vec<char> = Vec::new();
        if self.tab_count == 3 {
            self.in_tabs = false;
            self.tab_count = 0;
            self.tabs_closing = true;
            push_str(&mut out, "  </div>\n</div>\n");
        } else {
            push_str(&mut out, "  </div>\n");
        }
        out
    }

    fn handle_code_start(&mut self, display: bool) -> (out: Vec<char>)
        ensures
            final(self)@ == (SessionView {
                buffering: true,
                display: display,
                contents: Seq::empty(),
                ..old(self)@
            }),
            out@.len() == 0,
    {
        self.buffering = true;
        self.display = display;
        self.contents = Vec::new();
        assert(self.contents.deep_view() =~= Seq::<Seq<char>>::empty());
        Vec::new()
    }

    /// A bare fence: it ends the eval block being collected, which is then
    /// shown or not; outside an eval block it belongs to an ordinary code
    /// block and is given back as it came, indentation and all.
    fn handle_code_end(&mut self, line: &Vec<char>, results: &Vec<Vec<char>>) -> (out: Vec<char>)
        requires
            old(self)@.buffering && old(self)@.contents.len() > 0 ==> results.len() == 1,
        ensures
            old(self)@.buffering ==> final(self)@ == (SessionView {
                buffering: false,
                contents: Seq::empty(),
                ..old(self)@
            }) && out@ == (if old(self)@.contents.len() > 0 {
                eval_output(old(self)@.display, join_lines(old(self)@.contents), results.deep_view()[0])
            } else {
                Seq::empty()
            }),
            !old(self)@.buffering ==> final(self)@ == old(self)@ && out@ == line@ + "\n"@,
    {
        let mut out: Vec<char> = Vec::new();
        if self.buffering {
            self.buffering = false;
            if self.contents.len() > 0 {
                let code = join_with_newlines(&self.contents);
                assert(results.deep_view()[0] == results[0]@);
                if self.display && !blank(&results[0]) {
                    push_display_block(&mut out, &code, &results[0]);
                }
            }
            self.contents = Vec::new();
            assert(self.contents.deep_view() =~= Seq::<Seq<char>>::empty());
        } else {
            push_chars(&mut out, line);
            push_str(&mut out, "\n");
        }
        out
    }

    /// A line that is no marker: collected inside an eval block, else its
    /// spans are replaced by `results`.
    fn handle_regular_line(&mut self, line: &Vec<char>, results: &Vec<Vec<char>>) -> (out: Vec<char>)
        requires
            !old(self)@.buffering ==> results.len() == line_bodies(line@).len(),
        ensures
            old(self)@.buffering ==> final(self)@ == (SessionView {
                contents: old(self)@.contents.push(line@),
                ..old(self)@
            }) && out@.len() == 0,
            !old(self)@.buffering ==> final(self)@ == old(self)@ && out@ == regular_output(
                line@,
                results.deep_view(),
            ),
    {
        if self.buffering {
            let ghost before = self.contents.deep_view();
            let copy = copy_chars(line);
            assert(copy.deep_view() =~= copy@);
            self.contents.push(copy);
            assert(self.contents.deep_view() =~= before.push(line@));
            return Vec::new();
        }
        let mut out = splice(line, results);
        if blank(&out) {
            out = Vec::new();
        }
        out.push('\n');
        proof {
            reveal_strlit("\n");
        }
        out
    }

    /// Takes one line: the next state, and the text the line emits given the
    /// engine's answers to `wants(self@, line@)`.
    pub fn advance(&mut self, line: &Vec<char>, results: &Vec<Vec<char>>) -> (out: Vec<char>)
        requires
            results.len() == wants(old(self)@, line@).len(),
        ensures
            (final(self)@, out@) == step(old(self)@, line@, results.deep_view()),
    {
        let kind = classify(line, self.in_tabs, self.tabs_closing);
        match kind {
            LineKind::SuppressedClose => {
                self.tabs_closing = false;
                Vec::new()
            },
            LineKind::TabsOpen => self.handle_tabs_start(),
            LineKind::EvalOpen { display } => self.handle_code_start(display),
            LineKind::FenceClose => self.handle_code_end(line, results),
            LineKind::TabItemOpen => self.handle_tab(),
            LineKind::BlockOpen => {
                match class_of(line) {
                    Some(class) => self.handle_admonition_start(class),
                    None => Vec::new(),
                }
            },
            LineKind::TabItemClose => self.handle_tab_end(),
            LineKind::BlockClose => self.handle_admonition_end(),
            LineKind::Regular => self.handle_regular_line(line, results),
        }
    }
}

} // verus!
