//! A preprocessing session: the line state machine, an expression engine and
//! the one scope that every evaluation of the session runs against.
use vstd::prelude::*;
use rhai::packages::{BasicMathPackage, CorePackage, Package};
use rhai::{Engine, Scope};
use crate::machine::{lemma_run_push, run, Session, SessionView, initial};
use crate::text::{
    chars_of, drop_trailing_newlines, lines_of, push_chars, push_str, split_lines, string_of,
    trim_end_newlines,
};

verus! {

/// rhai's script engine, carried through unopened.
#[verifier::external_type_specification]
#[verifier::external_body]
pub struct ExEngine(Engine);

/// rhai's variable scope, carried through unopened.
#[verifier::external_type_specification]
#[verifier::external_body]
pub struct ExScope<'a>(Scope<'a>);

/// Something that registers host functions with an engine, such as a
/// closure taking `&mut Engine`.
pub trait EngineHook {
    fn register(&self, engine: &mut Engine);
}

/// Calls a host's registration closure on `engine`. Nothing is assumed of
/// what it registers.
#[verifier::external_body]
fn call_hook<F: Fn(&mut Engine)>(hook: &F, engine: &mut Engine) {
    hook(engine)
}

impl<F: Fn(&mut Engine)> EngineHook for F {
    fn register(&self, engine: &mut Engine) {
        call_hook(self, engine)
    }
}

/// A hook that registers host functions with the engine before any document
/// is processed.
pub type CustomFn = Box<dyn EngineHook>;

/// Relies on `rhai::Engine::new_raw`: an engine with no packages loaded.
pub assume_specification[ Engine::new_raw ]() -> Engine;

/// Relies on `rhai::Scope::new`: an empty scope.
pub assume_specification<'a>[ Scope::<'a>::new ]() -> Scope<'a>;

/// Relies on `rhai::packages::CorePackage` and its `register_into_engine`:
/// loads the core language functions into `engine`.
#[verifier::external_body]
fn load_core_package(engine: &mut Engine) {
    CorePackage::new().register_into_engine(engine);
}

/// Relies on `rhai::packages::BasicMathPackage` and its
/// `register_into_engine`: loads the basic math functions into `engine`.
#[verifier::external_body]
fn load_math_package(engine: &mut Engine) {
    BasicMathPackage::new().register_into_engine(engine);
}

/// Relies on `rhai::Engine::eval_with_scope`: runs `code` against `scope`,
/// which the script may change, and gives the value as its `Display` text or
/// the error as its message. What comes back depends on the scope and on the
/// host functions registered, so nothing is stated of it; the call returns
/// when the script does.
#[verifier::external_body]
fn eval_script(engine: &Engine, scope: &mut Scope, code: &str) -> Result<String, String> {
    match engine.eval_with_scope::<rhai::Dynamic>(scope, code) {
        Ok(value) => Ok(value.to_string()),
        Err(err) => Err(err.to_string()),
    }
}

/// The text that an evaluation outcome stands for: the value's text, or the
/// error's message after `Error: `.
pub open spec fn outcome_text(outcome: Result<Seq<char>, Seq<char>>) -> Seq<char> {
    match outcome {
        Ok(t) => t,
        Err(e) => "Error: "@ + e,
    }
}

/// The text of an evaluation outcome: an error is shown, never raised.
pub fn render_outcome(outcome: &Result<String, String>) -> (r: String)
    ensures
        r@ == outcome_text(match outcome {
            Ok(t) => Ok(t@),
            Err(e) => Err(e@),
        }),
{
    match outcome {
        Ok(t) => string_of(&chars_of(t.as_str())),
        Err(e) => {
            let mut v: Vec<char> = Vec::new();
            push_str(&mut v, "Error: ");
            push_str(&mut v, e.as_str());
            string_of(&v)
        },
    }
}

/// One evaluation of a session: the source handed to the engine and the text
/// that came back.
pub struct Evaluation {
    pub source: Seq<char>,
    pub result: Seq<char>,
}

pub open spec fn sources_of(h: Seq<Evaluation>) -> Seq<Seq<char>> {
    h.map_values(|e: Evaluation| e.source)
}

pub open spec fn results_of(h: Seq<Evaluation>) -> Seq<Seq<char>> {
    h.map_values(|e: Evaluation| e.result)
}

/// What `input` does to a session in state `s` whose engine answers in
/// turn with `fresh`: the sources asked are those of `fresh`, and the
/// session ends in `end` having emitted `out`.
pub open spec fn processes(
    s: SessionView,
    input: Seq<char>,
    fresh: Seq<Evaluation>,
    end: SessionView,
    out: Seq<char>,
) -> bool {
    let (s1, text, asked) = run(s, lines_of(input), results_of(fresh));
    &&& asked == sources_of(fresh)
    &&& end == s1
    &&& out == trim_end_newlines(text)
}

/// The model of a processor: its session state and every evaluation it has
/// made, oldest first, all against its one scope.
pub struct ProcessorView {
    pub session: SessionView,
    pub history: Seq<Evaluation>,
}

/// A preprocessor for the dialect, holding a session's state across the
/// documents it processes.
pub struct Processor<'a> {
    session: Session,
    engine: Engine,
    scope: Scope<'a>,
    history: Ghost<Seq<Evaluation>>,
}

impl<'a> View for Processor<'a> {
    type V = ProcessorView;

    closed spec fn view(&self) -> ProcessorView {
        ProcessorView { session: self.session@, history: self.history@ }
    }
}

impl<'a> Processor<'a> {
    /// A processor whose engine has the core and basic math packages and
    /// whatever the given hooks register.
    pub fn new(functions: Option<Vec<CustomFn>>) -> (p: Self)
        ensures
            p@.session == initial(),
            p@.history == Seq::<Evaluation>::empty(),
    {
        let mut engine = Engine::new_raw();
        load_core_package(&mut engine);
        load_math_package(&mut engine);
        if let Some(hooks) = functions {
            let mut i: usize = 0;
            while i < hooks.len()
                invariant
                    i <= hooks.len(),
                decreases hooks.len() - i,
            {
                hooks[i].register(&mut engine);
                i = i + 1;
            }
        }
        Processor {
            session: Session::new(),
            engine,
            scope: Scope::new(),
            history: Ghost(Seq::empty()),
        }
    }

    /// Evaluates `code` against the session's scope and records it.
    fn process_lambda(&mut self, code: &Vec<char>) -> (r: Vec<char>)
        ensures
            final(self)@.session == old(self)@.session,
            final(self)@.history == old(self)@.history.push(
                Evaluation { source: code@, result: r@ },
            ),
    {
        let source = string_of(code);
        let outcome = eval_script(&self.engine, &mut self.scope, source.as_str());
        let text = render_outcome(&outcome);
        let r = chars_of(text.as_str());
        self.history = Ghost(self.history@.push(Evaluation { source: code@, result: r@ }));
        r
    }

    /// Processes one line: evaluates what it asks, in order, then advances
    /// the session. Inline expressions run against the session's scope
    /// itself: what they change is always kept, as it would be by a working
    /// copy committed after the line.
    fn process_line(&mut self, line: &Vec<char>) -> (out: Vec<char>)
        ensures
            ({
                let fresh = final(self)@.history.skip(old(self)@.history.len() as int);
                let (s, o) = crate::machine::step(old(self)@.session, line@, results_of(fresh));
                &&& final(self)@.history == old(self)@.history + fresh
                &&& sources_of(fresh) == crate::machine::wants(old(self)@.session, line@)
                &&& final(self)@.session == s
                &&& out@ == o
            }),
    {
        let ghost h0 = self.history@;
        let asks = self.session.requests(line);
        let mut answers: Vec<Vec<char>> = Vec::new();
        let mut i: usize = 0;
        while i < asks.len()
            invariant
                i <= asks.len(),
                answers.len() == i,
                self.session@ == old(self)@.session,
                self.history@.len() == h0.len() + i,
                self.history@.take(h0.len() as int) == h0,
                sources_of(self.history@.skip(h0.len() as int)) == asks.deep_view().take(i as int),
                results_of(self.history@.skip(h0.len() as int)) == answers.deep_view(),
                h0 == old(self)@.history,
            decreases asks.len() - i,
        {
            let ghost before = self.history@;
            let ghost prior = answers.deep_view();
            assert(asks.deep_view()[i as int] =~= asks[i as int]@);
            let r = self.process_lambda(&asks[i]);
            assert(r.deep_view() =~= r@);
            answers.push(r);
            i = i + 1;
            proof {
                let fresh = self.history@.skip(h0.len() as int);
                assert(fresh =~= before.skip(h0.len() as int).push(
                    Evaluation { source: asks.deep_view()[i - 1], result: answers.deep_view()[i - 1] },
                ));
                assert(self.history@.take(h0.len() as int) =~= before.take(h0.len() as int));
                assert(sources_of(fresh) =~= asks.deep_view().take(i as int));
                assert(answers.deep_view() =~= prior.push(answers.deep_view()[i - 1]));
                assert(results_of(fresh) =~= answers.deep_view());
            }
        }
        let out = self.session.advance(line, &answers);
        proof {
            let fresh = self.history@.skip(h0.len() as int);
            assert(asks.deep_view().take(asks.len() as int) =~= asks.deep_view());
            assert(self.history@ =~= h0 + fresh);
        }
        out
    }

    /// Processes a document: each line in turn, the emitted text joined and
    /// stripped of trailing newlines. The session's state, blocks still open
    /// included, and its scope carry over to the next document.
    pub fn process(&mut self, input: &str) -> (out: String)
        ensures
            final(self)@.history.len() >= old(self)@.history.len(),
            final(self)@.history.take(old(self)@.history.len() as int) == old(self)@.history,
            processes(
                old(self)@.session,
                input@,
                final(self)@.history.skip(old(self)@.history.len() as int),
                final(self)@.session,
                out@,
            ),
    {
        let ghost h0 = self.history@;
        let ghost s0 = self.session@;
        let chars = chars_of(input);
        let lines = split_lines(&chars);
        let mut text: Vec<char> = Vec::new();
        let mut i: usize = 0;
        assert(lines.deep_view().take(0) =~= Seq::<Seq<char>>::empty());
        assert(self.history@.skip(h0.len() as int) =~= Seq::<Evaluation>::empty());
        assert(self.history@.take(h0.len() as int) =~= h0);
        while i < lines.len()
            invariant
                i <= lines.len(),
                lines.deep_view() == lines_of(input@),
                h0 == old(self)@.history,
                s0 == old(self)@.session,
                self.history@.len() >= h0.len(),
                self.history@.take(h0.len() as int) == h0,
                ({
                    let fresh = self.history@.skip(h0.len() as int);
                    let (s1, o1, w1) = run(s0, lines.deep_view().take(i as int), results_of(fresh));
                    &&& s1 == self.session@
                    &&& o1 == text@
                    &&& w1 == sources_of(fresh)
                }),
            decreases lines.len() - i,
        {
            let ghost before = self.history@;
            assert(lines.deep_view()[i as int] =~= lines[i as int]@);
            let out = self.process_line(&lines[i]);
            proof {
                let f0 = before.skip(h0.len() as int);
                let more = self.history@.skip(before.len() as int);
                let f1 = self.history@.skip(h0.len() as int);
                assert(f1 =~= f0 + more);
                assert(results_of(f1) =~= results_of(f0) + results_of(more));
                assert(sources_of(f1) =~= sources_of(f0) + sources_of(more));
                assert(self.history@.take(h0.len() as int) =~= before.take(h0.len() as int));
                assert(results_of(f0).len() == sources_of(f0).len());
                lemma_run_push(
                    s0,
                    lines.deep_view().take(i as int),
                    results_of(f0),
                    lines[i as int]@,
                    results_of(more),
                );
                assert(lines.deep_view().take(i as int).push(lines[i as int]@) =~= lines.deep_view().take(i + 1));
            }
            push_chars(&mut text, &out);
            i = i + 1;
        }
        proof {
            assert(lines.deep_view().take(lines.len() as int) =~= lines.deep_view());
        }
        drop_trailing_newlines(&mut text);
        string_of(&text)
    }
}

impl<'a> Default for Processor<'a> {
    fn default() -> (p: Self)
        ensures
            p@.session == initial(),
            p@.history == Seq::<Evaluation>::empty(),
    {
        Processor::new(None)
    }
}

} // verus!
