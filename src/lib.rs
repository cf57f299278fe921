//! A preprocessor for a small markdown dialect: admonition blocks, tab groups,
//! inline expressions and evaluated code blocks, the last two run by an
//! embedded rhai engine. What it emits is plain markdown with HTML blocks,
//! ready for a markdown renderer.
use vstd::prelude::*;

pub mod grammar;
pub mod inline;
pub mod laws;
pub mod machine;
pub mod markup;
pub mod processor;
pub mod text;

use crate::machine::{initial, SessionView};
use crate::processor::{processes, CustomFn, Evaluation, Processor};
use crate::grammar::same_chars;
use crate::text::{chars_of, push_str, string_of};

verus! {

/// Adds two integers whose sum fits in a `u64`.
pub fn add(left: u64, right: u64) -> (r: u64)
    requires
        left + right <= u64::MAX,
    ensures
        r == left + right,
{
    left + right
}

/// Preprocesses `document` in a fresh session whose engine has the core and
/// basic math packages and whatever `functions` register. The engine's
/// answers are not known here: the result is what some sequence of them
/// makes of the document.
pub fn process_md(document: &str, functions: Option<Vec<CustomFn>>) -> (r: String)
    ensures
        exists|fresh: Seq<Evaluation>, end: SessionView| processes(initial(), document@, fresh, end, r@),
{
    let mut processor = Processor::new(functions);
    let r = processor.process(document);
    proof {
        let fresh = processor@.history.skip(0);
        assert(processes(initial(), document@, fresh, processor@.session, r@));
    }
    r
}

/// The markdown extensions and rendering choices that the HTML renderer is
/// run with.
#[derive(Clone, Copy, Debug, PartialEq, Eq, Structural)]
pub struct RenderOptions {
    pub autolink: bool,
    pub footnotes: bool,
    pub greentext: bool,
    pub math_dollars: bool,
    pub spoiler: bool,
    pub strikethrough: bool,
    pub table: bool,
    pub tagfilter: bool,
    pub tasklist: bool,
    pub underline: bool,
    pub wikilinks_title_after_pipe: bool,
    pub figure_with_caption: bool,
    pub full_info_string: bool,
    pub github_pre_lang: bool,
    /// Raw HTML passes through, which the preprocessor's own output needs.
    pub unsafe_html: bool,
}

/// Every extension on but the tag filter, so that raw HTML passes through.
pub fn render_options() -> (o: RenderOptions)
    ensures
        o == (RenderOptions {
            autolink: true,
            footnotes: true,
            greentext: true,
            math_dollars: true,
            spoiler: true,
            strikethrough: true,
            table: true,
            tagfilter: false,
            tasklist: true,
            underline: true,
            wikilinks_title_after_pipe: true,
            figure_with_caption: true,
            full_info_string: true,
            github_pre_lang: true,
            unsafe_html: true,
        }),
{
    RenderOptions {
        autolink: true,
        footnotes: true,
        greentext: true,
        math_dollars: true,
        spoiler: true,
        strikethrough: true,
        table: true,
        tagfilter: false,
        tasklist: true,
        underline: true,
        wikilinks_title_after_pipe: true,
        figure_with_caption: true,
        full_info_string: true,
        github_pre_lang: true,
        unsafe_html: true,
    }
}

/// What a document is turned into.
#[derive(Clone, Copy, Debug, PartialEq, Eq, Structural)]
pub enum OutputFormat {
    /// Preprocessed, then rendered to HTML.
    Html,
    /// Preprocessed only.
    Markdown,
}

/// The format a name selects: `html`, or `markdown` and its short form `md`.
pub open spec fn format_named(name: Seq<char>) -> Option<OutputFormat> {
    if name == "html"@ {
        Some(OutputFormat::Html)
    } else if name == "markdown"@ || name == "md"@ {
        Some(OutputFormat::Markdown)
    } else {
        None
    }
}

pub fn output_format(name: &str) -> (r: Option<OutputFormat>)
    ensures
        r == format_named(name@),
{
    let n = chars_of(name);
    if same_chars(&n, &chars_of("html")) {
        Some(OutputFormat::Html)
    } else if same_chars(&n, &chars_of("markdown")) || same_chars(&n, &chars_of("md")) {
        Some(OutputFormat::Markdown)
    } else {
        None
    }
}

/// The delimiter of a math literal: `$$` for display math, `$` inline.
pub open spec fn math_delimiter(display: bool) -> Seq<char> {
    if display {
        "$$"@
    } else {
        "$"@
    }
}

/// A math literal with the delimiters that the markdown parser stripped put
/// back around it.
pub fn delimit_math(literal: &str, display: bool) -> (r: String)
    ensures
        r@ == math_delimiter(display) + literal@ + math_delimiter(display),
{
    let delimiter = if display {
        "$$"
    } else {
        "$"
    };
    let mut v: Vec<char> = Vec::new();
    push_str(&mut v, delimiter);
    push_str(&mut v, literal);
    push_str(&mut v, delimiter);
    string_of(&v)
}

} // verus!
