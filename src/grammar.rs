//! The line grammar of the dialect: which construct a line opens, closes or
//! continues. A marker may be indented by any white space and must fill the
//! rest of the line.
use vstd::prelude::*;
use crate::text::{chars_of, leading_space, lemma_indent_len_bound, trim_start};

verus! {

/// Whether `c` is a Unicode word character, what `\w` matches: a character
/// of the `Alphabetic` or `Join_Control` property, or of the `Decimal_Number`,
/// `Mark` or `Connector_Punctuation` category.
pub uninterp spec fn unicode_word_char(c: char) -> bool;

/// Relies on `regex_syntax::is_word_character` for the Unicode word class. It
/// panics only when the crate's `unicode-perl` feature is off, and the
/// default features turn it on.
#[verifier::external_body]
fn is_word_char(c: char) -> (r: bool)
    ensures
        r == unicode_word_char(c),
{
    regex_syntax::is_word_character(c)
}

/// An ASCII letter, digit or underscore: the word characters of ASCII,
/// all of them Unicode word characters too.
pub open spec fn is_ascii_word(c: char) -> bool {
    ('a' <= c <= 'z') || ('A' <= c <= 'Z') || ('0' <= c <= '9') || c == '_'
}

/// A character that a block's class name may hold: a word character or one
/// of `!`, `{`, `}` and `-`.
pub open spec fn is_class_char(c: char) -> bool {
    is_ascii_word(c) || unicode_word_char(c) || c == '!' || c == '{' || c == '}' || c == '-'
}

fn class_char(c: char) -> (r: bool)
    ensures
        r == is_class_char(c),
{
    ('a' <= c && c <= 'z') || ('A' <= c && c <= 'Z') || ('0' <= c && c <= '9') || c == '_'
        || is_word_char(c) || c == '!' || c == '{' || c == '}' || c == '-'
}

/// The marker that closes a block: `:::`.
pub open spec fn is_block_close(line: Seq<char>) -> bool {
    trim_start(line) == ":::"@
}

/// The marker that opens a tab group: `:::tabs`.
pub open spec fn is_tabs_open(line: Seq<char>) -> bool {
    trim_start(line) == ":::tabs"@
}

/// The fence that opens a silent eval block: ```` ```{rhai} ````.
pub open spec fn is_eval_open(line: Seq<char>) -> bool {
    trim_start(line) == "```{rhai}"@
}

/// The fence that opens a display eval block: ```` ```{rhai-display} ````.
pub open spec fn is_display_open(line: Seq<char>) -> bool {
    trim_start(line) == "```{rhai-display}"@
}

/// A bare fence: ```` ``` ````.
pub open spec fn is_fence(line: Seq<char>) -> bool {
    trim_start(line) == "```"@
}

/// The class name of a block-open marker, `:::` followed by one or more
/// class characters.
pub open spec fn block_class(line: Seq<char>) -> Option<Seq<char>> {
    let t = trim_start(line);
    if t.len() > 3 && t.take(3) == ":::"@ && (forall|i: int|
        3 <= i < t.len() ==> is_class_char(#[trigger] t[i])) {
        Some(t.skip(3))
    } else {
        None
    }
}

/// What a line is, given whether a tab group is open and whether the close
/// marker that ends a finished tab group is still owed.
#[derive(PartialEq, Eq, Structural, Clone, Copy, Debug)]
pub enum LineKind {
    /// The close marker of a tab group whose last tab has closed.
    SuppressedClose,
    TabsOpen,
    EvalOpen { display: bool },
    FenceClose,
    TabItemOpen,
    /// Opens a block whose class is `block_class` of the line.
    BlockOpen,
    TabItemClose,
    BlockClose,
    Regular,
}

/// The classification of a line; the first rule that applies wins.
pub open spec fn kind_of(line: Seq<char>, in_tabs: bool, closing: bool) -> LineKind {
    if closing && is_block_close(line) {
        LineKind::SuppressedClose
    } else if is_tabs_open(line) {
        LineKind::TabsOpen
    } else if is_eval_open(line) {
        LineKind::EvalOpen { display: false }
    } else if is_display_open(line) {
        LineKind::EvalOpen { display: true }
    } else if is_fence(line) {
        LineKind::FenceClose
    } else if block_class(line) is Some {
        if in_tabs && block_class(line)->0 == "tab"@ {
            LineKind::TabItemOpen
        } else {
            LineKind::BlockOpen
        }
    } else if is_block_close(line) {
        if in_tabs {
            LineKind::TabItemClose
        } else {
            LineKind::BlockClose
        }
    } else {
        LineKind::Regular
    }
}

/// Whether `a` and `b` hold the same characters.
pub fn same_chars(a: &Vec<char>, b: &Vec<char>) -> (r: bool)
    ensures
        r == (a@ == b@),
{
    if a.len() != b.len() {
        return false;
    }
    let mut i: usize = 0;
    while i < a.len()
        invariant
            a.len() == b.len(),
            i <= a.len(),
            forall|k: int| 0 <= k < i ==> a@[k] == b@[k],
        decreases a.len() - i,
    {
        if a[i] != b[i] {
            return false;
        }
        i = i + 1;
    }
    assert(a@ =~= b@);
    true
}

/// The characters of `line` from `from` on.
fn tail_of(line: &Vec<char>, from: usize) -> (r: Vec<char>)
    requires
        from <= line.len(),
    ensures
        r@ == line@.skip(from as int),
{
    let mut r: Vec<char> = Vec::new();
    let mut i: usize = from;
    while i < line.len()
        invariant
            from <= i <= line.len(),
            r@ == line@.subrange(from as int, i as int),
        decreases line.len() - i,
    {
        r.push(line[i]);
        i = i + 1;
        assert(r@ =~= line@.subrange(from as int, i as int));
    }
    r
}

/// `line` without its leading white space.
pub fn unindented(line: &Vec<char>) -> (r: Vec<char>)
    ensures
        r@ == trim_start(line@),
{
    let i = leading_space(line);
    proof {
        lemma_indent_len_bound(line@);
    }
    tail_of(line, i)
}

/// The class name of a block-open marker, if `line` is one.
pub fn class_of(line: &Vec<char>) -> (r: Option<Vec<char>>)
    ensures
        r matches Some(c) ==> block_class(line@) == Some(c@),
        r is None ==> block_class(line@) is None,
{
    let t = unindented(line);
    if t.len() <= 3 {
        return None;
    }
    let marker = chars_of(":::");
    let mut start: Vec<char> = Vec::new();
    start.push(t[0]);
    start.push(t[1]);
    start.push(t[2]);
    assert(start@ =~= t@.take(3));
    if !same_chars(&start, &marker) {
        return None;
    }
    let mut i: usize = 3;
    while i < t.len()
        invariant
            3 <= i <= t.len(),
            t@ == trim_start(line@),
            forall|k: int| 3 <= k < i ==> is_class_char(#[trigger] t@[k]),
        decreases t.len() - i,
    {
        let c = t[i];
        if !class_char(c) {
            assert(!is_class_char(t@[i as int]));
            return None;
        }
        i = i + 1;
    }
    Some(tail_of(&t, 3))
}

/// The kind of `line`, given whether a tab group is open and whether a
/// finished tab group's close marker is owed.
pub fn classify(line: &Vec<char>, in_tabs: bool, closing: bool) -> (k: LineKind)
    ensures
        k == kind_of(line@, in_tabs, closing),
{
    let t = unindented(line);
    let close = same_chars(&t, &chars_of(":::"));
    if closing && close {
        LineKind::SuppressedClose
    } else if same_chars(&t, &chars_of(":::tabs")) {
        LineKind::TabsOpen
    } else if same_chars(&t, &chars_of("```{rhai}")) {
        LineKind::EvalOpen { display: false }
    } else if same_chars(&t, &chars_of("```{rhai-display}")) {
        LineKind::EvalOpen { display: true }
    } else if same_chars(&t, &chars_of("```")) {
        LineKind::FenceClose
    } else {
        match class_of(line) {
            Some(c) => {
                if in_tabs && same_chars(&c, &chars_of("tab")) {
                    LineKind::TabItemOpen
                } else {
                    LineKind::BlockOpen
                }
            },
            None => {
                if close {
                    if in_tabs {
                        LineKind::TabItemClose
                    } else {
                        LineKind::BlockClose
                    }
                } else {
                    LineKind::Regular
                }
            },
        }
    }
}

} // verus!
