//! The HTML that the dialect's constructs become.
use vstd::prelude::*;
use crate::grammar::same_chars;
use crate::text::{chars_of, decimal, push_chars, push_decimal, push_str};

verus! {

/// The opening tag of a block of class `class`.
pub open spec fn open_tag(class: Seq<char>) -> Seq<char> {
    if class == "alert"@ {
        "<div role=\"alert\" class=\"alert alert-info\">"@
    } else if class == "info"@ {
        "<div class=\"admonition note\">"@
    } else if class == "success"@ {
        "<div class=\"alert alert-success\">"@
    } else if class == "warning"@ {
        "<div class=\"admonition important\">"@
    } else if class == "error"@ {
        "<div class=\"admonition warning\">"@
    } else if class == "tip"@ {
        "<div class=\"admonition tip\">"@
    } else if class == "fold"@ {
        "<details class=\"my-details\"><summary>📂</summary>"@
    } else if class == "summary"@ {
        "<summary class=\"my-summary\">"@
    } else if class == "col"@ {
        "<div class=\"flex w-full flex-col lg:flex-row\">"@
    } else if class == "card"@ {
        "<div class=\"card bg-base-100 w-96 shadow-xl\">"@
    } else {
        "<div class=\""@ + class + "\">"@
    }
}

/// The closing tag of a block of class `class`: it matches the element that
/// `open_tag` opened.
pub open spec fn close_tag(class: Seq<char>) -> Seq<char> {
    if class == "fold"@ {
        "</details>"@
    } else if class == "summary"@ {
        "</summary>"@
    } else {
        "</div>"@
    }
}

/// The line that opens a block.
pub open spec fn open_line(class: Seq<char>) -> Seq<char> {
    open_tag(class) + "\n"@
}

/// The line that closes a block.
pub open spec fn close_line(class: Seq<char>) -> Seq<char> {
    close_tag(class) + "\n"@
}

/// What a close marker with no open block becomes: itself.
pub open spec fn unmatched_close() -> Seq<char> {
    ":::\n"@
}

/// The opening of a tab group's list.
pub open spec fn tabs_open() -> Seq<char> {
    "<div role=\"tablist\" class=\"tabs tabs-lifted\">\n"@
}

/// The selector of tab `n` and the opening of its panel; tab 2 is the one
/// selected at first.
pub open spec fn tab_item(n: nat) -> Seq<char> {
    "  <input type=\"radio\" name=\"my_tabs_2\" role=\"tab\" class=\"tab\" aria-label=\"Tab "@
        + decimal(n) + "\""@ + (if n == 2 {
        " checked=\"checked\""@
    } else {
        ""@
    }) + "/>\n  <div role=\"tabpanel\" class=\"tab-content bg-base-100 border-base-300 rounded-box p-6\">\n"@
}

/// The close of a tab's panel.
pub open spec fn panel_close() -> Seq<char> {
    "  </div>\n"@
}

/// The close of the last tab's panel and of the tab list.
pub open spec fn group_close() -> Seq<char> {
    "  </div>\n</div>\n"@
}

/// A display block: the source, then the result, each in its own container.
pub open spec fn display_block(code: Seq<char>, result: Seq<char>) -> Seq<char> {
    "<div class=\"rhai-display\">\n\n```rust\n"@ + code + "\n```\n<div class=\"rhai-out\">\n\n```\n"@
        + result + "\n```\n</div>\n</div>\n"@
}

fn is_named(class: &Vec<char>, name: &str) -> (r: bool)
    ensures
        r == (class@ == name@),
{
    same_chars(class, &chars_of(name))
}

pub fn push_open_line(out: &mut Vec<char>, class: &Vec<char>)
    ensures
        final(out)@ == old(out)@ + open_line(class@),
{
    if is_named(class, "alert") {
        push_str(out, "<div role=\"alert\" class=\"alert alert-info\">");
    } else if is_named(class, "info") {
        push_str(out, "<div class=\"admonition note\">");
    } else if is_named(class, "success") {
        push_str(out, "<div class=\"alert alert-success\">");
    } else if is_named(class, "warning") {
        push_str(out, "<div class=\"admonition important\">");
    } else if is_named(class, "error") {
        push_str(out, "<div class=\"admonition warning\">");
    } else if is_named(class, "tip") {
        push_str(out, "<div class=\"admonition tip\">");
    } else if is_named(class, "fold") {
        push_str(out, "<details class=\"my-details\"><summary>📂</summary>");
    } else if is_named(class, "summary") {
        push_str(out, "<summary class=\"my-summary\">");
    } else if is_named(class, "col") {
        push_str(out, "<div class=\"flex w-full flex-col lg:flex-row\">");
    } else if is_named(class, "card") {
        push_str(out, "<div class=\"card bg-base-100 w-96 shadow-xl\">");
    } else {
        push_str(out, "<div class=\"");
        push_chars(out, class);
        push_str(out, "\">");
    }
    push_str(out, "\n");
    assert(final(out)@ =~= old(out)@ + open_line(class@));
}

pub fn push_close_line(out: &mut Vec<char>, class: &Vec<char>)
    ensures
        final(out)@ == old(out)@ + close_line(class@),
{
    if is_named(class, "fold") {
        push_str(out, "</details>");
    } else if is_named(class, "summary") {
        push_str(out, "</summary>");
    } else {
        push_str(out, "</div>");
    }
    push_str(out, "\n");
    assert(final(out)@ =~= old(out)@ + close_line(class@));
}

pub fn push_tab_item(out: &mut Vec<char>, n: usize)
    ensures
        final(out)@ == old(out)@ + tab_item(n as nat),
{
    push_str(
        out,
        "  <input type=\"radio\" name=\"my_tabs_2\" role=\"tab\" class=\"tab\" aria-label=\"Tab ",
    );
    push_decimal(out, n);
    push_str(out, "\"");
    if n == 2 {
        push_str(out, " checked=\"checked\"");
    } else {
        push_str(out, "");
    }
    push_str(
        out,
        "/>\n  <div role=\"tabpanel\" class=\"tab-content bg-base-100 border-base-300 rounded-box p-6\">\n",
    );
    assert(final(out)@ =~= old(out)@ + tab_item(n as nat));
}

pub fn push_display_block(out: &mut Vec<char>, code: &Vec<char>, result: &Vec<char>)
    ensures
        final(out)@ == old(out)@ + display_block(code@, result@),
{
    push_str(out, "<div class=\"rhai-display\">\n\n```rust\n");
    push_chars(out, code);
    push_str(out, "\n```\n<div class=\"rhai-out\">\n\n```\n");
    push_chars(out, result);
    push_str(out, "\n```\n</div>\n</div>\n");
    assert(final(out)@ =~= old(out)@ + display_block(code@, result@));
}

} // verus!
