use draftsmith_render::grammar::{classify, LineKind};
use draftsmith_render::machine::Session;
use draftsmith_render::processor::{render_outcome, Processor};
use draftsmith_render::{add, delimit_math, output_format, process_md, render_options, OutputFormat};

fn run(input: &str) -> String {
    Processor::default().process(input)
}

#[test]
fn plain_markdown_is_unchanged() {
    let input = "# Title\n\nSome *text* with `code`.\n\n- a\n- b";
    assert_eq!(run(input), input);
}

#[test]
fn trailing_newlines_are_trimmed() {
    assert_eq!(run("one\ntwo\n\n\n"), "one\ntwo");
}

#[test]
fn empty_document_gives_empty_output() {
    assert_eq!(run(""), "");
}

#[test]
fn crlf_line_endings_become_newlines() {
    assert_eq!(run("a\r\nb\r\n"), "a\nb");
}

#[test]
fn whitespace_only_line_becomes_empty() {
    assert_eq!(run("a\n   \t\nb"), "a\n\nb");
}

#[test]
fn nested_blocks_close_in_reverse_order() {
    let input = ":::info\n:::fold\ntext\n:::\n:::";
    let expected = "<div class=\"admonition note\">\n<details class=\"my-details\"><summary>📂</summary>\ntext\n</details>\n</div>";
    assert_eq!(run(input), expected);
}

#[test]
fn known_classes_have_their_own_tags() {
    assert_eq!(run(":::alert\n:::"), "<div role=\"alert\" class=\"alert alert-info\">\n</div>");
    assert_eq!(run(":::success\n:::"), "<div class=\"alert alert-success\">\n</div>");
    assert_eq!(run(":::warning\n:::"), "<div class=\"admonition important\">\n</div>");
    assert_eq!(run(":::error\n:::"), "<div class=\"admonition warning\">\n</div>");
    assert_eq!(run(":::tip\n:::"), "<div class=\"admonition tip\">\n</div>");
    assert_eq!(run(":::summary\n:::"), "<summary class=\"my-summary\">\n</summary>");
    assert_eq!(run(":::col\n:::"), "<div class=\"flex w-full flex-col lg:flex-row\">\n</div>");
    assert_eq!(run(":::card\n:::"), "<div class=\"card bg-base-100 w-96 shadow-xl\">\n</div>");
}

#[test]
fn unknown_class_is_wrapped_verbatim() {
    assert_eq!(run("  :::my-box{x}!\n:::"), "<div class=\"my-box{x}!\">\n</div>");
}

#[test]
fn unicode_word_characters_form_a_class() {
    assert_eq!(run(":::café_1\n:::"), "<div class=\"café_1\">\n</div>");
}

#[test]
fn marker_with_other_characters_is_a_regular_line() {
    assert_eq!(run(":::a b"), ":::a b");
    assert_eq!(run(":::a.b"), ":::a.b");
}

#[test]
fn unmatched_close_is_kept_literally() {
    assert_eq!(run("text\n:::\nmore"), "text\n:::\nmore");
    assert_eq!(run(":::info\n:::\n:::"), "<div class=\"admonition note\">\n</div>\n:::");
}

#[test]
fn tab_group_swallows_its_own_close_marker_once() {
    let input = ":::tabs\n:::tab\na\n:::\n:::tab\nb\n:::\n:::tab\nc\n:::\n:::\n:::";
    let out = run(input);
    assert_eq!(out.matches("<input").count(), 3);
    assert_eq!(out.matches("checked=\"checked\"").count(), 1);
    assert!(out.contains("aria-label=\"Tab 2\" checked=\"checked\""));
    assert!(out.ends_with("  </div>\n</div>\n:::"));
}

#[test]
fn silent_eval_block_emits_nothing() {
    let input = "before\n```{rhai}\nlet x = 40 + 2;\nx\n```\nafter";
    assert_eq!(run(input), "before\nafter");
}

#[test]
fn display_eval_block_shows_source_and_result() {
    let input = "```{rhai-display}\nlet x = 40;\nx + 2\n```";
    let expected = "<div class=\"rhai-display\">\n\n```rust\nlet x = 40;\nx + 2\n```\n<div class=\"rhai-out\">\n\n```\n42\n```\n</div>\n</div>";
    assert_eq!(run(input), expected);
}

#[test]
fn display_eval_block_with_blank_result_emits_nothing() {
    let input = "a\n```{rhai-display}\nlet x = 1;\n```\nb";
    assert_eq!(run(input), "a\nb");
}

#[test]
fn empty_eval_block_emits_nothing() {
    assert_eq!(run("a\n```{rhai-display}\n```\nb"), "a\nb");
}

#[test]
fn scope_persists_across_lines_and_blocks() {
    let input = "```{rhai}\nlet x = 20;\n```\nλ#(x = x + 1)#\nvalue: λ#(x * 2)#";
    assert_eq!(run(input), "\nvalue: 42");
}

#[test]
fn scope_persists_across_documents() {
    let mut p = Processor::default();
    assert_eq!(p.process("λ#(let y = 7)#"), "");
    assert_eq!(p.process("λ#(y + 1)#"), "8");
}

#[test]
fn several_spans_on_one_line_are_replaced_in_order() {
    assert_eq!(run("λ#(1 + 1)# and λ#(2 * 3)#!"), "2 and 6!");
}

#[test]
fn span_body_ends_at_first_closing_token() {
    assert_eq!(run("λ#(1)#2)#"), "12)#");
}

#[test]
fn evaluation_error_is_shown_inline() {
    let out = run("v: λ#(no_such_fn())#");
    assert!(out.starts_with("v: Error: "));
}

#[test]
fn indented_code_block_passes_through() {
    let input = "  ```python\n  x = 1\n  ```";
    assert_eq!(run(input), input);
}

#[test]
fn process_md_runs_a_fresh_session() {
    assert_eq!(process_md("λ#(6 * 7)#", None), "42");
}

#[test]
fn outcome_text_marks_errors() {
    assert_eq!(render_outcome(&Ok("5".to_string())), "5");
    assert_eq!(render_outcome(&Err("boom".to_string())), "Error: boom");
}

#[test]
fn math_literals_get_their_delimiters_back() {
    assert_eq!(delimit_math("x^2", false), "$x^2$");
    assert_eq!(delimit_math("x^2", true), "$$x^2$$");
}

#[test]
fn renderer_passes_raw_html_through() {
    let o = render_options();
    assert!(o.unsafe_html);
    assert!(!o.tagfilter);
    assert!(o.math_dollars && o.table && o.footnotes);
}

#[test]
fn add_sums() {
    assert_eq!(add(2, 3), 5);
}

#[test]
fn markers_inside_an_eval_block_still_act() {
    let input = "```{rhai}\n:::info\n40 + 2\n```\n:::";
    assert_eq!(run(input), "<div class=\"admonition note\">\n</div>");
}

#[test]
fn owed_tab_group_marker_goes_before_an_open_block_closes() {
    let input = ":::info\n:::tabs\n:::tab\na\n:::\n:::tab\nb\n:::\n:::tab\nc\n:::\n:::\n:::";
    let out = run(input);
    assert!(out.starts_with("<div class=\"admonition note\">\n<div role=\"tablist\""));
    assert!(out.ends_with("c\n  </div>\n</div>\n</div>"));
    assert_eq!(out.matches(":::").count(), 0);
}

#[test]
fn a_tab_after_the_group_closed_is_an_ordinary_block() {
    let input = ":::tabs\n:::tab\n:::\n:::tab\n:::\n:::tab\n:::\n:::\n:::tab\n:::";
    let out = run(input);
    assert!(out.ends_with("</div>\n<div class=\"tab\">\n</div>"));
}

#[test]
fn fourth_tab_of_an_open_group_is_numbered() {
    let input = ":::tabs\n:::tab\n:::tab\n:::tab\n:::tab";
    let out = run(input);
    assert!(out.contains("aria-label=\"Tab 4\"/>"));
    assert!(out.contains("aria-label=\"Tab 2\" checked=\"checked\"/>"));
}

#[test]
fn display_eval_block_with_whitespace_result_emits_nothing() {
    let input = "a\n```{rhai-display}\n\"  \"\n```\nb";
    assert_eq!(run(input), "a\nb");
}

#[test]
fn session_asks_for_span_bodies_and_splices_answers() {
    let line: Vec<char> = "x λ#(1 + 1)# y λ#(z)#".chars().collect();
    let mut session = Session::new();
    let asks = session.requests(&line);
    let asks: Vec<String> = asks.iter().map(|a| a.iter().collect()).collect();
    assert_eq!(asks, vec!["1 + 1".to_string(), "z".to_string()]);
    let answers: Vec<Vec<char>> = vec!["two".chars().collect(), "zed".chars().collect()];
    let out: String = session.advance(&line, &answers).iter().collect();
    assert_eq!(out, "x two y zed\n");
}

#[test]
fn session_hands_an_eval_block_over_as_one_source() {
    let mut session = Session::new();
    let none: Vec<Vec<char>> = Vec::new();
    for l in ["```{rhai-display}", "let a = 1;", "a + 1"] {
        let line: Vec<char> = l.chars().collect();
        assert!(session.requests(&line).is_empty());
        assert!(session.advance(&line, &none).is_empty());
    }
    let fence: Vec<char> = "```".chars().collect();
    let asks = session.requests(&fence);
    assert_eq!(asks.len(), 1);
    assert_eq!(asks[0].iter().collect::<String>(), "let a = 1;\na + 1");
    let out: String = session.advance(&fence, &vec!["2".chars().collect()]).iter().collect();
    assert_eq!(
        out,
        "<div class=\"rhai-display\">\n\n```rust\nlet a = 1;\na + 1\n```\n<div class=\"rhai-out\">\n\n```\n2\n```\n</div>\n</div>\n"
    );
}

#[test]
fn classify_follows_the_priority_order() {
    let l = |s: &str| -> Vec<char> { s.chars().collect() };
    assert_eq!(classify(&l(":::"), true, true), LineKind::SuppressedClose);
    assert_eq!(classify(&l(":::"), true, false), LineKind::TabItemClose);
    assert_eq!(classify(&l("  :::"), false, false), LineKind::BlockClose);
    assert_eq!(classify(&l(":::tabs"), true, true), LineKind::TabsOpen);
    assert_eq!(classify(&l("```{rhai}"), false, false), LineKind::EvalOpen { display: false });
    assert_eq!(classify(&l("\t```{rhai-display}"), false, false), LineKind::EvalOpen { display: true });
    assert_eq!(classify(&l("```"), false, false), LineKind::FenceClose);
    assert_eq!(classify(&l(":::tab"), true, false), LineKind::TabItemOpen);
    assert_eq!(classify(&l(":::tab"), false, false), LineKind::BlockOpen);
    assert_eq!(classify(&l("```rust"), false, false), LineKind::Regular);
    assert_eq!(classify(&l("::: "), false, false), LineKind::Regular);
}

#[test]
fn format_names_select_the_output() {
    assert_eq!(output_format("html"), Some(OutputFormat::Html));
    assert_eq!(output_format("markdown"), Some(OutputFormat::Markdown));
    assert_eq!(output_format("md"), Some(OutputFormat::Markdown));
    assert_eq!(output_format("pdf"), None);
    assert_eq!(output_format("HTML"), None);
}

#[test]
fn bare_fence_outside_eval_block_passes_through_unchanged() {
    assert_eq!(run(" ```"), " ```");
    assert_eq!(run("\t```"), "\t```");
    assert_eq!(run("```\ncode\n```"), "```\ncode\n```");
}

#[test]
fn closing_fence_keeps_its_own_indentation() {
    let input = "  ```python\n  x = 1\n    ```\n```{rhai}\nlet a = 1;\n```\n\t```";
    assert_eq!(run(input), "  ```python\n  x = 1\n    ```\n\t```");
}
