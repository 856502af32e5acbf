use codex_tui::streaming::holdback::is_markdown_fence;
use codex_tui::streaming::holdback::parse_fence_marker;
use codex_tui::streaming::holdback::parse_lines_with_fence_state;
use codex_tui::streaming::holdback::strip_blockquote_prefix;
use codex_tui::streaming::holdback::table_candidate_text;
use codex_tui::streaming::holdback::table_holdback_state;
use codex_tui::streaming::holdback::FenceContext;
use codex_tui::streaming::holdback::TableHoldbackState;
use codex_tui::streaming::holdback::FenceContext::Markdown;
use codex_tui::streaming::holdback::FenceContext::Other;
use codex_tui::streaming::holdback::FenceContext::Outside;
use codex_tui::streaming::holdback::TableHoldbackState::Confirmed;
use codex_tui::streaming::holdback::TableHoldbackState::NoTable;
use codex_tui::streaming::holdback::TableHoldbackState::PendingHeader;

#[test]
fn fence_markers_need_three_of_one_kind() {
    assert_eq!(parse_fence_marker("```"), Some(('`', 3)));
    assert_eq!(parse_fence_marker("~~~~md"), Some(('~', 4)));
    assert_eq!(parse_fence_marker("``"), None);
    assert_eq!(parse_fence_marker("`~~"), None);
    assert_eq!(parse_fence_marker(" ```"), None);
    assert_eq!(parse_fence_marker(""), None);
    assert_eq!(parse_fence_marker("---"), None);
}

#[test]
fn markdown_fences_are_named_md_or_markdown() {
    assert!(is_markdown_fence("```md", 3));
    assert!(is_markdown_fence("```  MarkDown title", 3));
    assert!(is_markdown_fence("~~~~MD", 4));
    assert!(!is_markdown_fence("```", 3));
    assert!(!is_markdown_fence("```mdx", 3));
    assert!(!is_markdown_fence("```rust md", 3));
}

fn contexts(source: &str) -> Vec<FenceContext> {
    parse_lines_with_fence_state(source)
        .iter()
        .map(|line| line.fence_context)
        .collect()
}

#[test]
fn lines_know_their_fence() {
    let lines = parse_lines_with_fence_state("a\n```sh\nb\n```\nc");
    assert_eq!(
        lines.iter().map(|l| l.text).collect::<Vec<_>>(),
        vec!["a", "```sh", "b", "```", "c"]
    );
    assert_eq!(
        contexts("a\n```sh\nb\n```\nc"),
        vec![Outside, Outside, Other, Other, Outside]
    );
    assert_eq!(
        contexts("  ```md\nx\n  ```\ny\n"),
        vec![Outside, Markdown, Markdown, Outside, Outside]
    );
    // A fence of tildes is not closed by backticks, and an unclosed fence
    // goes on to the end.
    assert_eq!(
        contexts("~~~\n```\nx"),
        vec![Outside, Other, Other]
    );
}

#[test]
fn a_fence_closes_on_a_bare_marker_of_its_length() {
    // A shorter run does not close the fence.
    assert_eq!(
        contexts("````\n```\n````\nx"),
        vec![Outside, Other, Other, Outside]
    );
    // Text behind the marker keeps the fence open.
    assert_eq!(
        contexts("```\n``` not the end\n```  \nx"),
        vec![Outside, Other, Other, Outside]
    );
}

#[test]
fn blockquote_prefix_is_stripped_repeatedly() {
    assert_eq!(strip_blockquote_prefix("> | A |"), "| A |");
    assert_eq!(strip_blockquote_prefix("  >>   > x "), "x ");
    assert_eq!(strip_blockquote_prefix(">"), "");
    assert_eq!(strip_blockquote_prefix("plain > text"), "plain > text");
    assert_eq!(table_candidate_text(" > | A | B | "), Some("| A | B |"));
    assert_eq!(table_candidate_text("> prose"), None);
    assert_eq!(table_candidate_text(""), None);
}

fn state(source: &str) -> TableHoldbackState {
    table_holdback_state(source)
}

#[test]
fn holdback_follows_header_and_delimiter() {
    assert_eq!(state(""), NoTable);
    assert_eq!(state("prose\n"), NoTable);
    assert_eq!(state("| A | B |\n"), PendingHeader);
    assert_eq!(state("| A | B |"), PendingHeader);
    assert_eq!(state("| A | B |\n\n\n"), PendingHeader);
    assert_eq!(state("| A | B |\nnext\n"), NoTable);
    assert_eq!(state("| A | B |\n| --- | --- |\n"), Confirmed);
    assert_eq!(state("A | B\n---|---\n1 | 2\n\nafter\n"), Confirmed);
    assert_eq!(state("> | A | B |\n> | --- | --- |\n"), Confirmed);
    // A header needs its delimiter on the very next line.
    assert_eq!(state("| A | B |\n\n| --- | --- |\n"), NoTable);
}

#[test]
fn a_delimiter_row_is_no_header() {
    assert_eq!(state("--- | ---\n"), NoTable);
    assert_eq!(state("--- | ---\n--- | ---\n"), NoTable);
}

#[test]
fn header_fence_isolation() {
    assert_eq!(state("```sh\n| A | B |\n"), NoTable);
    assert_eq!(state("```sh\n| A | B |\n|---|---|\n| 1 | 2 |\n```\n"), NoTable);
    assert_eq!(state("```\n| A | B |\n|---|---|\n"), NoTable);
    assert_eq!(state("```md\n| A | B |\n"), PendingHeader);
    assert_eq!(state("```md\n| A | B |\n|---|---|\n"), Confirmed);
    // A line that is not blank ends a pending header, the opening line of
    // a fence and a line of code too.
    assert_eq!(state("| A | B |\n```rust"), NoTable);
    assert_eq!(state("| A | B |\n```rust\n| C | D |\n"), NoTable);
    assert_eq!(state("```rust\nx\n```\n| A | B |\n"), PendingHeader);
    // A header before a fence of code is not confirmed by a delimiter in it.
    assert_eq!(state("| A | B |\n```\n|---|---|\n"), NoTable);
}
