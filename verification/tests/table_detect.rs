use codex_tui::table_detect::is_table_delimiter_line;
use codex_tui::table_detect::is_table_delimiter_segment;
use codex_tui::table_detect::is_table_header_line;
use codex_tui::table_detect::parse_table_segments;
use codex_tui::table_detect::scan_table_pattern;
use codex_tui::table_detect::TablePatternState;
use codex_tui::table_detect::TableScanLine;

#[test]
fn parse_table_segments_basic() {
    assert_eq!(
        parse_table_segments("| A | B | C |"),
        Some(vec!["A", "B", "C"])
    );
}

#[test]
fn parse_table_segments_no_outer_pipes() {
    assert_eq!(parse_table_segments("A | B | C"), Some(vec!["A", "B", "C"]));
}

#[test]
fn parse_table_segments_single_segment_returns_none() {
    assert_eq!(parse_table_segments("| only |"), None);
}

#[test]
fn parse_table_segments_empty_returns_none() {
    assert_eq!(parse_table_segments(""), None);
    assert_eq!(parse_table_segments("   "), None);
}

#[test]
fn is_table_delimiter_segment_valid() {
    assert!(is_table_delimiter_segment("---"));
    assert!(is_table_delimiter_segment(":---"));
    assert!(is_table_delimiter_segment("---:"));
    assert!(is_table_delimiter_segment(":---:"));
    assert!(is_table_delimiter_segment(":-------:"));
}

#[test]
fn is_table_delimiter_segment_invalid() {
    assert!(!is_table_delimiter_segment(""));
    assert!(!is_table_delimiter_segment("--"));
    assert!(!is_table_delimiter_segment("abc"));
    assert!(!is_table_delimiter_segment(":--"));
}

#[test]
fn is_table_delimiter_line_valid() {
    assert!(is_table_delimiter_line("| --- | --- |"));
    assert!(is_table_delimiter_line("|:---:|---:|"));
    assert!(is_table_delimiter_line("--- | --- | ---"));
}

#[test]
fn is_table_delimiter_line_invalid() {
    assert!(!is_table_delimiter_line("| A | B |"));
    assert!(!is_table_delimiter_line("| -- | -- |"));
}

#[test]
fn is_table_header_line_valid() {
    assert!(is_table_header_line("| A | B |"));
    assert!(is_table_header_line("Name | Value"));
}

#[test]
fn is_table_header_line_all_empty_segments() {
    assert!(!is_table_header_line("| | |"));
}

#[test]
fn scan_table_pattern_returns_confirmed_for_header_delimiter_pair() {
    let state = scan_table_pattern(&[
        TableScanLine {
            text: "| A | B |",
            enabled: true,
        },
        TableScanLine {
            text: "| --- | --- |",
            enabled: true,
        },
    ]);
    assert_eq!(state, TablePatternState::Confirmed);
}

#[test]
fn scan_table_pattern_returns_pending_for_trailing_header() {
    let state = scan_table_pattern(&[
        TableScanLine {
            text: "intro",
            enabled: true,
        },
        TableScanLine {
            text: "| A | B |",
            enabled: true,
        },
        TableScanLine {
            text: "",
            enabled: true,
        },
    ]);
    assert_eq!(state, TablePatternState::PendingHeader);
}

#[test]
fn scan_table_pattern_returns_none_for_non_table_lines() {
    let state = scan_table_pattern(&[
        TableScanLine {
            text: "hello world",
            enabled: true,
        },
        TableScanLine {
            text: "still prose",
            enabled: true,
        },
    ]);
    assert_eq!(state, TablePatternState::NoTable);
}

#[test]
fn scan_table_pattern_disabled_line_clears_pending_state() {
    let state = scan_table_pattern(&[
        TableScanLine {
            text: "| A | B |",
            enabled: true,
        },
        TableScanLine {
            text: "```rust",
            enabled: false,
        },
    ]);
    assert_eq!(state, TablePatternState::NoTable);
}
