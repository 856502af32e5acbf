use codex_tui::markdown::unwrap_markdown_fences;
use codex_tui::render::highlight::detect_language_from_filename;
use codex_tui::render::highlight::looks_like_diff;
use codex_tui::render::highlight::normalize_language_hint;
use codex_tui::streaming::holdback::is_markdown_fence;
use codex_tui::streaming::holdback::parse_fence_marker;
use codex_tui::streaming::holdback::strip_blockquote_prefix;
use codex_tui::streaming::holdback::table_candidate_text;
use codex_tui::table_detect::is_header_candidate;
use codex_tui::table_detect::is_table_delimiter_line;
use codex_tui::table_detect::is_table_delimiter_segment;
use codex_tui::table_detect::is_table_header_line;
use codex_tui::table_detect::parse_table_segments;
use codex_tui::table_detect::scan_table_pattern;
use codex_tui::table_detect::TablePatternState;
use codex_tui::table_detect::TableScanLine;
use codex_tui::theme::parse_hex_triplet;
use std::path::Path;

// Each function of the library is held against a plain formulation of the
// same rule with the string methods of std, on many generated texts.

struct Texts {
    state: u64,
}

impl Texts {
    fn new(seed: u64) -> Self {
        Texts { state: seed }
    }

    fn next(&mut self) -> u64 {
        self.state = self
            .state
            .wrapping_mul(6364136223846793005)
            .wrapping_add(1442695040888963407);
        self.state >> 33
    }

    fn text(&mut self, alphabet: &[&str], max_len: u64) -> String {
        let len = self.next() % (max_len + 1);
        let mut out = String::new();
        for _ in 0..len {
            out.push_str(alphabet[(self.next() % alphabet.len() as u64) as usize]);
        }
        out
    }
}

const TABLE: [&str; 12] = ["|", "-", ":", " ", "a", "B", "\t", ">", "é", "--", "| ", " |"];
const FENCE: [&str; 14] = [
    "`", "~", "```", "~~~", " ", "md", "markdown", "MD", "rust", "\n", "|", "-", "x", "\t",
];
const DOCUMENT: [&str; 20] = [
    "```md\n",
    "```\n",
    "~~~ Markdown x\n",
    "~~~\n",
    "````md\n",
    "````\n",
    "   ```md\n",
    "    ```\n",
    "```rust\n",
    "``` \t\n",
    "``` x\n",
    "| a | b |\n",
    "|---|---|\n",
    "a | b | c\r\n",
    ":-- | --: | -\n",
    "| | |\n",
    "text\n",
    "\n",
    "```md",
    "|:|:|\n",
];

fn std_parse_table_segments(line: &str) -> Option<Vec<&str>> {
    let trimmed = line.trim();
    if trimmed.is_empty() {
        return None;
    }
    let mut content = trimmed;
    if let Some(without_leading) = content.strip_prefix('|') {
        content = without_leading;
    }
    if let Some(without_trailing) = content.strip_suffix('|') {
        content = without_trailing;
    }
    let segments: Vec<&str> = content.split('|').map(str::trim).collect();
    if segments.len() >= 2 {
        Some(segments)
    } else {
        None
    }
}

fn std_is_table_header_line(line: &str) -> bool {
    std_parse_table_segments(line)
        .is_some_and(|segments| segments.iter().any(|segment| !segment.is_empty()))
}

fn std_is_table_delimiter_segment(segment: &str) -> bool {
    let trimmed = segment.trim();
    if trimmed.is_empty() {
        return false;
    }
    let without_leading = trimmed.strip_prefix(':').unwrap_or(trimmed);
    let without_ends = without_leading
        .strip_suffix(':')
        .unwrap_or(without_leading);
    without_ends.len() >= 3 && without_ends.chars().all(|ch| ch == '-')
}

fn std_is_table_delimiter_line(line: &str) -> bool {
    std_parse_table_segments(line)
        .is_some_and(|segments| segments.into_iter().all(std_is_table_delimiter_segment))
}

fn std_is_header_candidate(line: TableScanLine<'_>) -> bool {
    line.enabled && std_is_table_header_line(line.text) && !std_is_table_delimiter_line(line.text)
}

fn std_scan_table_pattern(lines: &[TableScanLine<'_>]) -> TablePatternState {
    for pair in lines.windows(2) {
        if std_is_header_candidate(pair[0])
            && pair[1].enabled
            && std_is_table_delimiter_line(pair[1].text)
        {
            return TablePatternState::Confirmed;
        }
    }
    let last_nonblank = lines.iter().rev().find(|line| !line.text.trim().is_empty());
    if last_nonblank.is_some_and(|line| std_is_header_candidate(*line)) {
        TablePatternState::PendingHeader
    } else {
        TablePatternState::NoTable
    }
}

#[test]
fn table_lines_agree_with_std_formulation() {
    let mut texts = Texts::new(1);
    for _ in 0..20000 {
        let line = texts.text(&TABLE, 12);
        assert_eq!(
            parse_table_segments(&line),
            std_parse_table_segments(&line),
            "{line:?}"
        );
        assert_eq!(
            is_table_header_line(&line),
            std_is_table_header_line(&line),
            "{line:?}"
        );
        assert_eq!(
            is_table_delimiter_segment(&line),
            std_is_table_delimiter_segment(&line),
            "{line:?}"
        );
        assert_eq!(
            is_table_delimiter_line(&line),
            std_is_table_delimiter_line(&line),
            "{line:?}"
        );
    }
}

#[test]
fn table_scan_agrees_with_std_formulation() {
    let mut texts = Texts::new(2);
    let samples = ["| a | b |", "|---|---|", "--- | :--:", "a | b", "", "  ", "prose", "x |"];
    for _ in 0..20000 {
        let count = texts.next() % 5;
        let mut lines = Vec::new();
        for _ in 0..count {
            lines.push(TableScanLine {
                text: samples[(texts.next() % samples.len() as u64) as usize],
                enabled: texts.next() % 4 != 0,
            });
        }
        assert_eq!(scan_table_pattern(&lines), std_scan_table_pattern(&lines));
        for line in &lines {
            assert_eq!(is_header_candidate(*line), std_is_header_candidate(*line));
        }
    }
}

fn std_strip_blockquote_prefix(line: &str) -> &str {
    let mut rest = line.trim_start();
    loop {
        let Some(stripped) = rest.strip_prefix('>') else {
            return rest;
        };
        rest = stripped.strip_prefix(' ').unwrap_or(stripped).trim_start();
    }
}

fn std_parse_fence_marker(line: &str) -> Option<(char, usize)> {
    let mut chars = line.chars();
    let first = chars.next()?;
    if first != '`' && first != '~' {
        return None;
    }
    let mut len = 1usize;
    for ch in chars {
        if ch == first {
            len += 1;
        } else {
            break;
        }
    }
    if len < 3 {
        return None;
    }
    Some((first, len))
}

fn std_is_markdown_fence(trimmed_line: &str, marker_len: usize) -> bool {
    let info = trimmed_line[marker_len..]
        .split_whitespace()
        .next()
        .unwrap_or_default();
    info.eq_ignore_ascii_case("md") || info.eq_ignore_ascii_case("markdown")
}

#[test]
fn fence_and_quote_prefixes_agree_with_std_formulation() {
    let mut texts = Texts::new(3);
    for _ in 0..20000 {
        let line = texts.text(&TABLE, 10);
        assert_eq!(
            strip_blockquote_prefix(&line),
            std_strip_blockquote_prefix(&line),
            "{line:?}"
        );
        let stripped = std_strip_blockquote_prefix(&line).trim();
        assert_eq!(
            table_candidate_text(&line),
            std_parse_table_segments(stripped).map(|_| stripped),
            "{line:?}"
        );
        let fence = texts.text(&FENCE, 6);
        let marker = std_parse_fence_marker(&fence);
        assert_eq!(parse_fence_marker(&fence), marker, "{fence:?}");
        if let Some((_, len)) = marker {
            assert_eq!(
                is_markdown_fence(&fence, len),
                std_is_markdown_fence(&fence, len),
                "{fence:?}"
            );
        }
    }
}

#[derive(Clone, Copy)]
struct Fence {
    marker: char,
    len: usize,
    is_markdown: bool,
}

fn std_fence_body(line: &str) -> Option<&str> {
    let without_newline = line.strip_suffix('\n').unwrap_or(line);
    let leading_ws = without_newline
        .as_bytes()
        .iter()
        .take_while(|byte| **byte == b' ')
        .count();
    if leading_ws > 3 {
        return None;
    }
    Some(&without_newline[leading_ws..])
}

fn std_parse_open_fence(line: &str) -> Option<Fence> {
    let trimmed = std_fence_body(line)?;
    let marker = trimmed.chars().next()?;
    if marker != '`' && marker != '~' {
        return None;
    }
    let len = trimmed.chars().take_while(|ch| *ch == marker).count();
    if len < 3 {
        return None;
    }
    let rest = trimmed[len..].trim();
    let info = rest.split_whitespace().next().unwrap_or_default();
    let is_markdown = info.eq_ignore_ascii_case("md") || info.eq_ignore_ascii_case("markdown");
    Some(Fence {
        marker,
        len,
        is_markdown,
    })
}

fn std_is_close_fence(line: &str, fence: Fence) -> bool {
    let Some(trimmed) = std_fence_body(line) else {
        return false;
    };
    if !trimmed.starts_with(fence.marker) {
        return false;
    }
    let len = trimmed.chars().take_while(|ch| *ch == fence.marker).count();
    if len < fence.len {
        return false;
    }
    trimmed[len..].trim().is_empty()
}

fn std_is_table_candidate_line(line: &str) -> bool {
    let trimmed = line.trim();
    let pipe_count = trimmed.chars().filter(|ch| *ch == '|').count();
    if pipe_count < 2 {
        return false;
    }
    if trimmed.starts_with('|') {
        return true;
    }
    trimmed
        .split('|')
        .map(str::trim)
        .all(|segment| !segment.is_empty())
}

fn std_is_table_delimiter_row(line: &str) -> bool {
    let trimmed = line.trim();
    let pipe_count = trimmed.chars().filter(|ch| *ch == '|').count();
    if pipe_count < 2 {
        return false;
    }
    let segments: Vec<&str> = if trimmed.starts_with('|') {
        trimmed.trim_matches('|').split('|').collect()
    } else {
        trimmed.split('|').collect()
    };
    for segment in segments {
        let value = segment.trim();
        if value.is_empty() {
            return false;
        }
        if !value.chars().all(|ch| ch == '-' || ch == ':') {
            return false;
        }
        if !value.contains('-') {
            return false;
        }
    }
    true
}

fn std_fence_contains_table(content: &str) -> bool {
    let mut saw_candidate = false;
    let mut saw_delimiter = false;
    for line in content.lines() {
        let trimmed = line.trim();
        if trimmed.is_empty() {
            continue;
        }
        if !std_is_table_candidate_line(trimmed) {
            continue;
        }
        if std_is_table_delimiter_row(trimmed) {
            saw_delimiter = true;
        } else {
            saw_candidate = true;
        }
    }
    saw_candidate && saw_delimiter
}

fn std_unwrap_markdown_fences(markdown_source: &str) -> String {
    let mut out = String::with_capacity(markdown_source.len());
    // The open fence, and for a markdown fence its opening line and content.
    let mut active: Option<(Fence, Option<(String, String)>)> = None;
    for line in markdown_source.split_inclusive('\n') {
        match active.take() {
            Some((fence, None)) => {
                out.push_str(line);
                if !std_is_close_fence(line, fence) {
                    active = Some((fence, None));
                }
            }
            Some((fence, Some((opening_line, mut content)))) => {
                if std_is_close_fence(line, fence) {
                    if std_fence_contains_table(&content) {
                        out.push_str(&content);
                    } else {
                        out.push_str(&opening_line);
                        out.push_str(&content);
                        out.push_str(line);
                    }
                } else {
                    content.push_str(line);
                    active = Some((fence, Some((opening_line, content))));
                }
            }
            None => match std_parse_open_fence(line) {
                Some(fence) if fence.is_markdown => {
                    active = Some((fence, Some((line.to_string(), String::new()))));
                }
                Some(fence) => {
                    out.push_str(line);
                    active = Some((fence, None));
                }
                None => out.push_str(line),
            },
        }
    }
    if let Some((_, Some((opening_line, content)))) = active {
        out.push_str(&opening_line);
        out.push_str(&content);
    }
    out
}

#[test]
fn unwrapping_agrees_with_std_formulation() {
    let mut texts = Texts::new(4);
    let mut unwrapped = 0;
    for _ in 0..30000 {
        let source = texts.text(&DOCUMENT, 9);
        let expected = std_unwrap_markdown_fences(&source);
        if expected != source {
            unwrapped += 1;
        }
        assert_eq!(unwrap_markdown_fences(&source), expected, "{source:?}");
    }
    assert!(unwrapped > 100, "only {unwrapped} sources held a fenced table");
}

fn std_normalize_language_hint(language_hint: &str) -> Option<String> {
    let token = language_hint
        .trim()
        .split(|c: char| c.is_whitespace() || c == ',')
        .find(|piece| !piece.is_empty())?;
    let lower = token.trim_matches('`').to_ascii_lowercase();
    if lower.is_empty() {
        return None;
    }
    let normalized = match lower.as_str() {
        "c++" => "cpp",
        "cc" | "cxx" | "hpp" | "hxx" => "cpp",
        "diff" | "patch" => "diff",
        "golang" => "go",
        "js" | "mjs" | "cjs" | "jsx" | "node" => "javascript",
        "jsonc" => "json",
        "py" | "python3" => "python",
        "rs" => "rust",
        "sh" | "shell" | "zsh" => "bash",
        "ts" | "mts" | "cts" => "typescript",
        "tsx" => "tsx",
        "yml" => "yaml",
        other => other,
    };
    Some(normalized.to_string())
}

fn std_detect_language_from_filename(filename: &str) -> Option<&'static str> {
    let lower = filename.to_ascii_lowercase();
    if lower.ends_with(".d.ts") || lower.ends_with(".d.mts") || lower.ends_with(".d.cts") {
        return Some("typescript");
    }
    let basename = Path::new(&lower).file_name().and_then(|name| name.to_str());
    if basename.is_some_and(|name| name == "justfile") {
        return Some("bash");
    }
    let ext = Path::new(&lower).extension().and_then(|ext| ext.to_str())?;
    match ext {
        "bash" | "sh" | "zsh" => Some("bash"),
        "c" | "h" => Some("c"),
        "cc" | "cpp" | "cxx" | "hpp" | "hh" | "hxx" => Some("cpp"),
        "diff" | "patch" => Some("diff"),
        "go" => Some("go"),
        "js" | "jsx" | "mjs" | "cjs" => Some("javascript"),
        "json" | "jsonc" => Some("json"),
        "py" => Some("python"),
        "rs" => Some("rust"),
        "toml" => Some("toml"),
        "ts" | "mts" | "cts" => Some("typescript"),
        "tsx" => Some("tsx"),
        "yaml" | "yml" => Some("yaml"),
        _ => None,
    }
}

fn std_looks_like_diff(source: &str) -> bool {
    let trimmed = source.trim_start();
    trimmed.starts_with("diff --git ")
        || trimmed.starts_with("@@ ")
        || (source.contains("\n--- ") && source.contains("\n+++ "))
}

#[test]
fn language_detection_agrees_with_std_formulation() {
    let mut texts = Texts::new(5);
    let hints = [
        "rs", "RS", "c++", "`", ",", " ", "py", "python3", "x", "\t", "Sh", "yml", "tsx", "é",
    ];
    let names = [
        "a", ".", "/", "d", "ts", "rs", "Justfile", "justfile", "py", "TOML", "..", "mts", "x.",
    ];
    let diffs = ["diff --git ", "@@ ", "\n--- ", "\n+++ ", " ", "\n", "x", "---", "+++"];
    for _ in 0..20000 {
        let hint = texts.text(&hints, 5);
        assert_eq!(
            normalize_language_hint(&hint),
            std_normalize_language_hint(&hint),
            "{hint:?}"
        );
        let name = texts.text(&names, 6);
        assert_eq!(
            detect_language_from_filename(&name),
            std_detect_language_from_filename(&name),
            "{name:?}"
        );
        let source = texts.text(&diffs, 5);
        assert_eq!(looks_like_diff(&source), std_looks_like_diff(&source), "{source:?}");
    }
}

fn std_parse_hex_triplet(hex: &str) -> Option<(u8, u8, u8)> {
    let hex = hex.strip_prefix('#')?;
    if hex.len() != 6 {
        return None;
    }
    let r = u8::from_str_radix(&hex[0..2], 16).ok()?;
    let g = u8::from_str_radix(&hex[2..4], 16).ok()?;
    let b = u8::from_str_radix(&hex[4..6], 16).ok()?;
    Some((r, g, b))
}

#[test]
fn hex_triplets_agree_with_std_formulation() {
    let mut texts = Texts::new(6);
    let alphabet = ["#", "0", "9", "a", "F", "g", "+", "-", " ", "7", "c", "E"];
    let mut parsed = 0;
    for _ in 0..50000 {
        let text = texts.text(&alphabet, 8);
        let expected = std_parse_hex_triplet(&text);
        if expected.is_some() {
            parsed += 1;
        }
        assert_eq!(parse_hex_triplet(&text), expected, "{text:?}");
    }
    assert!(parsed > 20, "only {parsed} texts were colors");
}
