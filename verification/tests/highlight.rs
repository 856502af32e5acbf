use arborium_theme::capture_to_slot;
use arborium_theme::ThemeSlot;
use arborium_theme::CAPTURE_NAMES;
use codex_tui::render::highlight::configured_languages;
use codex_tui::render::highlight::detect_language_from_filename;
use codex_tui::render::highlight::exceeds_highlight_limits;
use codex_tui::render::highlight::highlight_bash_to_lines;
use codex_tui::render::highlight::highlight_code_line_to_spans;
use codex_tui::render::highlight::highlight_code_to_lines;
use codex_tui::render::highlight::highlight_config;
use codex_tui::render::highlight::highlight_source_to_lines;
use codex_tui::render::highlight::lines_from_events;
use codex_tui::render::highlight::piece_style;
use codex_tui::render::highlight::plain_source_to_lines;
use codex_tui::render::highlight::push_segment;
use codex_tui::render::highlight::style_for;
use codex_tui::render::highlight::style_for_slot;
use codex_tui::render::highlight::HighlightEvent;
use codex_tui::render::highlight::HighlightStyle;
use codex_tui::render::highlight::LanguageConfig;
use codex_tui::render::highlight::StyledPiece;
use codex_tui::render::highlight::MAX_HIGHLIGHT_BYTES;
use codex_tui::render::highlight::MAX_HIGHLIGHT_LINES;
use tree_sitter_highlight::HighlightConfiguration;
use codex_tui::render::highlight::has_highlight_config;
use codex_tui::render::highlight::language_for_file;
use codex_tui::render::highlight::language_of_extension;
use codex_tui::render::highlight::looks_like_diff;
use codex_tui::render::highlight::normalize_language_hint;
use codex_tui::render::highlight::resolve_language;

const CONFIGURED: [&str; 13] = [
    "bash",
    "c",
    "cpp",
    "diff",
    "go",
    "javascript",
    "json",
    "python",
    "rust",
    "toml",
    "tsx",
    "typescript",
    "yaml",
];

#[test]
fn normalizes_language_aliases() {
    assert_eq!(normalize_language_hint("rs"), Some("rust".to_string()));
    assert_eq!(normalize_language_hint("patch"), Some("diff".to_string()));
    assert_eq!(normalize_language_hint(" yml "), Some("yaml".to_string()));
}

#[test]
fn markdown_fence_info_is_trimmed_to_first_token() {
    assert_eq!(
        normalize_language_hint("rust no_run"),
        Some("rust".to_string())
    );
}

#[test]
fn language_hints_lose_case_commas_and_backticks() {
    assert_eq!(normalize_language_hint(",, C++,x"), Some("cpp".to_string()));
    assert_eq!(normalize_language_hint("`Python3`"), Some("python".to_string()));
    assert_eq!(normalize_language_hint("Haskell"), Some("haskell".to_string()));
    assert_eq!(normalize_language_hint(""), None);
    assert_eq!(normalize_language_hint(" , "), None);
    assert_eq!(normalize_language_hint("``"), None);
}

#[test]
fn files_are_known_by_name_and_extension() {
    assert_eq!(detect_language_from_filename("src/main.rs"), Some("rust"));
    assert_eq!(detect_language_from_filename("types/index.D.TS"), Some("typescript"));
    assert_eq!(detect_language_from_filename("lib/mod.d.mts"), Some("typescript"));
    assert_eq!(detect_language_from_filename("ci/Justfile"), Some("bash"));
    assert_eq!(detect_language_from_filename("a/b/Cargo.TOML"), Some("toml"));
    assert_eq!(detect_language_from_filename("script.zsh"), Some("bash"));
    assert_eq!(detect_language_from_filename("README"), None);
    assert_eq!(detect_language_from_filename(".rs"), None);
    assert_eq!(detect_language_from_filename("notes.txt"), None);
    assert_eq!(language_of_extension("hh"), Some("cpp"));
    assert_eq!(language_of_extension("jsonc"), Some("json"));
    assert_eq!(language_of_extension("md"), None);
    assert_eq!(language_for_file("x.d.cts", None, Some("cts")), Some("typescript"));
    assert_eq!(language_for_file("justfile", Some("justfile"), None), Some("bash"));
    assert_eq!(language_for_file("a.py", Some("a.py"), Some("py")), Some("python"));
    assert_eq!(language_for_file("a", Some("a"), None), None);
}

#[test]
fn diffs_are_known_by_their_look() {
    assert!(looks_like_diff("diff --git a/a.txt b/a.txt\n"));
    assert!(looks_like_diff("\n  @@ -1 +1 @@\n"));
    assert!(looks_like_diff("x\n--- a\n+++ b\n"));
    assert!(!looks_like_diff("--- a\n+++ b\n"));
    assert!(!looks_like_diff("x\n--- a\n"));
    assert!(!looks_like_diff("diff --gitx"));
    assert!(!looks_like_diff(""));
}

#[test]
fn language_comes_from_hint_then_file_then_look() {
    let diff = "diff --git a/a b/a\n";
    assert_eq!(
        resolve_language(Some("rs"), Some("a.py"), diff, &CONFIGURED),
        Some("rust".to_string())
    );
    assert_eq!(
        resolve_language(Some("haskell"), Some("a.py"), diff, &CONFIGURED),
        Some("python".to_string())
    );
    assert_eq!(
        resolve_language(None, Some("a.txt"), diff, &CONFIGURED),
        Some("diff".to_string())
    );
    assert_eq!(resolve_language(None, None, "fn main() {}", &CONFIGURED), None);
    assert_eq!(resolve_language(Some("rs"), Some("a.py"), diff, &[]), None);
    assert_eq!(
        resolve_language(Some("rs"), Some("a.py"), diff, &["python"]),
        Some("python".to_string())
    );
    assert!(has_highlight_config(&CONFIGURED, "tsx"));
    assert!(!has_highlight_config(&CONFIGURED, "TSX"));
}

fn bash_config(name: &str) -> LanguageConfig {
    let mut config = HighlightConfiguration::new(
        arborium_bash::language().into(),
        "bash",
        arborium_bash::HIGHLIGHTS_QUERY,
        arborium_bash::INJECTIONS_QUERY,
        arborium_bash::LOCALS_QUERY,
    )
    .expect("the bash grammar loads");
    config.configure(CAPTURE_NAMES);
    LanguageConfig { language: name.to_string(), config }
}

fn configured(name: &str, loaded: Option<HighlightConfiguration>) -> LanguageConfig {
    let mut config = loaded.expect("the grammar loads");
    config.configure(CAPTURE_NAMES);
    LanguageConfig { language: name.to_string(), config }
}

fn rust_config() -> LanguageConfig {
    configured(
        "rust",
        HighlightConfiguration::new(
            arborium_rust::language().into(),
            "rust",
            arborium_rust::HIGHLIGHTS_QUERY,
            arborium_rust::INJECTIONS_QUERY,
            arborium_rust::LOCALS_QUERY,
        )
        .ok(),
    )
}

fn diff_config() -> LanguageConfig {
    configured(
        "diff",
        HighlightConfiguration::new(
            arborium_diff::language().into(),
            "diff",
            arborium_diff::HIGHLIGHTS_QUERY,
            arborium_diff::INJECTIONS_QUERY,
            arborium_diff::LOCALS_QUERY,
        )
        .ok(),
    )
}

fn has_styled_piece(lines: &[Vec<StyledPiece>]) -> bool {
    lines.iter().flatten().any(|piece| piece_style(piece).is_some())
}

fn reconstructed(lines: &[Vec<StyledPiece>]) -> String {
    lines
        .iter()
        .map(|line| line.iter().map(|piece| piece.text.clone()).collect::<String>())
        .collect::<Vec<_>>()
        .join("\n")
}

fn piece(text: &str, highlight: Option<usize>) -> StyledPiece {
    StyledPiece { text: text.to_string(), highlight }
}

fn source(start: usize, end: usize) -> HighlightEvent {
    HighlightEvent::Source { start, end }
}

#[test]
fn round_trip_bash_highlighting_keeps_source_text() {
    let configs = vec![bash_config("bash")];
    let source = "echo \"hi\" && printf '%s\\n' \"there\"";
    let lines = highlight_bash_to_lines(source, &configs);
    assert_eq!(reconstructed(&lines), source);
    assert!(lines.iter().flatten().any(|piece| piece.highlight.is_some()));
}

#[test]
fn comments_get_dimmed_style() {
    let configs = vec![bash_config("bash")];
    let lines = highlight_code_to_lines("# comment", Some("bash"), None, &configs);
    let has_dimmed = lines
        .iter()
        .flatten()
        .any(|piece| piece_style(piece) == Some(HighlightStyle::Dim));
    assert!(has_dimmed);
}

#[test]
fn bash_scripts_keep_their_lines() {
    let configs = vec![bash_config("bash")];
    let script = "# first\nif true; then\n  echo \"héllo\"\nfi\n";
    let lines = highlight_code_to_lines(script, None, Some("run.sh"), &configs);
    assert_eq!(reconstructed(&lines), script);
    assert_eq!(lines.len(), 5);
    assert!(lines[4].is_empty());
    let keyword = lines[1].iter().find(|piece| piece.text == "if").expect("a piece for `if`");
    assert_eq!(piece_style(keyword), Some(HighlightStyle::Magenta));
    let first = highlight_code_line_to_spans(script, None, Some("run.sh"), &configs);
    assert_eq!(first, lines[0]);
}

#[test]
fn code_without_a_highlighter_is_shown_plainly() {
    let configs = vec![bash_config("bash")];
    let code = "fn main() {}\n\nlet x = 1;";
    let expected = vec![
        vec![piece("fn main() {}", None)],
        vec![],
        vec![piece("let x = 1;", None)],
    ];
    assert_eq!(highlight_code_to_lines(code, Some("rust"), None, &configs), expected);
    assert_eq!(highlight_code_to_lines(code, None, Some("main.rs"), &configs), expected);
    assert_eq!(highlight_code_to_lines(code, None, None, &configs), expected);
    assert_eq!(highlight_code_to_lines(code, Some("bash"), None, &[]), expected);
    assert_eq!(
        highlight_code_line_to_spans(code, Some("rust"), None, &configs),
        vec![piece("fn main() {}", None)]
    );
    assert_eq!(highlight_code_line_to_spans("", Some("rust"), None, &configs), vec![]);
}

#[test]
fn sources_are_highlighted_within_limits_only() {
    let configs = vec![bash_config("bash")];
    assert_eq!(highlight_source_to_lines("", "bash", &configs), Some(vec![vec![]]));
    assert_eq!(highlight_source_to_lines("", "rust", &configs), Some(vec![vec![]]));
    assert_eq!(highlight_source_to_lines("echo", "rust", &configs), None);
    assert!(highlight_source_to_lines("echo", "bash", &configs).is_some());

    let wide = "a".repeat(MAX_HIGHLIGHT_BYTES);
    assert!(!exceeds_highlight_limits(&wide));
    assert!(highlight_source_to_lines(&wide, "bash", &configs).is_some());
    let wider = "a".repeat(MAX_HIGHLIGHT_BYTES + 1);
    assert!(exceeds_highlight_limits(&wider));
    assert_eq!(highlight_source_to_lines(&wider, "bash", &configs), None);
    assert_eq!(
        highlight_code_to_lines(&wider, Some("bash"), None, &configs),
        vec![vec![piece(&wider, None)]]
    );

    let long = "x\n".repeat(MAX_HIGHLIGHT_LINES);
    assert!(!exceeds_highlight_limits(&long));
    let longer = "x\n".repeat(MAX_HIGHLIGHT_LINES + 1);
    assert!(exceeds_highlight_limits(&longer));
    assert_eq!(highlight_source_to_lines(&longer, "bash", &configs), None);
    assert_eq!(MAX_HIGHLIGHT_BYTES, 256 * 1024);
    assert_eq!(MAX_HIGHLIGHT_LINES, 4000);
}

#[test]
fn the_first_configuration_of_a_language_is_taken() {
    let configs = vec![bash_config("bash"), bash_config("sh"), bash_config("bash")];
    assert_eq!(configured_languages(&configs), vec!["bash", "sh", "bash"]);
    let found = highlight_config(&configs, "bash").expect("bash is configured");
    assert!(std::ptr::eq(found, &configs[0].config));
    let found = highlight_config(&configs, "sh").expect("sh is configured");
    assert!(std::ptr::eq(found, &configs[1].config));
    assert!(highlight_config(&configs, "Bash").is_none());
    assert!(highlight_config(&[], "bash").is_none());
}

#[test]
fn segments_break_lines_at_newlines() {
    let mut lines = vec![vec![piece("a", None)]];
    push_segment(&mut lines, "b\n\nc\n", Some(3));
    assert_eq!(
        lines,
        vec![
            vec![piece("a", None), piece("b", Some(3))],
            vec![],
            vec![piece("c", Some(3))],
            vec![],
        ]
    );
    push_segment(&mut lines, "", Some(1));
    assert_eq!(lines.len(), 4);
    push_segment(&mut lines, "d", None);
    assert_eq!(lines[3], vec![piece("d", None)]);

    let mut none: Vec<Vec<StyledPiece>> = Vec::new();
    push_segment(&mut none, "lost\nkept", Some(2));
    assert_eq!(none, vec![vec![piece("kept", Some(2))]]);
}

#[test]
fn events_lay_out_pieces_with_the_innermost_highlight() {
    let text = "ab\ncd ef";
    let events = [
        source(0, 1),
        HighlightEvent::HighlightStart(7),
        source(1, 4),
        HighlightEvent::HighlightStart(9),
        source(4, 5),
        HighlightEvent::HighlightEnd,
        source(5, 6),
        HighlightEvent::HighlightEnd,
        HighlightEvent::HighlightEnd,
        source(6, 8),
    ];
    assert_eq!(
        lines_from_events(text, &events),
        vec![
            vec![piece("a", None), piece("b", Some(7))],
            vec![piece("c", Some(7)), piece("d", Some(9)), piece(" ", Some(7)), piece("ef", None)],
        ]
    );
    assert_eq!(lines_from_events(text, &[]), vec![vec![]]);
    assert_eq!(lines_from_events("", &[source(0, 0)]), vec![vec![]]);
}

#[test]
fn events_with_bad_ranges_are_passed_over() {
    let text = "aé\nz";
    assert_eq!(text.len(), 5);
    let events = [
        source(0, 0),
        source(3, 2),
        source(0, 2),
        source(2, 3),
        source(1, 3),
        source(3, 6),
        source(4, 5),
        source(5, 5),
    ];
    assert_eq!(
        lines_from_events(text, &events),
        vec![vec![piece("é", None), piece("z", None)]]
    );
    assert_eq!(
        lines_from_events(text, &[source(0, 5), source(usize::MAX - 1, usize::MAX)]),
        vec![vec![piece("aé", None)], vec![piece("z", None)]]
    );
}

#[test]
fn plain_lines_are_the_lines_of_std() {
    assert_eq!(plain_source_to_lines(""), vec![vec![]]);
    assert_eq!(plain_source_to_lines("\n"), vec![vec![]]);
    assert_eq!(
        plain_source_to_lines("a\r\nb\n\nc\r"),
        vec![vec![piece("a", None)], vec![piece("b", None)], vec![], vec![piece("c\r", None)]]
    );
    for text in ["x", "x\n", "\n\n", "a\nb", "a\r\n\r\nb\r\n", "\r", "\r\n", "é\n\u{2028}z\n "] {
        let expected: Vec<Vec<StyledPiece>> = text
            .lines()
            .map(|line| if line.is_empty() { vec![] } else { vec![piece(line, None)] })
            .collect();
        assert_eq!(plain_source_to_lines(text), expected, "{text:?}");
    }
}

#[test]
fn slots_are_shown_in_their_styles() {
    let dim = [ThemeSlot::Comment, ThemeSlot::Operator, ThemeSlot::Punctuation, ThemeSlot::Embedded];
    let cyan = [ThemeSlot::String, ThemeSlot::Constant, ThemeSlot::Number, ThemeSlot::Literal];
    let magenta = [
        ThemeSlot::Keyword,
        ThemeSlot::Function,
        ThemeSlot::Type,
        ThemeSlot::Property,
        ThemeSlot::Attribute,
        ThemeSlot::Tag,
        ThemeSlot::Macro,
        ThemeSlot::Namespace,
        ThemeSlot::Constructor,
    ];
    for slot in dim {
        assert_eq!(style_for_slot(slot), Some(HighlightStyle::Dim));
    }
    for slot in cyan {
        assert_eq!(style_for_slot(slot), Some(HighlightStyle::Cyan));
    }
    for slot in magenta {
        assert_eq!(style_for_slot(slot), Some(HighlightStyle::Magenta));
    }
    assert_eq!(style_for_slot(ThemeSlot::DiffAdd), Some(HighlightStyle::Green));
    assert_eq!(style_for_slot(ThemeSlot::DiffDelete), Some(HighlightStyle::Red));
    assert_eq!(style_for_slot(ThemeSlot::Error), Some(HighlightStyle::Red));
    assert_eq!(style_for_slot(ThemeSlot::Title), Some(HighlightStyle::Bold));
    assert_eq!(style_for_slot(ThemeSlot::Strong), Some(HighlightStyle::Bold));
    assert_eq!(style_for_slot(ThemeSlot::Emphasis), Some(HighlightStyle::Italic));
    assert_eq!(style_for_slot(ThemeSlot::Link), Some(HighlightStyle::CyanUnderlined));
    assert_eq!(style_for_slot(ThemeSlot::Strikethrough), Some(HighlightStyle::CrossedOut));
    assert_eq!(style_for_slot(ThemeSlot::Variable), None);
    assert_eq!(style_for_slot(ThemeSlot::Label), None);
    assert_eq!(style_for_slot(ThemeSlot::None), None);
}

#[test]
fn highlights_are_shown_as_the_slot_of_their_capture() {
    for (index, name) in CAPTURE_NAMES.iter().enumerate() {
        assert_eq!(style_for(index), style_for_slot(capture_to_slot(name)), "{name}");
        assert_eq!(piece_style(&piece("x", Some(index))), style_for(index));
    }
    assert_eq!(style_for(CAPTURE_NAMES.len()), None);
    assert_eq!(style_for(usize::MAX), None);
    assert_eq!(piece_style(&piece("x", None)), None);
    let comment = CAPTURE_NAMES.iter().position(|name| *name == "comment").expect("a comment capture");
    assert_eq!(style_for(comment), Some(HighlightStyle::Dim));
    let keyword = CAPTURE_NAMES.iter().position(|name| *name == "keyword").expect("a keyword capture");
    assert_eq!(style_for(keyword), Some(HighlightStyle::Magenta));
}

#[test]
fn produces_non_default_styles_for_code() {
    let configs = vec![bash_config("bash"), rust_config(), diff_config()];
    let lines = highlight_code_to_lines("fn main() { let x = 1; }", Some("rust"), None, &configs);
    assert!(has_styled_piece(&lines));
    assert_eq!(reconstructed(&lines), "fn main() { let x = 1; }");
}

#[test]
fn diff_highlighting_marks_add_delete_lines() {
    let configs = vec![bash_config("bash"), rust_config(), diff_config()];
    let source = "diff --git a/a.txt b/a.txt\n@@ -1 +1 @@\n-old value\n+new value\n";
    let lines = highlight_code_to_lines(source, Some("diff"), None, &configs);
    assert!(has_styled_piece(&lines));
    assert_eq!(reconstructed(&lines), source);
    let looked = highlight_code_to_lines(source, None, Some("notes.txt"), &configs);
    assert_eq!(looked, lines);
}

#[test]
fn filename_hint_detects_rust() {
    let configs = vec![bash_config("bash"), rust_config(), diff_config()];
    let lines = highlight_code_to_lines("fn main() {}", None, Some("src/main.rs"), &configs);
    assert!(has_styled_piece(&lines));
    let hinted = highlight_code_to_lines("fn main() {}", Some("rs"), Some("run.sh"), &configs);
    assert_eq!(hinted, lines);
}
