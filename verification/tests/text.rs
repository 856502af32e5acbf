use codex_tui::markdown_stream::MarkdownStreamCollector;
use codex_tui::text::all_chars_in;
use codex_tui::text::byte_len;
use codex_tui::text::char_is_whitespace;
use codex_tui::text::chars_of;
use codex_tui::text::contains_str;
use codex_tui::text::count_chars_in;
use codex_tui::text::count_leading;
use codex_tui::text::ends_with_str;
use codex_tui::text::first_char;
use codex_tui::text::first_word;
use codex_tui::text::has_char;
use codex_tui::text::hex_digit;
use codex_tui::text::len_without_trailing;
use codex_tui::text::newline_end_offsets;
use codex_tui::text::skip_chars;
use codex_tui::text::slice_bytes;
use codex_tui::text::split_char;
use codex_tui::text::split_inclusive_char;
use codex_tui::text::split_lines;
use codex_tui::text::starts_with_str;
use codex_tui::text::str_eq;
use codex_tui::text::str_eq_ignore_ascii_case;
use codex_tui::text::strip_prefix;
use codex_tui::text::strip_suffix;
use codex_tui::text::take_chars;
use codex_tui::text::to_ascii_lower;
use codex_tui::text::to_ascii_lowercase;
use codex_tui::text::to_ascii_upper;
use codex_tui::text::trim;
use codex_tui::text::trim_end;
use codex_tui::text::trim_matches;
use codex_tui::text::trim_start;
use codex_tui::text::CharClass;

const SAMPLES: [&str; 14] = [
    "",
    " ",
    "a",
    "  a b  ",
    "\t\n x \r\n",
    "\u{a0}wide\u{3000}",
    "| A | B |",
    "||",
    "a|b|",
    "|",
    "héllo | wörld",
    "line one\nline two\n",
    "\n\n",
    "no newline",
];

#[test]
fn whitespace_is_what_std_calls_whitespace() {
    for code in 0..=0x10FFFFu32 {
        if let Some(c) = char::from_u32(code) {
            assert_eq!(char_is_whitespace(c), c.is_whitespace(), "{code:#x}");
        }
    }
}

#[test]
fn ascii_case_is_what_std_gives() {
    for code in 0..=0x2FFu32 {
        let c = char::from_u32(code).unwrap();
        assert_eq!(to_ascii_lower(c), c.to_ascii_lowercase());
        assert_eq!(to_ascii_upper(c), c.to_ascii_uppercase());
        assert_eq!(
            hex_digit(c),
            c.to_digit(16).map(|d| d as u8),
            "{code:#x}"
        );
    }
    assert_eq!(to_ascii_lowercase("MiXed É 1"), "mixed É 1");
}

#[test]
fn trimming_is_what_std_gives() {
    for s in SAMPLES {
        assert_eq!(trim(s), s.trim(), "{s:?}");
        assert_eq!(trim_start(s), s.trim_start(), "{s:?}");
        assert_eq!(trim_end(s), s.trim_end(), "{s:?}");
        assert_eq!(trim_matches(s, '|'), s.trim_matches('|'), "{s:?}");
    }
}

#[test]
fn stripping_is_what_std_gives() {
    for s in SAMPLES {
        for c in ['|', ' ', 'a', '\n', 'h'] {
            assert_eq!(strip_prefix(s, c), s.strip_prefix(c), "{s:?} {c:?}");
            assert_eq!(strip_suffix(s, c), s.strip_suffix(c), "{s:?} {c:?}");
            assert_eq!(has_char(s, c), s.contains(c), "{s:?} {c:?}");
        }
        assert_eq!(first_char(s), s.chars().next());
        assert_eq!(chars_of(s), s.chars().collect::<Vec<_>>());
        assert_eq!(byte_len(s), s.len());
    }
}

#[test]
fn splitting_is_what_std_gives() {
    for s in SAMPLES {
        for c in ['|', '\n', ' '] {
            assert_eq!(
                split_char(s, c),
                s.split(c).collect::<Vec<_>>(),
                "{s:?} {c:?}"
            );
            assert_eq!(
                split_inclusive_char(s, c),
                s.split_inclusive(c).collect::<Vec<_>>(),
                "{s:?} {c:?}"
            );
        }
        assert_eq!(
            first_word(s),
            s.split_whitespace().next().unwrap_or_default(),
            "{s:?}"
        );
    }
}

#[test]
fn counting_follows_the_class() {
    assert_eq!(count_leading("   x  ", CharClass::Whitespace), 3);
    assert_eq!(count_leading("```rust", CharClass::Only('`')), 3);
    assert_eq!(count_leading("abc|d", CharClass::Except('|')), 3);
    assert_eq!(count_leading("word next", CharClass::Visible), 4);
    assert_eq!(count_leading(" ,a", CharClass::WhitespaceOr(',')), 2);
    assert_eq!(count_leading("a,b", CharClass::VisibleExcept(',')), 1);
    assert_eq!(count_leading("", CharClass::Whitespace), 0);
    assert_eq!(len_without_trailing("ab\ncd", CharClass::Except('\n')), 3);
    assert_eq!(len_without_trailing("abcd", CharClass::Except('\n')), 0);
    assert_eq!(len_without_trailing("x  ", CharClass::Whitespace), 1);
    assert_eq!(count_chars_in("a|b|c", CharClass::Only('|')), 2);
    assert!(all_chars_in("-:-", CharClass::Either('-', ':')));
    assert!(!all_chars_in("-:x", CharClass::Either('-', ':')));
    assert!(all_chars_in("", CharClass::Only('-')));
    assert_eq!(skip_chars("héllo", 2), "llo");
    assert_eq!(take_chars("héllo", 2), "hé");
}

#[test]
fn comparing_and_searching_is_what_std_gives() {
    for a in SAMPLES {
        for b in SAMPLES {
            assert_eq!(str_eq(a, b), a == b);
            assert_eq!(str_eq_ignore_ascii_case(a, b), a.eq_ignore_ascii_case(b));
            assert_eq!(starts_with_str(a, b), a.starts_with(b), "{a:?} {b:?}");
            assert_eq!(ends_with_str(a, b), a.ends_with(b), "{a:?} {b:?}");
            assert_eq!(contains_str(a, b), a.contains(b), "{a:?} {b:?}");
        }
    }
    assert!(str_eq_ignore_ascii_case("MarkDown", "markdown"));
    assert!(!str_eq_ignore_ascii_case("É", "é"));
    assert!(contains_str("x\n--- a\n+++ b", "\n+++ "));
}

#[test]
fn newline_offsets_lie_behind_newlines() {
    assert_eq!(newline_end_offsets("a\nbc\n"), vec![2, 5]);
    assert_eq!(newline_end_offsets("é\n\nx"), vec![2, 3]);
    assert_eq!(newline_end_offsets("none"), Vec::<usize>::new());
}

#[test]
fn collector_commits_up_to_last_newline() {
    let mut collector = MarkdownStreamCollector::new(Some(80));
    assert_eq!(collector.commit_complete_source(), None);
    collector.push_delta("first li");
    assert_eq!(collector.commit_complete_source(), None);
    collector.push_delta("ne\nsecond\nthi");
    assert_eq!(
        collector.commit_complete_source(),
        Some("first line\nsecond\n".to_string())
    );
    assert_eq!(collector.commit_complete_source(), None);
    collector.push_delta("rd");
    collector.set_width(None);
    assert_eq!(collector.finalize_and_drain_source(), "third");
    assert_eq!(collector.finalize_and_drain_source(), "");
    collector.push_delta("gone\n");
    collector.clear();
    assert_eq!(collector.commit_complete_source(), None);
}

#[test]
fn lines_are_what_std_gives() {
    for text in [
        "", "\n", "a", "a\n", "a\nb", "a\r\nb\r\n", "\r", "\r\n", "a\r", "a\rb\n", "\n\n\n",
        "\r\r\n", "é\n\u{85}x\n", " \n \n",
    ] {
        let expected: Vec<&str> = text.lines().collect();
        assert_eq!(split_lines(text), expected, "{text:?}");
    }
    assert_eq!(split_lines("one\r\ntwo\n\nthree\r"), vec!["one", "two", "", "three\r"]);
}

#[test]
fn byte_ranges_are_what_std_slices() {
    let text = "aé\n😀z";
    for start in 0..=text.len() {
        for end in start..=text.len() {
            if text.is_char_boundary(start) && text.is_char_boundary(end) {
                assert_eq!(slice_bytes(text, start, end), &text[start..end]);
            }
        }
    }
    assert_eq!(slice_bytes(text, 1, 3), "é");
    assert_eq!(slice_bytes(text, 4, 8), "😀");
    assert_eq!(slice_bytes("", 0, 0), "");
}
