//! Which language a piece of code is highlighted as, and how the events of
//! a highlighter become lines of highlighted pieces.
//!
//! The language comes from the info string of a fence, from the name of a
//! file, or from the look of the source, in this order, and only a language
//! that a highlighter is configured for is chosen.
//!
//! A highlighter walks the source and reports where a highlight starts,
//! where it ends, and which bytes of the source lie in between. The pieces
//! of source are laid out in lines, each piece with the innermost
//! highlight that was open around it.
//!
//! The highlighter is tree-sitter's, and a highlight is shown in the style
//! of the theme slot that arborium gives its capture name. What the
//! highlighter reports is not known here; the layout is stated for every
//! sequence of events.

use crate::text::{
    ascii_lowercase, byte_len, byte_range_text, contains_char, contains_str, contains_text,
    count_leading, ends_with, ends_with_str, is_byte_range, leading_count, lines_of, skip_chars,
    slice_bytes, split, split_char, split_lines, starts_with, starts_with_str, str_eq,
    take_chars, to_ascii_lowercase, trim_matches, trim_matches_of, trim_start, trim_start_of,
    utf8_len, views, CharClass,
};
use arborium_theme::{capture_to_slot, ThemeSlot, CAPTURE_NAMES};
use std::path::Path;
use tree_sitter_highlight::HighlightEvent as SyntaxEvent;
use tree_sitter_highlight::{HighlightConfiguration, Highlighter};
use vstd::prelude::*;
use vstd::string::*;

verus! {

/// The first run of characters of `hint` that holds neither whitespace nor
/// a comma.
pub open spec fn hint_token(hint: Seq<char>) -> Seq<char> {
    let rest = hint.skip(leading_count(hint, CharClass::WhitespaceOr(',')) as int);
    rest.take(leading_count(rest, CharClass::VisibleExcept(',')) as int)
}

/// The language that a lower-case name stands for: the language of an
/// alias, and the name itself otherwise.
pub open spec fn language_alias(lower: Seq<char>) -> Seq<char> {
    if lower == "c++"@ || lower == "cc"@ || lower == "cxx"@ || lower == "hpp"@ || lower == "hxx"@ {
        "cpp"@
    } else if lower == "diff"@ || lower == "patch"@ {
        "diff"@
    } else if lower == "golang"@ {
        "go"@
    } else if lower == "js"@ || lower == "mjs"@ || lower == "cjs"@ || lower == "jsx"@ || lower
        == "node"@ {
        "javascript"@
    } else if lower == "jsonc"@ {
        "json"@
    } else if lower == "py"@ || lower == "python3"@ {
        "python"@
    } else if lower == "rs"@ {
        "rust"@
    } else if lower == "sh"@ || lower == "shell"@ || lower == "zsh"@ {
        "bash"@
    } else if lower == "ts"@ || lower == "mts"@ || lower == "cts"@ {
        "typescript"@
    } else if lower == "tsx"@ {
        "tsx"@
    } else if lower == "yml"@ {
        "yaml"@
    } else {
        lower
    }
}

/// The language that a hint names: its first token, without backticks
/// around it, in lower case, with aliases resolved. `None` when nothing is
/// left of the token.
pub open spec fn normalized_hint(hint: Seq<char>) -> Option<Seq<char>> {
    let lower = ascii_lowercase(trim_matches_of(hint_token(hint), '`'));
    if lower.len() == 0 {
        None
    } else {
        Some(language_alias(lower))
    }
}

/// Reads the language that the info string of a fence names.
pub fn normalize_language_hint(language_hint: &str) -> (language: Option<String>)
    ensures
        match language {
            Some(name) => normalized_hint(language_hint@) == Some(name@),
            None => normalized_hint(language_hint@) is None,
        },
{
    let rest = skip_chars(
        language_hint,
        count_leading(language_hint, CharClass::WhitespaceOr(',')),
    );
    let token = take_chars(rest, count_leading(rest, CharClass::VisibleExcept(',')));
    let lower = to_ascii_lowercase(trim_matches(token, '`'));
    if lower.as_str().is_empty() {
        return None;
    }
    let name = lower.as_str();
    let normalized = if str_eq(name, "c++") || str_eq(name, "cc") || str_eq(name, "cxx") || str_eq(
        name,
        "hpp",
    ) || str_eq(name, "hxx") {
        String::from_str("cpp")
    } else if str_eq(name, "diff") || str_eq(name, "patch") {
        String::from_str("diff")
    } else if str_eq(name, "golang") {
        String::from_str("go")
    } else if str_eq(name, "js") || str_eq(name, "mjs") || str_eq(name, "cjs") || str_eq(
        name,
        "jsx",
    ) || str_eq(name, "node") {
        String::from_str("javascript")
    } else if str_eq(name, "jsonc") {
        String::from_str("json")
    } else if str_eq(name, "py") || str_eq(name, "python3") {
        String::from_str("python")
    } else if str_eq(name, "rs") {
        String::from_str("rust")
    } else if str_eq(name, "sh") || str_eq(name, "shell") || str_eq(name, "zsh") {
        String::from_str("bash")
    } else if str_eq(name, "ts") || str_eq(name, "mts") || str_eq(name, "cts") {
        String::from_str("typescript")
    } else if str_eq(name, "tsx") {
        String::from_str("tsx")
    } else if str_eq(name, "yml") {
        String::from_str("yaml")
    } else {
        lower
    };
    Some(normalized)
}

/// The language of a file extension.
pub open spec fn extension_language(ext: Seq<char>) -> Option<Seq<char>> {
    if ext == "bash"@ || ext == "sh"@ || ext == "zsh"@ {
        Some("bash"@)
    } else if ext == "c"@ || ext == "h"@ {
        Some("c"@)
    } else if ext == "cc"@ || ext == "cpp"@ || ext == "cxx"@ || ext == "hpp"@ || ext == "hh"@
        || ext == "hxx"@ {
        Some("cpp"@)
    } else if ext == "diff"@ || ext == "patch"@ {
        Some("diff"@)
    } else if ext == "go"@ {
        Some("go"@)
    } else if ext == "js"@ || ext == "jsx"@ || ext == "mjs"@ || ext == "cjs"@ {
        Some("javascript"@)
    } else if ext == "json"@ || ext == "jsonc"@ {
        Some("json"@)
    } else if ext == "py"@ {
        Some("python"@)
    } else if ext == "rs"@ {
        Some("rust"@)
    } else if ext == "toml"@ {
        Some("toml"@)
    } else if ext == "ts"@ || ext == "mts"@ || ext == "cts"@ {
        Some("typescript"@)
    } else if ext == "tsx"@ {
        Some("tsx"@)
    } else if ext == "yaml"@ || ext == "yml"@ {
        Some("yaml"@)
    } else {
        None
    }
}

/// The language of a file, from its lower-case path, the name of the file
/// and its extension: a TypeScript declaration file by the end of its path,
/// a `justfile` by its name, anything else by its extension.
pub open spec fn file_language(
    lower: Seq<char>,
    basename: Option<Seq<char>>,
    ext: Option<Seq<char>>,
) -> Option<Seq<char>> {
    if ends_with(lower, ".d.ts"@) || ends_with(lower, ".d.mts"@) || ends_with(lower, ".d.cts"@) {
        Some("typescript"@)
    } else if basename == Some("justfile"@) {
        Some("bash"@)
    } else {
        match ext {
            Some(found) => extension_language(found),
            None => None,
        }
    }
}

/// Looks up the language of a file extension.
pub fn language_of_extension(ext: &str) -> (language: Option<&'static str>)
    ensures
        match language {
            Some(name) => extension_language(ext@) == Some(name@),
            None => extension_language(ext@) is None,
        },
{
    if str_eq(ext, "bash") || str_eq(ext, "sh") || str_eq(ext, "zsh") {
        Some("bash")
    } else if str_eq(ext, "c") || str_eq(ext, "h") {
        Some("c")
    } else if str_eq(ext, "cc") || str_eq(ext, "cpp") || str_eq(ext, "cxx") || str_eq(ext, "hpp")
        || str_eq(ext, "hh") || str_eq(ext, "hxx") {
        Some("cpp")
    } else if str_eq(ext, "diff") || str_eq(ext, "patch") {
        Some("diff")
    } else if str_eq(ext, "go") {
        Some("go")
    } else if str_eq(ext, "js") || str_eq(ext, "jsx") || str_eq(ext, "mjs") || str_eq(ext, "cjs") {
        Some("javascript")
    } else if str_eq(ext, "json") || str_eq(ext, "jsonc") {
        Some("json")
    } else if str_eq(ext, "py") {
        Some("python")
    } else if str_eq(ext, "rs") {
        Some("rust")
    } else if str_eq(ext, "toml") {
        Some("toml")
    } else if str_eq(ext, "ts") || str_eq(ext, "mts") || str_eq(ext, "cts") {
        Some("typescript")
    } else if str_eq(ext, "tsx") {
        Some("tsx")
    } else if str_eq(ext, "yaml") || str_eq(ext, "yml") {
        Some("yaml")
    } else {
        None
    }
}

/// Decides the language of a file from its lower-case path, the name of
/// the file and its extension.
pub fn language_for_file(lower: &str, basename: Option<&str>, ext: Option<&str>) -> (language:
    Option<&'static str>)
    ensures
        match language {
            Some(name) => file_language(lower@, views_of(basename), views_of(ext)) == Some(
                name@,
            ),
            None => file_language(lower@, views_of(basename), views_of(ext)) is None,
        },
{
    if ends_with_str(lower, ".d.ts") || ends_with_str(lower, ".d.mts") || ends_with_str(
        lower,
        ".d.cts",
    ) {
        return Some("typescript");
    }
    if let Some(name) = basename {
        if str_eq(name, "justfile") {
            return Some("bash");
        }
    }
    match ext {
        Some(found) => language_of_extension(found),
        None => None,
    }
}

/// The view of an optional string slice.
pub open spec fn views_of(text: Option<&str>) -> Option<Seq<char>> {
    match text {
        Some(found) => Some(found@),
        None => None,
    }
}

/// The view of an optional string.
pub open spec fn view_of(text: Option<String>) -> Option<Seq<char>> {
    match text {
        Some(found) => Some(found@),
        None => None,
    }
}

/// `Path::file_name` of std, as text: the final component of the path, if
/// there is one. The component is a part of the path.
#[verifier::external_body]
fn path_file_name(path: &str) -> (name: Option<String>)
    ensures
        match name {
            Some(found) => contains_text(path@, found@),
            None => true,
        },
{
    match Path::new(path).file_name() {
        Some(name) => match name.to_str() {
            Some(text) => Some(text.to_string()),
            None => None,
        },
        None => None,
    }
}

/// `Path::extension` of std, as text: the part of the file name behind its
/// last dot, if the name has one that is not its first character. The
/// extension holds no dot, and follows a dot in the path.
#[verifier::external_body]
fn path_extension(path: &str) -> (ext: Option<String>)
    ensures
        match ext {
            Some(found) => !contains_char(found@, '.') && contains_text(path@, "."@ + found@),
            None => true,
        },
{
    match Path::new(path).extension() {
        Some(ext) => match ext.to_str() {
            Some(text) => Some(text.to_string()),
            None => None,
        },
        None => None,
    }
}

/// `language` is what the name of a file may be detected as: the language
/// of the file for some file name that is a part of the lower-case path, and
/// some extension that follows a dot in it.
pub open spec fn detects(filename: Seq<char>, language: Option<Seq<char>>) -> bool {
    exists|basename: Option<Seq<char>>, ext: Option<Seq<char>>|
        {
            &&& match basename {
                Some(found) => contains_text(ascii_lowercase(filename), found),
                None => true,
            }
            &&& match ext {
                Some(found) => !contains_char(found, '.') && contains_text(
                    ascii_lowercase(filename),
                    "."@ + found,
                ),
                None => true,
            }
            &&& language == #[trigger] file_language(ascii_lowercase(filename), basename, ext)
        }
}

/// Detects the language of a file from its name, whatever its case.
pub fn detect_language_from_filename(filename: &str) -> (language: Option<&'static str>)
    ensures
        detects(filename@, views_of(language)),
{
    let lower = to_ascii_lowercase(filename);
    let basename = path_file_name(lower.as_str());
    let ext = path_extension(lower.as_str());
    let basename_text: Option<&str> = match &basename {
        Some(found) => Some(found.as_str()),
        None => None,
    };
    let ext_text: Option<&str> = match &ext {
        Some(found) => Some(found.as_str()),
        None => None,
    };
    let language = language_for_file(lower.as_str(), basename_text, ext_text);
    proof {
        assert(views_of(language) == file_language(
            ascii_lowercase(filename@),
            views_of(basename_text),
            views_of(ext_text),
        ));
    }
    language
}

/// The source reads like a diff: it starts, after whitespace, with the
/// header of a git diff or of a hunk, or it holds the two lines that name
/// the old and the new file.
pub open spec fn is_diff_like(source: Seq<char>) -> bool {
    let start = trim_start_of(source);
    starts_with(start, "diff --git "@) || starts_with(start, "@@ "@) || (contains_text(
        source,
        "\n--- "@,
    ) && contains_text(source, "\n+++ "@))
}

/// Tests whether the source reads like a diff.
pub fn looks_like_diff(source: &str) -> (diff: bool)
    ensures
        diff == is_diff_like(source@),
{
    let start = trim_start(source);
    starts_with_str(start, "diff --git ") || starts_with_str(start, "@@ ") || (contains_str(
        source,
        "\n--- ",
    ) && contains_str(source, "\n+++ "))
}

/// `language` is one of the configured languages.
pub open spec fn is_configured(configured: Seq<&str>, language: Seq<char>) -> bool {
    exists|i: int| 0 <= i < configured.len() && (#[trigger] configured[i])@ == language
}

/// Tests whether a highlighter is configured for `language`.
pub fn has_highlight_config(configured: &[&str], language: &str) -> (found: bool)
    ensures
        found == is_configured(configured@, language@),
{
    let mut i: usize = 0;
    while i < configured.len()
        invariant
            i <= configured@.len(),
            forall|k: int| 0 <= k < i ==> (#[trigger] configured@[k])@ != language@,
        decreases configured@.len() - i,
    {
        if str_eq(configured[i], language) {
            return true;
        }
        i = i + 1;
    }
    false
}

/// The configured language that a hint names, if it names one.
pub open spec fn hinted_language(configured: Seq<&str>, hint: Option<&str>) -> Option<Seq<char>> {
    match hint {
        Some(text) => match normalized_hint(text@) {
            Some(name) => if is_configured(configured, name) {
                Some(name)
            } else {
                None
            },
            None => None,
        },
        None => None,
    }
}

/// The language that is chosen when the hint names `hinted` and the file
/// name is detected as `detected`: the hinted language; else the detected
/// one, if it is configured; else `diff` for a source that reads like one,
/// if `diff` is configured.
pub open spec fn chosen_language(
    configured: Seq<&str>,
    hinted: Option<Seq<char>>,
    detected: Option<Seq<char>>,
    source: Seq<char>,
) -> Option<Seq<char>> {
    if hinted is Some {
        hinted
    } else if detected is Some && is_configured(configured, detected->0) {
        detected
    } else if is_diff_like(source) && is_configured(configured, "diff"@) {
        Some("diff"@)
    } else {
        None
    }
}

/// Resolves the language to highlight a source as, among the languages
/// that a highlighter is configured for.
pub fn resolve_language(
    language_hint: Option<&str>,
    filename_hint: Option<&str>,
    source: &str,
    configured: &[&str],
) -> (language: Option<String>)
    ensures
        exists|detected: Option<Seq<char>>|
            {
                &&& match filename_hint {
                    Some(name) => detects(name@, detected),
                    None => detected is None,
                }
                &&& view_of(language) == #[trigger] chosen_language(
                    configured@,
                    hinted_language(configured@, language_hint),
                    detected,
                    source@,
                )
            },
{
    let ghost hinted = hinted_language(configured@, language_hint);
    if let Some(hint) = language_hint {
        if let Some(language) = normalize_language_hint(hint) {
            if has_highlight_config(configured, language.as_str()) {
                proof {
                    let detected: Option<Seq<char>> = match filename_hint {
                        Some(name) => choose|found: Option<Seq<char>>| detects(name@, found),
                        None => None,
                    };
                    if let Some(name) = filename_hint {
                        lemma_detects_something(name@);
                    }
                    assert(Some(language@) == chosen_language(
                        configured@,
                        hinted,
                        detected,
                        source@,
                    ));
                }
                return Some(language);
            }
        }
    }
    let detected_name: Option<&'static str> = match filename_hint {
        Some(name) => detect_language_from_filename(name),
        None => None,
    };
    let ghost detected = views_of(detected_name);
    if let Some(language) = detected_name {
        if has_highlight_config(configured, language) {
            let found = String::from_str(language);
            proof {
                assert(Some(found@) == chosen_language(configured@, hinted, detected, source@));
            }
            return Some(found);
        }
    }
    if looks_like_diff(source) && has_highlight_config(configured, "diff") {
        let found = String::from_str("diff");
        proof {
            assert(Some(found@) == chosen_language(configured@, hinted, detected, source@));
        }
        return Some(found);
    }
    proof {
        assert(chosen_language(configured@, hinted, detected, source@) is None);
    }
    None
}

/// Every file name is detected as something.
proof fn lemma_detects_something(filename: Seq<char>)
    ensures
        exists|language: Option<Seq<char>>| detects(filename, language),
{
    let language = file_language(ascii_lowercase(filename), None, None);
    assert(detects(filename, language));
}

/// Sources with more bytes than this are not highlighted.
pub const MAX_HIGHLIGHT_BYTES: usize = 262144;

/// Sources with more lines than this are not highlighted.
pub const MAX_HIGHLIGHT_LINES: usize = 4000;

/// A piece of a line, with the highlight that it lies in, if any.
#[derive(Clone, Debug, PartialEq, Eq)]
pub struct StyledPiece {
    pub text: String,
    pub highlight: Option<usize>,
}

/// A piece as plain values.
pub type PieceView = (Seq<char>, Option<usize>);

/// The pieces of lines as plain values.
pub open spec fn line_views(lines: Seq<Vec<StyledPiece>>) -> Seq<Seq<PieceView>> {
    Seq::new(
        lines.len(),
        |i: int| Seq::new(lines[i]@.len(), |j: int| (lines[i]@[j].text@, lines[i]@[j].highlight)),
    )
}

/// The lines with part `index` of a segment laid out: every part but the
/// first begins a new line, and a part that is not empty is added to the
/// last line, if there is one.
pub open spec fn with_part(
    lines: Seq<Seq<PieceView>>,
    index: int,
    part: Seq<char>,
    highlight: Option<usize>,
) -> Seq<Seq<PieceView>> {
    let broken = if index > 0 {
        lines.push(Seq::empty())
    } else {
        lines
    };
    if part.len() == 0 || broken.len() == 0 {
        broken
    } else {
        broken.update(broken.len() - 1, broken.last().push((part, highlight)))
    }
}

/// The lines with the first `n` parts of a segment laid out.
pub open spec fn with_parts(
    lines: Seq<Seq<PieceView>>,
    parts: Seq<Seq<char>>,
    n: int,
    highlight: Option<usize>,
) -> Seq<Seq<PieceView>>
    decreases n,
{
    if n <= 0 {
        lines
    } else {
        with_part(with_parts(lines, parts, n - 1, highlight), n - 1, parts[n - 1], highlight)
    }
}

/// The lines with a segment of source laid out: the segment is split at
/// its newlines into parts.
pub open spec fn with_segment(
    lines: Seq<Seq<PieceView>>,
    segment: Seq<char>,
    highlight: Option<usize>,
) -> Seq<Seq<PieceView>> {
    with_parts(lines, split(segment, '\n'), split(segment, '\n').len() as int, highlight)
}

/// Lays a segment of source out in the lines.
pub fn push_segment(lines: &mut Vec<Vec<StyledPiece>>, segment: &str, highlight: Option<usize>)
    ensures
        line_views(final(lines)@) == with_segment(line_views(old(lines)@), segment@, highlight),
{
    let parts = split_char(segment, '\n');
    let ghost texts = split(segment@, '\n');
    let ghost start = line_views(lines@);
    let mut index: usize = 0;
    while index < parts.len()
        invariant
            index <= parts@.len(),
            views(parts@) == texts,
            line_views(lines@) == with_parts(start, texts, index as int, highlight),
        decreases parts@.len() - index,
    {
        let part = parts[index];
        let ghost before = line_views(lines@);
        proof {
            assert(views(parts@)[index as int] == part@);
        }
        if index > 0 {
            lines.push(Vec::new());
            proof {
                assert(line_views(lines@) =~~= before.push(Seq::empty()));
            }
        }
        let ghost broken = line_views(lines@);
        if !part.is_empty() {
            match lines.pop() {
                Some(last) => {
                    let mut last = last;
                    let ghost rest = line_views(lines@);
                    let ghost pieces = broken.last();
                    last.push(StyledPiece { text: String::from_str(part), highlight });
                    lines.push(last);
                    proof {
                        assert(rest =~~= broken.drop_last());
                        assert(line_views(lines@) =~~= broken.update(
                            broken.len() - 1,
                            pieces.push((part@, highlight)),
                        ));
                    }
                },
                None => {},
            }
        }
        index = index + 1;
    }
    proof {
        assert(views(parts@).len() == parts@.len());
    }
}

/// The pieces of a line that is shown without highlights: the whole line
/// as one piece, and no piece for an empty line.
pub open spec fn plain_line(text: Seq<char>) -> Seq<PieceView> {
    if text.len() == 0 {
        Seq::empty()
    } else {
        seq![(text, None)]
    }
}

/// The lines of a source that is shown without highlights: one empty line
/// for an empty source.
pub open spec fn plain_lines(source: Seq<char>) -> Seq<Seq<PieceView>> {
    if source.len() == 0 {
        seq![Seq::empty()]
    } else {
        Seq::new(lines_of(source).len(), |i: int| plain_line(lines_of(source)[i]))
    }
}

/// Splits a source that is shown without highlights into its lines.
pub fn plain_source_to_lines(source: &str) -> (lines: Vec<Vec<StyledPiece>>)
    ensures
        line_views(lines@) == plain_lines(source@),
{
    let mut lines: Vec<Vec<StyledPiece>> = Vec::new();
    if source.is_empty() {
        lines.push(Vec::new());
        proof {
            assert(line_views(lines@) =~~= plain_lines(source@));
        }
        return lines;
    }
    let texts = split_lines(source);
    let mut i: usize = 0;
    while i < texts.len()
        invariant
            i <= texts@.len(),
            lines@.len() == i,
            views(texts@) == lines_of(source@),
            forall|k: int|
                0 <= k < i ==> (#[trigger] line_views(lines@)[k]) == plain_line(
                    lines_of(source@)[k],
                ),
        decreases texts@.len() - i,
    {
        let text = texts[i];
        let ghost before = line_views(lines@);
        let mut line: Vec<StyledPiece> = Vec::new();
        proof {
            assert(views(texts@)[i as int] == text@);
        }
        if !text.is_empty() {
            line.push(StyledPiece { text: String::from_str(text), highlight: None });
        }
        lines.push(line);
        proof {
            assert(line_views(lines@)[i as int] =~= plain_line(text@));
            assert forall|k: int| 0 <= k < i implies (#[trigger] line_views(lines@)[k])
                == plain_line(lines_of(source@)[k]) by {
                assert(line_views(lines@)[k] =~= before[k]);
            }
        }
        i = i + 1;
    }
    proof {
        assert(views(texts@).len() == texts@.len());
        assert(line_views(lines@) =~= plain_lines(source@));
    }
    lines
}

/// What a highlighter reports as it walks the source.
#[derive(Clone, Copy, Debug, PartialEq, Eq, Structural)]
pub enum HighlightEvent {
    /// A highlight starts; it is known by its number.
    HighlightStart(usize),
    /// The highlight that started last ends.
    HighlightEnd,
    /// The bytes `start..end` of the source come next.
    Source { start: usize, end: usize },
}

/// The state of laying out: the highlights that are open, innermost last,
/// and the lines so far.
pub struct Highlighting {
    pub open: Seq<usize>,
    pub lines: Seq<Seq<PieceView>>,
}

/// The innermost open highlight.
pub open spec fn innermost(open: Seq<usize>) -> Option<usize> {
    if open.len() > 0 {
        Some(open.last())
    } else {
        None
    }
}

/// The state after one event. A range of source that is empty, that
/// reaches beyond the source, or that cuts a character is passed over.
pub open spec fn after_event(source: Seq<char>, before: Highlighting, event: HighlightEvent) -> Highlighting {
    match event {
        HighlightEvent::HighlightStart(highlight) => Highlighting {
            open: before.open.push(highlight),
            lines: before.lines,
        },
        HighlightEvent::HighlightEnd => Highlighting {
            open: if before.open.len() > 0 {
                before.open.drop_last()
            } else {
                before.open
            },
            lines: before.lines,
        },
        HighlightEvent::Source { start, end } => if start < end && is_byte_range(
            source,
            start as int,
            end as int,
        ) {
            Highlighting {
                open: before.open,
                lines: with_segment(
                    before.lines,
                    byte_range_text(source, start as int, end as int),
                    innermost(before.open),
                ),
            }
        } else {
            before
        },
    }
}

/// The state after the first `n` events, from one empty line.
pub open spec fn after_events(source: Seq<char>, events: Seq<HighlightEvent>, n: int) -> Highlighting
    decreases n,
{
    if n <= 0 {
        Highlighting { open: Seq::empty(), lines: seq![Seq::empty()] }
    } else {
        after_event(source, after_events(source, events, n - 1), events[n - 1])
    }
}

/// The lines that the events lay out.
pub open spec fn laid_out(source: Seq<char>, events: Seq<HighlightEvent>) -> Seq<Seq<PieceView>> {
    after_events(source, events, events.len() as int).lines
}

/// Lays out the source in lines of highlighted pieces, as the events of a
/// highlighter tell.
pub fn lines_from_events(source: &str, events: &[HighlightEvent]) -> (lines: Vec<Vec<StyledPiece>>)
    ensures
        line_views(lines@) == laid_out(source@, events@),
{
    let mut lines: Vec<Vec<StyledPiece>> = Vec::new();
    lines.push(Vec::new());
    proof {
        assert(line_views(lines@) =~~= seq![Seq::<PieceView>::empty()]);
    }
    let total = byte_len(source);
    let mut highlight_stack: Vec<usize> = Vec::new();
    let mut i: usize = 0;
    while i < events.len()
        invariant
            i <= events@.len(),
            total == utf8_len(source@),
            after_events(source@, events@, i as int) == (Highlighting {
                open: highlight_stack@,
                lines: line_views(lines@),
            }),
        decreases events@.len() - i,
    {
        let ghost before = after_events(source@, events@, i as int);
        match events[i] {
            HighlightEvent::HighlightStart(highlight) => {
                highlight_stack.push(highlight);
            },
            HighlightEvent::HighlightEnd => {
                let ghost open = highlight_stack@;
                let popped = highlight_stack.pop();
                proof {
                    if open.len() > 0 {
                        assert(highlight_stack@ =~= open.drop_last());
                    }
                }
            },
            HighlightEvent::Source { start, end } => {
                if start < end && end <= total && source.is_char_boundary(start)
                    && source.is_char_boundary(end) {
                    let highlight = if highlight_stack.len() > 0 {
                        Some(highlight_stack[highlight_stack.len() - 1])
                    } else {
                        None
                    };
                    push_segment(&mut lines, slice_bytes(source, start, end), highlight);
                }
            },
        }
        proof {
            assert(after_events(source@, events@, i + 1) == after_event(
                source@,
                before,
                events@[i as int],
            ));
        }
        i = i + 1;
    }
    lines
}

/// The source is too large to be highlighted.
pub open spec fn too_large(source: Seq<char>) -> bool {
    utf8_len(source) > MAX_HIGHLIGHT_BYTES || lines_of(source).len() > MAX_HIGHLIGHT_LINES
}

/// Tests whether a source is too large to be highlighted.
pub fn exceeds_highlight_limits(source: &str) -> (exceeds: bool)
    ensures
        exceeds == too_large(source@),
{
    if byte_len(source) > MAX_HIGHLIGHT_BYTES {
        return true;
    }
    let lines = split_lines(source);
    proof {
        assert(views(lines@).len() == lines@.len());
    }
    lines.len() > MAX_HIGHLIGHT_LINES
}

/// A language with the configuration of its highlighter.
pub struct LanguageConfig {
    pub language: String,
    pub config: HighlightConfiguration,
}

/// The place of the first configuration for `language`.
pub open spec fn is_config_at(configs: Seq<LanguageConfig>, language: Seq<char>, at: int) -> bool {
    &&& 0 <= at < configs.len()
    &&& configs[at].language@ == language
    &&& forall|k: int| 0 <= k < at ==> (#[trigger] configs[k]).language@ != language
}

/// A configuration for `language` is among `configs`.
pub open spec fn has_config(configs: Seq<LanguageConfig>, language: Seq<char>) -> bool {
    exists|i: int| 0 <= i < configs.len() && (#[trigger] configs[i]).language@ == language
}

/// The first configuration for `language`.
pub fn highlight_config<'a>(configs: &'a [LanguageConfig], language: &str) -> (found: Option<
    &'a HighlightConfiguration,
>)
    ensures
        match found {
            Some(config) => exists|at: int| #[trigger]
                is_config_at(configs@, language@, at) && *config == configs@[at].config,
            None => !has_config(configs@, language@),
        },
{
    let mut i: usize = 0;
    while i < configs.len()
        invariant
            i <= configs@.len(),
            forall|k: int| 0 <= k < i ==> (#[trigger] configs@[k]).language@ != language@,
        decreases configs@.len() - i,
    {
        if str_eq(configs[i].language.as_str(), language) {
            proof {
                assert(is_config_at(configs@, language@, i as int));
            }
            return Some(&configs[i].config);
        }
        i = i + 1;
    }
    None
}

/// The names of the languages as plain values.
pub open spec fn language_names(configs: Seq<LanguageConfig>) -> Seq<Seq<char>> {
    Seq::new(configs.len(), |i: int| configs[i].language@)
}

/// The names of the languages that a highlighter is configured for.
pub fn configured_languages<'a>(configs: &'a [LanguageConfig]) -> (names: Vec<&'a str>)
    ensures
        views(names@) == language_names(configs@),
{
    let mut names: Vec<&'a str> = Vec::new();
    let mut i: usize = 0;
    while i < configs.len()
        invariant
            i <= configs@.len(),
            names@.len() == i,
            forall|k: int| 0 <= k < i ==> (#[trigger] names@[k])@ == configs@[k].language@,
        decreases configs@.len() - i,
    {
        names.push(configs[i].language.as_str());
        i = i + 1;
    }
    proof {
        assert(views(names@) =~= language_names(configs@));
    }
    names
}

/// tree-sitter's `Highlighter::highlight`, on a fresh highlighter, without
/// injected languages and without a way to cancel: the events that it
/// reports for the source, in their order, or `None` where it reports an
/// error. Nothing is claimed of the events.
#[verifier::external_body]
fn highlight_events(config: &HighlightConfiguration, source: &str) -> (events: Option<
    Vec<HighlightEvent>,
>) {
    let mut highlighter = Highlighter::new();
    let found = highlighter.highlight(config, source.as_bytes(), None, None, |_| None).ok()?;
    let mut events = Vec::new();
    for event in found {
        events.push(
            match event {
                Ok(SyntaxEvent::HighlightStart(highlight)) => HighlightEvent::HighlightStart(highlight.0),
                Ok(SyntaxEvent::HighlightEnd) => HighlightEvent::HighlightEnd,
                Ok(SyntaxEvent::Source { start, end }) => HighlightEvent::Source { start, end },
                Err(_) => return None,
            },
        );
    }
    Some(events)
}

/// The highlighted lines of a source, where the highlighter reported
/// `events`, or an error (`None`): one empty line for an empty source;
/// nothing for a source that is too large, for a language without a
/// configuration, and after an error; else what the events lay out.
pub open spec fn highlighted_lines(
    source: Seq<char>,
    configured: bool,
    events: Option<Seq<HighlightEvent>>,
) -> Option<Seq<Seq<PieceView>>> {
    if source.len() == 0 {
        Some(seq![Seq::empty()])
    } else if too_large(source) || !configured {
        None
    } else {
        match events {
            Some(reported) => Some(laid_out(source, reported)),
            None => None,
        }
    }
}

/// Lines of pieces as plain values, if there are any.
pub open spec fn lines_view(lines: Option<Vec<Vec<StyledPiece>>>) -> Option<Seq<Seq<PieceView>>> {
    match lines {
        Some(found) => Some(line_views(found@)),
        None => None,
    }
}

/// Highlights a source as `language`. The result is what the events of the
/// highlighter lay out, whatever it reported.
pub fn highlight_source_to_lines(source: &str, language: &str, configs: &[LanguageConfig]) -> (lines:
    Option<Vec<Vec<StyledPiece>>>)
    ensures
        exists|events: Option<Seq<HighlightEvent>>|
            lines_view(lines) == #[trigger] highlighted_lines(
                source@,
                has_config(configs@, language@),
                events,
            ),
{
    let ghost configured = has_config(configs@, language@);
    if source.is_empty() {
        let mut lines: Vec<Vec<StyledPiece>> = Vec::new();
        lines.push(Vec::new());
        proof {
            assert(line_views(lines@) =~~= seq![Seq::<PieceView>::empty()]);
            assert(lines_view(Some(lines)) == highlighted_lines(source@, configured, None));
        }
        return Some(lines);
    }
    if exceeds_highlight_limits(source) {
        proof {
            assert(highlighted_lines(source@, configured, None) is None);
        }
        return None;
    }
    let config = match highlight_config(configs, language) {
        Some(config) => config,
        None => {
            proof {
                assert(highlighted_lines(source@, configured, None) is None);
            }
            return None;
        },
    };
    proof {
        let at = choose|at: int| is_config_at(configs@, language@, at);
        assert(configs@[at].language@ == language@);
    }
    match highlight_events(config, source) {
        Some(events) => {
            let lines = lines_from_events(source, events.as_slice());
            proof {
                assert(lines_view(Some(lines)) == highlighted_lines(
                    source@,
                    configured,
                    Some(events@),
                ));
            }
            Some(lines)
        },
        None => {
            proof {
                assert(highlighted_lines(source@, configured, None) is None);
            }
            None
        },
    }
}

/// The lines of a piece of code: highlighted as `language`, where that
/// gives lines, and else without highlights.
pub open spec fn code_lines(
    source: Seq<char>,
    language: Option<Seq<char>>,
    configs: Seq<LanguageConfig>,
    events: Option<Seq<HighlightEvent>>,
) -> Seq<Seq<PieceView>> {
    match language {
        Some(name) => match highlighted_lines(source, has_config(configs, name), events) {
            Some(lines) => lines,
            None => plain_lines(source),
        },
        None => plain_lines(source),
    }
}

/// Highlights a piece of code in the language that the hints and the source
/// resolve to, and shows it without highlights where that fails.
pub fn highlight_code_to_lines(
    source: &str,
    language_hint: Option<&str>,
    filename_hint: Option<&str>,
    configs: &[LanguageConfig],
) -> (lines: Vec<Vec<StyledPiece>>)
    ensures
        exists|names: Seq<&str>, detected: Option<Seq<char>>, events: Option<Seq<HighlightEvent>>|
            {
                &&& views(names) == language_names(configs@)
                &&& match filename_hint {
                    Some(name) => detects(name@, detected),
                    None => detected is None,
                }
                &&& line_views(lines@) == #[trigger] code_lines(
                    source@,
                    chosen_language(names, hinted_language(names, language_hint), detected, source@),
                    configs@,
                    events,
                )
            },
{
    let names = configured_languages(configs);
    let language = resolve_language(language_hint, filename_hint, source, names.as_slice());
    let ghost hinted = hinted_language(names@, language_hint);
    let ghost detected = choose|detected: Option<Seq<char>>|
        {
            &&& match filename_hint {
                Some(name) => detects(name@, detected),
                None => detected is None,
            }
            &&& view_of(language) == #[trigger] chosen_language(names@, hinted, detected, source@)
        };
    let ghost chosen = chosen_language(names@, hinted, detected, source@);
    match language {
        Some(name) => {
            let found = highlight_source_to_lines(source, name.as_str(), configs);
            let ghost events = choose|events: Option<Seq<HighlightEvent>>|
                lines_view(found) == #[trigger] highlighted_lines(
                    source@,
                    has_config(configs@, name@),
                    events,
                );
            match found {
                Some(lines) => {
                    proof {
                        assert(line_views(lines@) == code_lines(source@, chosen, configs@, events));
                    }
                    lines
                },
                None => {
                    let lines = plain_source_to_lines(source);
                    proof {
                        assert(line_views(lines@) == code_lines(source@, chosen, configs@, events));
                    }
                    lines
                },
            }
        },
        None => {
            let lines = plain_source_to_lines(source);
            proof {
                assert(line_views(lines@) == code_lines(source@, chosen, configs@, None));
            }
            lines
        },
    }
}

/// Highlights a shell script.
pub fn highlight_bash_to_lines(script: &str, configs: &[LanguageConfig]) -> (lines: Vec<
    Vec<StyledPiece>,
>)
    ensures
        exists|names: Seq<&str>, events: Option<Seq<HighlightEvent>>|
            {
                &&& views(names) == language_names(configs@)
                &&& line_views(lines@) == #[trigger] code_lines(
                    script@,
                    chosen_language(names, hinted_language(names, Some("bash")), None, script@),
                    configs@,
                    events,
                )
            },
{
    highlight_code_to_lines(script, Some("bash"), None, configs)
}

/// Highlights a piece of code and keeps the pieces of its first line.
pub fn highlight_code_line_to_spans(
    source: &str,
    language_hint: Option<&str>,
    filename_hint: Option<&str>,
    configs: &[LanguageConfig],
) -> (pieces: Vec<StyledPiece>)
    ensures
        exists|names: Seq<&str>, detected: Option<Seq<char>>, events: Option<Seq<HighlightEvent>>|
            {
                &&& views(names) == language_names(configs@)
                &&& match filename_hint {
                    Some(name) => detects(name@, detected),
                    None => detected is None,
                }
                &&& first_line(
                    #[trigger] code_lines(
                        source@,
                        chosen_language(
                            names,
                            hinted_language(names, language_hint),
                            detected,
                            source@,
                        ),
                        configs@,
                        events,
                    ),
                ) == pieces_view(pieces@)
            },
{
    let mut lines = highlight_code_to_lines(source, language_hint, filename_hint, configs);
    let ghost all = line_views(lines@);
    if lines.len() == 0 {
        let pieces: Vec<StyledPiece> = Vec::new();
        proof {
            assert(pieces_view(pieces@) =~= first_line(all));
        }
        return pieces;
    }
    let pieces = lines.swap_remove(0);
    proof {
        assert(pieces_view(pieces@) =~= first_line(all));
    }
    pieces
}

/// The pieces of one line as plain values.
pub open spec fn pieces_view(pieces: Seq<StyledPiece>) -> Seq<PieceView> {
    Seq::new(pieces.len(), |j: int| (pieces[j].text@, pieces[j].highlight))
}

/// The first of the lines, or no piece where there is no line.
pub open spec fn first_line(lines: Seq<Seq<PieceView>>) -> Seq<PieceView> {
    if lines.len() > 0 {
        lines[0]
    } else {
        Seq::empty()
    }
}

/// How a highlighted piece is shown.
#[derive(Clone, Copy, Debug, PartialEq, Eq, Structural)]
pub enum HighlightStyle {
    Dim,
    Cyan,
    Magenta,
    Green,
    Red,
    Bold,
    Italic,
    CyanUnderlined,
    CrossedOut,
}

/// How the pieces of a theme slot are shown; variables, labels and what
/// has no slot are shown plainly.
pub open spec fn slot_style(slot: ThemeSlot) -> Option<HighlightStyle> {
    match slot {
        ThemeSlot::Comment | ThemeSlot::Operator | ThemeSlot::Punctuation | ThemeSlot::Embedded => Some(
            HighlightStyle::Dim,
        ),
        ThemeSlot::String | ThemeSlot::Constant | ThemeSlot::Number | ThemeSlot::Literal => Some(
            HighlightStyle::Cyan,
        ),
        ThemeSlot::Keyword
        | ThemeSlot::Function
        | ThemeSlot::Type
        | ThemeSlot::Property
        | ThemeSlot::Attribute
        | ThemeSlot::Tag
        | ThemeSlot::Macro
        | ThemeSlot::Namespace
        | ThemeSlot::Constructor => Some(HighlightStyle::Magenta),
        ThemeSlot::DiffAdd => Some(HighlightStyle::Green),
        ThemeSlot::DiffDelete | ThemeSlot::Error => Some(HighlightStyle::Red),
        ThemeSlot::Title | ThemeSlot::Strong => Some(HighlightStyle::Bold),
        ThemeSlot::Emphasis => Some(HighlightStyle::Italic),
        ThemeSlot::Link => Some(HighlightStyle::CyanUnderlined),
        ThemeSlot::Strikethrough => Some(HighlightStyle::CrossedOut),
        ThemeSlot::Variable | ThemeSlot::Label | ThemeSlot::None => None,
    }
}

/// How the pieces of a theme slot are shown.
pub fn style_for_slot(slot: ThemeSlot) -> (style: Option<HighlightStyle>)
    ensures
        style == slot_style(slot),
{
    match slot {
        ThemeSlot::Comment | ThemeSlot::Operator | ThemeSlot::Punctuation | ThemeSlot::Embedded => Some(
            HighlightStyle::Dim,
        ),
        ThemeSlot::String | ThemeSlot::Constant | ThemeSlot::Number | ThemeSlot::Literal => Some(
            HighlightStyle::Cyan,
        ),
        ThemeSlot::Keyword
        | ThemeSlot::Function
        | ThemeSlot::Type
        | ThemeSlot::Property
        | ThemeSlot::Attribute
        | ThemeSlot::Tag
        | ThemeSlot::Macro
        | ThemeSlot::Namespace
        | ThemeSlot::Constructor => Some(HighlightStyle::Magenta),
        ThemeSlot::DiffAdd => Some(HighlightStyle::Green),
        ThemeSlot::DiffDelete | ThemeSlot::Error => Some(HighlightStyle::Red),
        ThemeSlot::Title | ThemeSlot::Strong => Some(HighlightStyle::Bold),
        ThemeSlot::Emphasis => Some(HighlightStyle::Italic),
        ThemeSlot::Link => Some(HighlightStyle::CyanUnderlined),
        ThemeSlot::Strikethrough => Some(HighlightStyle::CrossedOut),
        ThemeSlot::Variable | ThemeSlot::Label | ThemeSlot::None => None,
    }
}

/// The theme slot of the highlight with this number: the slot of the
/// capture name that stands at this place in the list of capture names, if
/// one stands there.
pub uninterp spec fn capture_slot_of(highlight: usize) -> Option<ThemeSlot>;

/// arborium's `capture_to_slot`, on the capture name at place `highlight` of
/// its `CAPTURE_NAMES`: the same number always gives the same slot.
#[verifier::external_body]
fn capture_slot(highlight: usize) -> (slot: Option<ThemeSlot>)
    ensures
        slot == capture_slot_of(highlight),
{
    CAPTURE_NAMES.get(highlight).map(|name| capture_to_slot(name))
}

/// How the pieces of a highlight are shown.
pub open spec fn highlight_style(highlight: usize) -> Option<HighlightStyle> {
    match capture_slot_of(highlight) {
        Some(slot) => slot_style(slot),
        None => None,
    }
}

/// How the pieces of the highlight with this number are shown.
pub fn style_for(highlight: usize) -> (style: Option<HighlightStyle>)
    ensures
        style == highlight_style(highlight),
{
    match capture_slot(highlight) {
        Some(slot) => style_for_slot(slot),
        None => None,
    }
}

/// How a piece is shown: as its highlight, and plainly without one.
pub fn piece_style(piece: &StyledPiece) -> (style: Option<HighlightStyle>)
    ensures
        style == match piece.highlight {
            Some(highlight) => highlight_style(highlight),
            None => None,
        },
{
    match piece.highlight {
        Some(highlight) => style_for(highlight),
        None => None,
    }
}

/// tree-sitter's configuration of the highlighter for one language. What
/// it holds is never read here: a configuration is handed on to the
/// highlighter as it is.
#[verifier::external_type_specification]
#[verifier::external_body]
pub struct ExHighlightConfiguration(tree_sitter_highlight::HighlightConfiguration);

/// arborium's theme slots. The type is an enum whose variants have no
/// fields, and it is declared with its variants, so that a slot can be
/// matched on.
#[verifier::external_type_specification]
pub struct ExThemeSlot(arborium_theme::ThemeSlot);

} // verus!
