//! Table holdback: whether the accumulated source holds a pipe table that
//! is still taking shape.
//!
//! Each source line is classified by the fenced code block it sits in. A
//! line inside a fence that is not markdown is code: its pipes never count
//! as table syntax. A header row followed by a delimiter row confirms a
//! table; a header row at the end of the source is a table that may still
//! be confirmed by the next delta.

use crate::table_detect::{
    header_candidate, is_delimiter_line, is_table_delimiter_line, is_table_header_line,
    parse_table_segments, table_segments,
};
use crate::text::{
    count_leading, eq_ignoring_ascii_case, first_char, first_token, first_word, is_blank,
    leading_count, lemma_leading_count, skip_chars, split, split_char, str_eq_ignore_ascii_case,
    strip_prefix, strip_prefix_of, trim, trim_start, trim_start_of, trimmed, views, CharClass,
};
use vstd::prelude::*;
use vstd::string::*;

verus! {

/// The character and length of the run of backticks or tildes that `line`
/// starts with; `None` unless the run has at least three characters.
pub open spec fn fence_marker(line: Seq<char>) -> Option<(char, nat)> {
    if line.len() > 0 && (line[0] == '`' || line[0] == '~') {
        let run = leading_count(line, CharClass::Only(line[0]));
        if run >= 3 {
            Some((line[0], run))
        } else {
            None
        }
    } else {
        None
    }
}

/// Reads the fence marker that `line` starts with.
pub fn parse_fence_marker(line: &str) -> (marker: Option<(char, usize)>)
    ensures
        match marker {
            Some((c, len)) => fence_marker(line@) == Some((c, len as nat)),
            None => fence_marker(line@) is None,
        },
{
    match first_char(line) {
        Some(first) => {
            if first != '`' && first != '~' {
                return None;
            }
            let len = count_leading(line, CharClass::Only(first));
            if len < 3 {
                return None;
            }
            Some((first, len))
        },
        None => None,
    }
}

/// Where a source line sits relative to fenced code blocks.
///
/// Table holdback only applies to lines that are `Outside` or inside a
/// `Markdown` fence. Lines inside `Other` fences (`sh`, `rust`, or no info
/// string at all) are code.
#[derive(Clone, Copy, Debug, PartialEq, Eq, Structural)]
pub enum FenceContext {
    /// Not inside any fenced code block.
    Outside,
    /// Inside a fence whose info string is `md` or `markdown`.
    Markdown,
    /// Inside any other fence.
    Other,
}

/// A source line with the fence context it falls in.
#[derive(Clone, Copy, Debug)]
pub struct ParsedLine<'a> {
    pub text: &'a str,
    pub fence_context: FenceContext,
}

/// The first word after the marker of an opening fence line names markdown.
pub open spec fn is_markdown_info(trimmed_line: Seq<char>, marker_len: int) -> bool {
    let info = first_token(trimmed_line.skip(marker_len));
    eq_ignoring_ascii_case(info, "md"@) || eq_ignoring_ascii_case(info, "markdown"@)
}

/// Tests whether the info string of an opening fence line is `md` or
/// `markdown`, in any case of letters.
pub fn is_markdown_fence(trimmed_line: &str, marker_len: usize) -> (markdown: bool)
    requires
        marker_len <= trimmed_line@.len(),
    ensures
        markdown == is_markdown_info(trimmed_line@, marker_len as int),
{
    let info = first_word(skip_chars(trimmed_line, marker_len));
    str_eq_ignore_ascii_case(info, "md") || str_eq_ignore_ascii_case(info, "markdown")
}

/// A fence that has been opened and not yet closed.
pub struct OpenFence {
    pub marker: char,
    pub len: nat,
    pub context: FenceContext,
}

/// The open fence after `line`, given the open fence before it.
///
/// Outside a fence, a line that starts (after leading whitespace) with a
/// fence marker opens one. Inside a fence, a line closes it when it starts
/// with a marker of the same character, at least as long as the opening
/// one, and holds nothing else but whitespace.
pub open spec fn fence_after(before: Option<OpenFence>, line: Seq<char>) -> Option<OpenFence> {
    let t = trim_start_of(line);
    match fence_marker(t) {
        None => before,
        Some((marker, len)) => match before {
            None => Some(
                OpenFence {
                    marker,
                    len,
                    context: if is_markdown_info(t, len as int) {
                        FenceContext::Markdown
                    } else {
                        FenceContext::Other
                    },
                },
            ),
            Some(open) => if marker == open.marker && len >= open.len && is_blank(
                t.skip(len as int),
            ) {
                None
            } else {
                before
            },
        },
    }
}

/// The fence that is open before line `i` of `lines`.
pub open spec fn fence_before(lines: Seq<Seq<char>>, i: int) -> Option<OpenFence>
    decreases i,
{
    if i <= 0 {
        None
    } else {
        fence_after(fence_before(lines, i - 1), lines[i - 1])
    }
}

/// The fence context of line `i` of `lines`. The line that opens a fence is
/// outside it; the line that closes a fence is inside it.
pub open spec fn context_of(lines: Seq<Seq<char>>, i: int) -> FenceContext {
    match fence_before(lines, i) {
        Some(open) => open.context,
        None => FenceContext::Outside,
    }
}

/// The lines of a source: its pieces between newlines.
pub open spec fn source_lines(source: Seq<char>) -> Seq<Seq<char>> {
    split(source, '\n')
}

/// Splits `source` at newlines and classifies each line by its fence context.
pub fn parse_lines_with_fence_state<'a>(source: &'a str) -> (lines: Vec<ParsedLine<'a>>)
    ensures
        lines@.len() == source_lines(source@).len(),
        forall|i: int|
            0 <= i < lines@.len() ==> (#[trigger] lines@[i]).text@ == source_lines(source@)[i]
                && lines@[i].fence_context == context_of(source_lines(source@), i),
{
    let raw_lines = split_char(source, '\n');
    let ghost texts = source_lines(source@);
    let mut in_fence = false;
    let mut fence_char = '\0';
    let mut fence_len: usize = 0;
    let mut fence_context = FenceContext::Other;
    let mut lines: Vec<ParsedLine<'a>> = Vec::new();
    let mut i: usize = 0;
    while i < raw_lines.len()
        invariant
            i <= raw_lines@.len(),
            views(raw_lines@) == texts,
            lines@.len() == i,
            forall|k: int|
                0 <= k < i ==> (#[trigger] lines@[k]).text@ == texts[k] && lines@[k].fence_context
                    == context_of(texts, k),
            match fence_before(texts, i as int) {
                Some(open) => in_fence && fence_char == open.marker && fence_len == open.len
                    && fence_context == open.context,
                None => !in_fence,
            },
        decreases raw_lines@.len() - i,
    {
        let raw_line = raw_lines[i];
        proof {
            assert(views(raw_lines@)[i as int] == raw_line@);
        }
        lines.push(
            ParsedLine {
                text: raw_line,
                fence_context: if in_fence {
                    fence_context
                } else {
                    FenceContext::Outside
                },
            },
        );
        let trimmed_line = trim_start(raw_line);
        if let Some((marker, len)) = parse_fence_marker(trimmed_line) {
            proof {
                lemma_leading_count(trimmed_line@, CharClass::Only(marker));
            }
            if !in_fence {
                in_fence = true;
                fence_char = marker;
                fence_len = len;
                fence_context = if is_markdown_fence(trimmed_line, len) {
                    FenceContext::Markdown
                } else {
                    FenceContext::Other
                };
            } else if marker == fence_char && len >= fence_len && trim(
                skip_chars(trimmed_line, len),
            ).is_empty() {
                in_fence = false;
                fence_context = FenceContext::Other;
            }
        }
        i = i + 1;
    }
    lines
}

/// `s` without its leading run of `>` markers, each with the whitespace
/// that follows it.
pub open spec fn without_quote_markers(s: Seq<char>) -> Seq<char>
    decreases s.len(),
{
    if s.len() > 0 && s[0] == '>' {
        let rest = trim_start_of(s.drop_first());
        if rest.len() < s.len() {
            without_quote_markers(rest)
        } else {
            rest
        }
    } else {
        s
    }
}

/// `line` without leading whitespace and blockquote markers.
pub open spec fn without_blockquote(line: Seq<char>) -> Seq<char> {
    without_quote_markers(trim_start_of(line))
}

/// Strips the blockquote prefix of a line: leading whitespace, then every
/// `>` with the whitespace after it.
pub fn strip_blockquote_prefix<'a>(line: &'a str) -> (rest: &'a str)
    ensures
        rest@ == without_blockquote(line@),
{
    let mut rest = trim_start(line);
    loop
        invariant
            without_quote_markers(rest@) == without_blockquote(line@),
        decreases rest@.len(),
    {
        match strip_prefix(rest, '>') {
            Some(stripped) => {
                proof {
                    lemma_leading_count(stripped@, CharClass::Whitespace);
                    lemma_space_then_trim(stripped@);
                }
                let after_space = match strip_prefix(stripped, ' ') {
                    Some(without_space) => without_space,
                    None => stripped,
                };
                rest = trim_start(after_space);
            },
            None => {
                return rest;
            },
        }
    }
}

/// Dropping one leading space before trimming the start changes nothing.
proof fn lemma_space_then_trim(s: Seq<char>)
    ensures
        match strip_prefix_of(s, ' ') {
            Some(rest) => trim_start_of(rest) == trim_start_of(s),
            None => true,
        },
{
    if s.len() > 0 && s[0] == ' ' {
        let rest = s.drop_first();
        assert(CharClass::Whitespace.contains(' '));
        assert(leading_count(s, CharClass::Whitespace) == 1 + leading_count(
            rest,
            CharClass::Whitespace,
        ));
        lemma_leading_count(rest, CharClass::Whitespace);
        assert(trim_start_of(rest) =~= trim_start_of(s));
    }
}

/// The text of a line that table detection looks at: the line without its
/// blockquote prefix, trimmed.
pub open spec fn candidate_text(line: Seq<char>) -> Seq<char> {
    trimmed(without_blockquote(line))
}

/// Returns the text of `line` without blockquote prefix, if that text
/// parses as a table line.
pub fn table_candidate_text<'a>(line: &'a str) -> (text: Option<&'a str>)
    ensures
        match text {
            Some(stripped) => stripped@ == candidate_text(line@) && table_segments(
                candidate_text(line@),
            ) is Some,
            None => table_segments(candidate_text(line@)) is None,
        },
{
    let stripped = trim(strip_blockquote_prefix(line));
    match parse_table_segments(stripped) {
        Some(_) => Some(stripped),
        None => None,
    }
}

/// Whether the accumulated source holds a markdown table that keeps the
/// rendered lines from being committed.
#[derive(Clone, Copy, Debug, PartialEq, Eq, Structural)]
pub enum TableHoldbackState {
    /// No table detected: all rendered lines can flow into the stable queue.
    NoTable,
    /// The last non-blank line looks like a table header row and no
    /// delimiter row has followed yet.
    PendingHeader,
    /// A header row and a delimiter row were found: the source holds a
    /// confirmed table.
    Confirmed,
}

/// Line `i` may be a table header: it is not inside a fence of code, and
/// its candidate text is a header line that is not a delimiter line.
pub open spec fn is_header_at(lines: Seq<Seq<char>>, i: int) -> bool {
    header_candidate(candidate_text(lines[i]), context_of(lines, i) != FenceContext::Other)
}

/// Line `i` is a delimiter row outside any fence of code.
pub open spec fn is_delimiter_at(lines: Seq<Seq<char>>, i: int) -> bool {
    context_of(lines, i) != FenceContext::Other && is_delimiter_line(candidate_text(lines[i]))
}

/// Line `i` is a header and line `i + 1` its delimiter row.
pub open spec fn table_confirmed_at(lines: Seq<Seq<char>>, i: int) -> bool {
    0 <= i && i + 1 < lines.len() && is_header_at(lines, i) && is_delimiter_at(lines, i + 1)
}

/// The index of the last of the first `n` lines that is not blank.
pub open spec fn last_nonblank_line(lines: Seq<Seq<char>>, n: int) -> Option<int>
    decreases n,
{
    if n <= 0 {
        None
    } else if !is_blank(lines[n - 1]) {
        Some(n - 1)
    } else {
        last_nonblank_line(lines, n - 1)
    }
}

/// The holdback state of a sequence of source lines.
pub open spec fn holdback_of_lines(lines: Seq<Seq<char>>) -> TableHoldbackState {
    if exists|i: int| table_confirmed_at(lines, i) {
        TableHoldbackState::Confirmed
    } else {
        match last_nonblank_line(lines, lines.len() as int) {
            Some(j) => if is_header_at(lines, j) {
                TableHoldbackState::PendingHeader
            } else {
                TableHoldbackState::NoTable
            },
            None => TableHoldbackState::NoTable,
        }
    }
}

/// The holdback state of a source.
///
/// `Confirmed` when some header candidate is immediately followed by a
/// delimiter line, both outside fences of code. Otherwise `PendingHeader`
/// when the last non-blank line of the whole source is a header candidate.
/// Otherwise `NoTable`.
pub open spec fn holdback_state(source: Seq<char>) -> TableHoldbackState {
    holdback_of_lines(source_lines(source))
}

/// Tests whether a parsed line may be a table header.
fn is_header_row(line: &ParsedLine<'_>) -> (header: bool)
    ensures
        header == header_candidate(
            candidate_text(line.text@),
            line.fence_context != FenceContext::Other,
        ),
{
    if line.fence_context == FenceContext::Other {
        return false;
    }
    match table_candidate_text(line.text) {
        Some(text) => is_table_header_line(text) && !is_table_delimiter_line(text),
        None => false,
    }
}

/// Tests whether a parsed line is a delimiter row outside fences of code.
fn is_delimiter_row(line: &ParsedLine<'_>) -> (delimiter: bool)
    ensures
        delimiter == (line.fence_context != FenceContext::Other && is_delimiter_line(
            candidate_text(line.text@),
        )),
{
    if line.fence_context == FenceContext::Other {
        return false;
    }
    match table_candidate_text(line.text) {
        Some(text) => is_table_delimiter_line(text),
        None => false,
    }
}

/// Scans `source` for a pipe table outside fences of code. The stream
/// controllers use the result to decide how many rendered lines to hold
/// back.
pub fn table_holdback_state(source: &str) -> (state: TableHoldbackState)
    ensures
        state == holdback_state(source@),
{
    let lines = parse_lines_with_fence_state(source);
    let ghost texts = source_lines(source@);
    let n = lines.len();
    let mut i: usize = 0;
    while i < n && i + 1 < n
        invariant
            texts == source_lines(source@),
            n == lines@.len(),
            n == texts.len(),
            i <= n,
            forall|k: int|
                0 <= k < n ==> (#[trigger] lines@[k]).text@ == texts[k] && lines@[k].fence_context
                    == context_of(texts, k),
            forall|k: int| 0 <= k < i ==> !table_confirmed_at(texts, k),
        decreases n - i,
    {
        if is_header_row(&lines[i]) && is_delimiter_row(&lines[i + 1]) {
            proof {
                assert(table_confirmed_at(texts, i as int));
            }
            return TableHoldbackState::Confirmed;
        }
        i = i + 1;
    }
    let mut j: usize = n;
    while j > 0
        invariant
            texts == source_lines(source@),
            n == lines@.len(),
            n == texts.len(),
            j <= n,
            forall|k: int|
                0 <= k < n ==> (#[trigger] lines@[k]).text@ == texts[k] && lines@[k].fence_context
                    == context_of(texts, k),
            forall|k: int| !table_confirmed_at(texts, k),
            last_nonblank_line(texts, n as int) == last_nonblank_line(texts, j as int),
        decreases j,
    {
        j = j - 1;
        if !trim(lines[j].text).is_empty() {
            return if is_header_row(&lines[j]) {
                TableHoldbackState::PendingHeader
            } else {
                TableHoldbackState::NoTable
            };
        }
    }
    TableHoldbackState::NoTable
}

/// Pipes inside fences of code never hold lines back: when no line outside
/// such fences parses as a table line, the holdback state is `NoTable`.
pub proof fn lemma_code_fences_never_hold_back(source: Seq<char>)
    requires
        forall|i: int|
            0 <= i < source_lines(source).len() && context_of(source_lines(source), i)
                != FenceContext::Other ==> table_segments(
                candidate_text(#[trigger] source_lines(source)[i]),
            ) is None,
    ensures
        holdback_state(source) == TableHoldbackState::NoTable,
{
    let lines = source_lines(source);
    assert forall|i: int| !table_confirmed_at(lines, i) by {
        if 0 <= i && i + 1 < lines.len() {
            if context_of(lines, i) != FenceContext::Other {
                assert(table_segments(candidate_text(lines[i])) is None);
            }
        }
    }
    lemma_last_nonblank_in_range(lines, lines.len() as int);
    match last_nonblank_line(lines, lines.len() as int) {
        Some(j) => {
            if context_of(lines, j) != FenceContext::Other {
                assert(table_segments(candidate_text(lines[j])) is None);
            }
        },
        None => {},
    }
}

/// The last non-blank line, if there is one, is one of the lines.
pub proof fn lemma_last_nonblank_in_range(lines: Seq<Seq<char>>, n: int)
    requires
        n <= lines.len(),
    ensures
        match last_nonblank_line(lines, n) {
            Some(j) => 0 <= j < n && !is_blank(lines[j]),
            None => true,
        },
    decreases n,
{
    if n > 0 && is_blank(lines[n - 1]) {
        lemma_last_nonblank_in_range(lines, n - 1);
    }
}

} // verus!
