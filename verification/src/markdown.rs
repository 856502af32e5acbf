//! Markdown as the agent writes it, made ready for rendering.
//!
//! Agents often wrap a table in a fence tagged `md` or `markdown`. Rendered
//! as it stands, such a table would show as code. `unwrap_markdown_fences`
//! removes the fence lines around such a table and keeps every other fence
//! as it is. The markdown renderer itself is a collaborator handed in by
//! the caller: a function from source and width to styled lines.

use crate::line::StyledLine;
use crate::streaming::holdback::{
    fence_marker, is_markdown_fence, is_markdown_info, parse_fence_marker,
};
use crate::text::{
    joined, lemma_split_inclusive_joins, all_chars_in, all_in, contains_char, count_chars_in, count_in, count_leading, first_char,
    has_char, is_blank, leading_count, lemma_leading_count, skip_chars, split, split_char,
    split_inclusive, split_inclusive_char, strip_suffix, strip_suffix_of, trim, trim_matches,
    trim_matches_of, trimmed, views, CharClass,
};
use vstd::prelude::*;
use vstd::string::*;

verus! {

/// `line` without the newline that ends it, if one does.
pub open spec fn without_newline(line: Seq<char>) -> Seq<char> {
    match strip_suffix_of(line, '\n') {
        Some(rest) => rest,
        None => line,
    }
}

/// What follows the indentation of a line, for a line that is indented by
/// at most three spaces; `None` for a line that is indented by more.
pub open spec fn fence_body(line: Seq<char>) -> Option<Seq<char>> {
    let text = without_newline(line);
    let indent = leading_count(text, CharClass::Only(' '));
    if indent > 3 {
        None
    } else {
        Some(text.skip(indent as int))
    }
}

/// The marker of a fence and whether its info string names markdown.
#[derive(Clone, Copy, Debug)]
pub struct Fence {
    pub marker: char,
    pub len: usize,
    pub is_markdown: bool,
}

/// The fence that `line` opens, if it opens one: a run of at least three
/// backticks or tildes after at most three spaces.
pub open spec fn open_fence(line: Seq<char>) -> Option<Fence> {
    match fence_body(line) {
        Some(body) => match fence_marker(body) {
            Some((marker, len)) => Some(
                Fence {
                    marker,
                    len: len as usize,
                    is_markdown: is_markdown_info(body, len as int),
                },
            ),
            None => None,
        },
        None => None,
    }
}

/// `line` closes `fence`: after at most three spaces it holds a run of the
/// fence's marker, at least as long as the opening run, and then nothing
/// but whitespace.
pub open spec fn closes_fence(line: Seq<char>, fence: Fence) -> bool {
    match fence_body(line) {
        Some(body) => {
            let run = leading_count(body, CharClass::Only(fence.marker));
            run >= 1 && run >= fence.len && is_blank(body.skip(run as int))
        },
        None => false,
    }
}

/// Returns the text after the indentation of `line`, unless the line is
/// indented by more than three spaces.
fn fence_line_body<'a>(line: &'a str) -> (body: Option<&'a str>)
    ensures
        match body {
            Some(text) => fence_body(line@) == Some(text@),
            None => fence_body(line@) is None,
        },
{
    let without_newline = match strip_suffix(line, '\n') {
        Some(rest) => rest,
        None => line,
    };
    let leading_ws = count_leading(without_newline, CharClass::Only(' '));
    if leading_ws > 3 {
        return None;
    }
    Some(skip_chars(without_newline, leading_ws))
}

/// Reads the fence that `line` opens, if it opens one.
pub fn parse_open_fence(line: &str) -> (fence: Option<Fence>)
    ensures
        fence == open_fence(line@),
{
    match fence_line_body(line) {
        Some(body) => match parse_fence_marker(body) {
            Some((marker, len)) => {
                proof {
                    lemma_leading_count(body@, CharClass::Only(marker));
                }
                Some(Fence { marker, len, is_markdown: is_markdown_fence(body, len) })
            },
            None => None,
        },
        None => None,
    }
}

/// Tests whether `line` closes `fence`.
pub fn is_close_fence(line: &str, fence: Fence) -> (closes: bool)
    ensures
        closes == closes_fence(line@, fence),
{
    match fence_line_body(line) {
        Some(body) => {
            let len = count_leading(body, CharClass::Only(fence.marker));
            if len < 1 || len < fence.len {
                return false;
            }
            trim(skip_chars(body, len)).is_empty()
        },
        None => false,
    }
}

/// The pieces of `text` between pipes, trimmed, are all non-empty.
pub open spec fn all_cells_filled(text: Seq<char>) -> bool {
    forall|i: int|
        0 <= i < split(text, '|').len() ==> trimmed(#[trigger] split(text, '|')[i]).len() > 0
}

/// A line that may be a row of a table: it holds at least two pipes, and
/// either starts with a pipe or has text in every cell.
pub open spec fn is_candidate_line(line: Seq<char>) -> bool {
    let text = trimmed(line);
    count_in(text, CharClass::Only('|')) >= 2 && ((text.len() > 0 && text[0] == '|')
        || all_cells_filled(text))
}

/// A cell of a delimiter row: dashes and colons only, with a dash among them.
pub open spec fn is_delimiter_cell(segment: Seq<char>) -> bool {
    let value = trimmed(segment);
    value.len() > 0 && all_in(value, CharClass::Either('-', ':')) && contains_char(value, '-')
}

/// The text of a row whose cells are read: without its outer pipes when it
/// starts with a pipe.
pub open spec fn row_cells_text(text: Seq<char>) -> Seq<char> {
    if text.len() > 0 && text[0] == '|' {
        trim_matches_of(text, '|')
    } else {
        text
    }
}

/// A line that is the delimiter row of a table: at least two pipes, and
/// every cell a delimiter cell.
pub open spec fn is_delimiter_row(line: Seq<char>) -> bool {
    let text = trimmed(line);
    let cells = split(row_cells_text(text), '|');
    count_in(text, CharClass::Only('|')) >= 2 && forall|i: int|
        0 <= i < cells.len() ==> is_delimiter_cell(#[trigger] cells[i])
}

/// The content of a fence holds a table: a candidate line that is a
/// delimiter row, and another that is not.
pub open spec fn holds_table(content: Seq<char>) -> bool {
    let lines = split(content, '\n');
    (exists|i: int|
        0 <= i < lines.len() && is_candidate_line(#[trigger] lines[i]) && !is_delimiter_row(
            lines[i],
        )) && (exists|j: int|
        0 <= j < lines.len() && is_candidate_line(#[trigger] lines[j]) && is_delimiter_row(
            lines[j],
        ))
}

/// Tests whether a line may be a row of a table.
pub fn is_table_candidate_line(line: &str) -> (candidate: bool)
    ensures
        candidate == is_candidate_line(line@),
{
    let text = trim(line);
    let pipe_count = count_chars_in(text, CharClass::Only('|'));
    if pipe_count < 2 {
        return false;
    }
    if let Some(first) = first_char(text) {
        if first == '|' {
            return true;
        }
    }
    let pieces = split_char(text, '|');
    let mut i: usize = 0;
    while i < pieces.len()
        invariant
            i <= pieces@.len(),
            text@ == trimmed(line@),
            count_in(text@, CharClass::Only('|')) >= 2,
            !(text@.len() > 0 && text@[0] == '|'),
            views(pieces@) == split(text@, '|'),
            forall|k: int| 0 <= k < i ==> trimmed(#[trigger] split(text@, '|')[k]).len() > 0,
        decreases pieces@.len() - i,
    {
        proof {
            assert(views(pieces@)[i as int] == pieces@[i as int]@);
        }
        if trim(pieces[i]).is_empty() {
            proof {
                assert(trimmed(split(text@, '|')[i as int]).len() == 0);
            }
            return false;
        }
        i = i + 1;
    }
    proof {
        assert(views(pieces@).len() == pieces@.len());
    }
    true
}

/// Tests whether a line is the delimiter row of a table.
pub fn is_table_delimiter_row(line: &str) -> (delimiter: bool)
    ensures
        delimiter == is_delimiter_row(line@),
{
    let text = trim(line);
    let pipe_count = count_chars_in(text, CharClass::Only('|'));
    if pipe_count < 2 {
        return false;
    }
    let starts_with_pipe = match first_char(text) {
        Some(first) => first == '|',
        None => false,
    };
    let cells_text = if starts_with_pipe {
        trim_matches(text, '|')
    } else {
        text
    };
    let segments = split_char(cells_text, '|');
    let ghost cells = split(row_cells_text(text@), '|');
    let mut i: usize = 0;
    while i < segments.len()
        invariant
            i <= segments@.len(),
            text@ == trimmed(line@),
            count_in(text@, CharClass::Only('|')) >= 2,
            cells == split(row_cells_text(text@), '|'),
            views(segments@) == cells,
            forall|k: int| 0 <= k < i ==> is_delimiter_cell(#[trigger] cells[k]),
        decreases segments@.len() - i,
    {
        proof {
            assert(views(segments@)[i as int] == segments@[i as int]@);
        }
        let value = trim(segments[i]);
        if value.is_empty() || !all_chars_in(value, CharClass::Either('-', ':')) || !has_char(
            value,
            '-',
        ) {
            proof {
                assert(!is_delimiter_cell(cells[i as int]));
            }
            return false;
        }
        i = i + 1;
    }
    proof {
        assert(views(segments@).len() == segments@.len());
    }
    true
}

/// Tests whether the content of a fence holds a table.
pub fn markdown_fence_contains_table(content: &str) -> (table: bool)
    ensures
        table == holds_table(content@),
{
    let lines = split_char(content, '\n');
    let ghost texts = split(content@, '\n');
    let mut saw_candidate = false;
    let mut saw_delimiter = false;
    let mut i: usize = 0;
    while i < lines.len()
        invariant
            i <= lines@.len(),
            views(lines@) == texts,
            saw_candidate == (exists|k: int|
                0 <= k < i && is_candidate_line(#[trigger] texts[k]) && !is_delimiter_row(
                    texts[k],
                )),
            saw_delimiter == (exists|k: int|
                0 <= k < i && is_candidate_line(#[trigger] texts[k]) && is_delimiter_row(
                    texts[k],
                )),
        decreases lines@.len() - i,
    {
        proof {
            assert(views(lines@)[i as int] == lines@[i as int]@);
        }
        let line = lines[i];
        if is_table_candidate_line(line) {
            if is_table_delimiter_row(line) {
                saw_delimiter = true;
            } else {
                saw_candidate = true;
            }
        }
        proof {
            let n = i as int;
            if saw_candidate {
                let k = if is_candidate_line(texts[n]) && !is_delimiter_row(texts[n]) {
                    n
                } else {
                    choose|k: int|
                        0 <= k < n && is_candidate_line(#[trigger] texts[k]) && !is_delimiter_row(
                            texts[k],
                        )
                };
                assert(0 <= k < n + 1 && is_candidate_line(texts[k]) && !is_delimiter_row(
                    texts[k],
                ));
            }
            if saw_delimiter {
                let k = if is_candidate_line(texts[n]) && is_delimiter_row(texts[n]) {
                    n
                } else {
                    choose|k: int|
                        0 <= k < n && is_candidate_line(#[trigger] texts[k]) && is_delimiter_row(
                            texts[k],
                        )
                };
                assert(0 <= k < n + 1 && is_candidate_line(texts[k]) && is_delimiter_row(
                    texts[k],
                ));
            }
        }
        i = i + 1;
    }
    proof {
        assert(views(lines@).len() == lines@.len());
    }
    saw_candidate && saw_delimiter
}

/// The fence that a scan of the source is inside of.
pub enum ActiveFence {
    /// A fence whose lines are kept as they are.
    Passthrough(Fence),
    /// A markdown fence: its lines are kept back until the fence closes.
    MarkdownCandidate { fence: Fence, opening_line: String, content: String },
}

/// The fence that a scan is inside of, as plain values.
pub enum FenceScan {
    Outside,
    Passthrough { fence: Fence },
    Candidate { fence: Fence, opening_line: Seq<char>, content: Seq<char> },
}

/// The state of unwrapping after some lines: what was written out, and
/// the fence the scan is inside of.
pub struct Unwrapping {
    pub out: Seq<char>,
    pub scan: FenceScan,
}

/// The plain values of a fence under scan.
pub open spec fn scan_of(active: Option<ActiveFence>) -> FenceScan {
    match active {
        None => FenceScan::Outside,
        Some(ActiveFence::Passthrough(fence)) => FenceScan::Passthrough { fence },
        Some(ActiveFence::MarkdownCandidate { fence, opening_line, content }) => {
            FenceScan::Candidate { fence, opening_line: opening_line@, content: content@ }
        },
    }
}

/// The state of unwrapping after one more line.
///
/// Outside a fence, a line is written out, unless it opens a markdown
/// fence: then it is kept back. Inside a fence of code every line is
/// written out. Inside a markdown fence lines are collected; at the
/// closing line the content alone is written out when it holds a table,
/// and the whole fence as it stood when it does not.
pub open spec fn unwrap_line(before: Unwrapping, line: Seq<char>) -> Unwrapping {
    match before.scan {
        FenceScan::Passthrough { fence } => Unwrapping {
            out: before.out + line,
            scan: if closes_fence(line, fence) {
                FenceScan::Outside
            } else {
                before.scan
            },
        },
        FenceScan::Candidate { fence, opening_line, content } => if closes_fence(line, fence) {
            Unwrapping {
                out: if holds_table(content) {
                    before.out + content
                } else {
                    before.out + opening_line + content + line
                },
                scan: FenceScan::Outside,
            }
        } else {
            Unwrapping {
                out: before.out,
                scan: FenceScan::Candidate { fence, opening_line, content: content + line },
            }
        },
        FenceScan::Outside => match open_fence(line) {
            Some(fence) => if fence.is_markdown {
                Unwrapping {
                    out: before.out,
                    scan: FenceScan::Candidate {
                        fence,
                        opening_line: line,
                        content: Seq::empty(),
                    },
                }
            } else {
                Unwrapping { out: before.out + line, scan: FenceScan::Passthrough { fence } }
            },
            None => Unwrapping { out: before.out + line, scan: FenceScan::Outside },
        },
    }
}

/// The state of unwrapping after the first `n` of `lines`.
pub open spec fn unwrap_lines(lines: Seq<Seq<char>>, n: int) -> Unwrapping
    decreases n,
{
    if n <= 0 {
        Unwrapping { out: Seq::empty(), scan: FenceScan::Outside }
    } else {
        unwrap_line(unwrap_lines(lines, n - 1), lines[n - 1])
    }
}

/// What is written out in the end: a markdown fence that never closed is
/// kept as it stood.
pub open spec fn unwrap_end(state: Unwrapping) -> Seq<char> {
    match state.scan {
        FenceScan::Candidate { fence, opening_line, content } => state.out + opening_line
            + content,
        _ => state.out,
    }
}

/// The source with the fence lines removed around each closed markdown
/// fence that holds a table.
pub open spec fn unwrapped(source: Seq<char>) -> Seq<char> {
    let lines = split_inclusive(source, '\n');
    unwrap_end(unwrap_lines(lines, lines.len() as int))
}

/// A source in which no line opens a fence is left as it is.
pub proof fn lemma_unwrap_without_fences(source: Seq<char>)
    requires
        forall|i: int|
            0 <= i < split_inclusive(source, '\n').len() ==> open_fence(
                #[trigger] split_inclusive(source, '\n')[i],
            ) is None,
    ensures
        unwrapped(source) == source,
{
    let lines = split_inclusive(source, '\n');
    lemma_unwrap_plain_lines(lines, lines.len() as int);
    lemma_split_inclusive_joins(source, '\n');
}

/// While no line opens a fence, every line is written out as it is.
proof fn lemma_unwrap_plain_lines(lines: Seq<Seq<char>>, n: int)
    requires
        0 <= n <= lines.len(),
        forall|i: int| 0 <= i < lines.len() ==> open_fence(#[trigger] lines[i]) is None,
    ensures
        unwrap_lines(lines, n) == (Unwrapping { out: joined(lines, n), scan: FenceScan::Outside }),
    decreases n,
{
    if n > 0 {
        lemma_unwrap_plain_lines(lines, n - 1);
        assert(open_fence(lines[n - 1]) is None);
    }
}

/// Removes the fence lines around each closed markdown fence that holds a
/// table, so that the table renders as a table.
pub fn unwrap_markdown_fences(markdown_source: &str) -> (normalized: String)
    ensures
        normalized@ == unwrapped(markdown_source@),
{
    let lines = split_inclusive_char(markdown_source, '\n');
    let ghost texts = split_inclusive(markdown_source@, '\n');
    let mut out = String::new();
    let mut active_fence: Option<ActiveFence> = None;
    let mut i: usize = 0;
    while i < lines.len()
        invariant
            i <= lines@.len(),
            views(lines@) == texts,
            unwrap_lines(texts, i as int) == (Unwrapping {
                out: out@,
                scan: scan_of(active_fence),
            }),
        decreases lines@.len() - i,
    {
        proof {
            assert(views(lines@)[i as int] == lines@[i as int]@);
        }
        let line = lines[i];
        let ghost before = unwrap_lines(texts, i as int);
        let current = active_fence;
        match current {
            Some(ActiveFence::Passthrough(fence)) => {
                out.append(line);
                if !is_close_fence(line, fence) {
                    active_fence = Some(ActiveFence::Passthrough(fence));
                } else {
                    active_fence = None;
                }
            },
            Some(ActiveFence::MarkdownCandidate { fence, opening_line, content }) => {
                if is_close_fence(line, fence) {
                    if markdown_fence_contains_table(content.as_str()) {
                        out.append(content.as_str());
                    } else {
                        out.append(opening_line.as_str());
                        out.append(content.as_str());
                        out.append(line);
                    }
                    active_fence = None;
                } else {
                    let mut content = content;
                    content.append(line);
                    active_fence = Some(
                        ActiveFence::MarkdownCandidate { fence, opening_line, content },
                    );
                }
            },
            None => {
                match parse_open_fence(line) {
                    Some(fence) => {
                        if fence.is_markdown {
                            active_fence = Some(
                                ActiveFence::MarkdownCandidate {
                                    fence,
                                    opening_line: String::from_str(line),
                                    content: String::new(),
                                },
                            );
                        } else {
                            out.append(line);
                            active_fence = Some(ActiveFence::Passthrough(fence));
                        }
                    },
                    None => {
                        out.append(line);
                        active_fence = None;
                    },
                }
            },
        }
        proof {
            assert(unwrap_lines(texts, i + 1) == unwrap_line(before, texts[i as int]));
        }
        i = i + 1;
    }
    proof {
        assert(views(lines@).len() == lines@.len());
    }
    if let Some(active) = active_fence {
        match active {
            ActiveFence::Passthrough(_) => {},
            ActiveFence::MarkdownCandidate { fence, opening_line, content } => {
                out.append(opening_line.as_str());
                out.append(content.as_str());
            },
        }
    }
    out
}

/// `lines` is what `render` may return for a source of the text `source`
/// at the width `width`.
pub open spec fn renders<R: Fn(&str, Option<usize>) -> Vec<StyledLine>>(
    render: R,
    source: Seq<char>,
    width: Option<usize>,
    lines: Seq<StyledLine>,
) -> bool {
    exists|text: &str, out: Vec<StyledLine>|
        text@ == source && out@ == lines && render.ensures((text, width), out)
}

/// `render` accepts every source at every width.
pub open spec fn renders_everything<R: Fn(&str, Option<usize>) -> Vec<StyledLine>>(
    render: R,
) -> bool {
    forall|text: &str, width: Option<usize>| render.requires((text, width))
}

/// `lines` is what `render` may return for the unwrapped form of `source`.
pub open spec fn renders_agent<R: Fn(&str, Option<usize>) -> Vec<StyledLine>>(
    render: R,
    source: Seq<char>,
    width: Option<usize>,
    lines: Seq<StyledLine>,
) -> bool {
    renders(render, unwrapped(source), width, lines)
}

/// Renders `markdown_source` at `width` and appends the lines to `lines`.
pub fn append_markdown<R: Fn(&str, Option<usize>) -> Vec<StyledLine>>(
    markdown_source: &str,
    width: Option<usize>,
    lines: &mut Vec<StyledLine>,
    render: &R,
)
    requires
        renders_everything(*render),
    ensures
        old(lines)@.len() <= final(lines)@.len(),
        final(lines)@.take(old(lines)@.len() as int) == old(lines)@,
        renders(
            *render,
            markdown_source@,
            width,
            final(lines)@.skip(old(lines)@.len() as int),
        ),
{
    let mut rendered = render(markdown_source, width);
    proof {
        assert((old(lines)@ + rendered@).take(old(lines)@.len() as int) =~= old(lines)@);
        assert((old(lines)@ + rendered@).skip(old(lines)@.len() as int) =~= rendered@);
    }
    lines.append(&mut rendered);
}

/// Renders markdown written by the agent: the source is unwrapped first,
/// then rendered at `width`, and the lines are appended to `lines`.
pub fn append_markdown_agent<R: Fn(&str, Option<usize>) -> Vec<StyledLine>>(
    markdown_source: &str,
    width: Option<usize>,
    lines: &mut Vec<StyledLine>,
    render: &R,
)
    requires
        renders_everything(*render),
    ensures
        old(lines)@.len() <= final(lines)@.len(),
        final(lines)@.take(old(lines)@.len() as int) == old(lines)@,
        renders_agent(
            *render,
            markdown_source@,
            width,
            final(lines)@.skip(old(lines)@.len() as int),
        ),
{
    let normalized = unwrap_markdown_fences(markdown_source);
    append_markdown(normalized.as_str(), width, lines, render);
}

} // verus!
