//! Pipe-table detection shared by the stream controllers and the
//! markdown-fence unwrapper.
//!
//! A line *parses as a table line* when, once trimmed and freed of one
//! leading and one trailing pipe, it splits on `|` into at least two
//! segments. A *header* has a non-empty segment; a *delimiter* consists of
//! `---`, `:---`, `---:` or `:---:` segments only.

use crate::text::{
    all_chars_in, all_in, is_blank, split, split_char, strip_prefix, strip_prefix_of, strip_suffix,
    strip_suffix_of, trim, trimmed, views, CharClass,
};
use vstd::string::*;
use vstd::prelude::*;

verus! {

/// The trimmed segments of a pipe-delimited line; `None` when the line is
/// blank or has fewer than two segments.
pub open spec fn table_segments(line: Seq<char>) -> Option<Seq<Seq<char>>> {
    let t = trimmed(line);
    let inner = without_outer_pipes(t);
    let pieces = split(inner, '|');
    if t.len() > 0 && pieces.len() >= 2 {
        Some(Seq::new(pieces.len(), |i: int| trimmed(pieces[i])))
    } else {
        None
    }
}

/// `t` without one leading and then one trailing pipe.
pub open spec fn without_outer_pipes(t: Seq<char>) -> Seq<char> {
    let a = match strip_prefix_of(t, '|') {
        Some(rest) => rest,
        None => t,
    };
    match strip_suffix_of(a, '|') {
        Some(rest) => rest,
        None => a,
    }
}

/// The line parses as a table line and one of its segments is not empty.
pub open spec fn is_header_line(line: Seq<char>) -> bool {
    match table_segments(line) {
        Some(segments) => exists|i: int| 0 <= i < segments.len() && (#[trigger] segments[i]).len() > 0,
        None => false,
    }
}

/// The segment is at least three dashes, with at most one colon on either side.
pub open spec fn is_delimiter_segment(segment: Seq<char>) -> bool {
    let t = trimmed(segment);
    let a = match strip_prefix_of(t, ':') {
        Some(rest) => rest,
        None => t,
    };
    let dashes = match strip_suffix_of(a, ':') {
        Some(rest) => rest,
        None => a,
    };
    t.len() > 0 && dashes.len() >= 3 && all_in(dashes, CharClass::Only('-'))
}

/// The line parses as a table line and each of its segments is a delimiter segment.
pub open spec fn is_delimiter_line(line: Seq<char>) -> bool {
    match table_segments(line) {
        Some(segments) => forall|i: int|
            0 <= i < segments.len() ==> is_delimiter_segment(#[trigger] segments[i]),
        None => false,
    }
}

/// Splits a pipe-delimited line into trimmed segments.
///
/// Returns `None` if the line is blank or has fewer than two segments. One
/// leading and one trailing pipe are stripped before splitting.
pub fn parse_table_segments<'a>(line: &'a str) -> (r: Option<Vec<&'a str>>)
    ensures
        match r {
            Some(segments) => table_segments(line@) == Some(views(segments@)),
            None => table_segments(line@) is None,
        },
{
    let trimmed_line = trim(line);
    if trimmed_line.is_empty() {
        return None;
    }
    let mut content = trimmed_line;
    if let Some(without_leading) = strip_prefix(content, '|') {
        content = without_leading;
    }
    if let Some(without_trailing) = strip_suffix(content, '|') {
        content = without_trailing;
    }
    let pieces = split_char(content, '|');
    let mut segments: Vec<&'a str> = Vec::new();
    let mut i: usize = 0;
    while i < pieces.len()
        invariant
            i <= pieces@.len(),
            segments@.len() == i,
            forall|k: int| 0 <= k < i ==> (#[trigger] segments@[k])@ == trimmed(pieces@[k]@),
        decreases pieces@.len() - i,
    {
        segments.push(trim(pieces[i]));
        i = i + 1;
    }
    if segments.len() >= 2 {
        proof {
            let expected = table_segments(line@)->0;
            assert(views(pieces@).len() == pieces@.len());
            assert forall|k: int| 0 <= k < segments@.len() implies views(segments@)[k]
                == expected[k] by {
                assert(views(pieces@)[k] == pieces@[k]@);
            }
            assert(views(segments@) =~= expected);
        }
        Some(segments)
    } else {
        proof {
            assert(views(pieces@).len() == pieces@.len());
        }
        None
    }
}

/// Whether `line` looks like a table header row: pipe-separated segments
/// with at least one non-empty cell.
pub fn is_table_header_line(line: &str) -> (header: bool)
    ensures
        header == is_header_line(line@),
{
    match parse_table_segments(line) {
        Some(segments) => {
            let mut i: usize = 0;
            while i < segments.len()
                invariant
                    i <= segments@.len(),
                    table_segments(line@) == Some(views(segments@)),
                    forall|k: int| 0 <= k < i ==> (#[trigger] views(segments@)[k]).len() == 0,
                decreases segments@.len() - i,
            {
                if !segments[i].is_empty() {
                    proof {
                        let found = table_segments(line@)->0;
                        assert(0 <= i < found.len() && found[i as int].len() > 0);
                    }
                    return true;
                }
                i = i + 1;
            }
            false
        },
        None => false,
    }
}

/// Whether a single segment matches the `---`, `:---`, `---:` or `:---:`
/// syntax of a table delimiter row.
pub fn is_table_delimiter_segment(segment: &str) -> (delimiter: bool)
    ensures
        delimiter == is_delimiter_segment(segment@),
{
    let trimmed_segment = trim(segment);
    if trimmed_segment.is_empty() {
        return false;
    }
    let without_leading = match strip_prefix(trimmed_segment, ':') {
        Some(rest) => rest,
        None => trimmed_segment,
    };
    let without_ends = match strip_suffix(without_leading, ':') {
        Some(rest) => rest,
        None => without_leading,
    };
    without_ends.unicode_len() >= 3 && all_chars_in(without_ends, CharClass::Only('-'))
}

/// Whether `line` is a table delimiter row: it parses as a table line and
/// every segment is a delimiter segment.
pub fn is_table_delimiter_line(line: &str) -> (delimiter: bool)
    ensures
        delimiter == is_delimiter_line(line@),
{
    match parse_table_segments(line) {
        Some(segments) => {
            let mut i: usize = 0;
            while i < segments.len()
                invariant
                    i <= segments@.len(),
                    table_segments(line@) == Some(views(segments@)),
                    forall|k: int|
                        0 <= k < i ==> is_delimiter_segment(#[trigger] views(segments@)[k]),
                decreases segments@.len() - i,
            {
                if !is_table_delimiter_segment(segments[i]) {
                    proof {
                        let found = table_segments(line@)->0;
                        assert(0 <= i < found.len() && !is_delimiter_segment(found[i as int]));
                    }
                    return false;
                }
                i = i + 1;
            }
            true
        },
        None => false,
    }
}

/// A single line and whether table detection should consider it.
///
/// `enabled` lets callers feed whole source streams while masking contexts
/// that take no part in table detection, such as code fences that are not
/// markdown. A disabled line that is not blank still ends a pending header.
#[derive(Clone, Copy, Debug)]
pub struct TableScanLine<'a> {
    pub text: &'a str,
    pub enabled: bool,
}

/// What a scan of a line stream found.
#[derive(Clone, Copy, Debug, PartialEq, Eq, Structural)]
pub enum TablePatternState {
    /// No confirmed table and no trailing header candidate.
    NoTable,
    /// The last non-blank line is a header candidate waiting for a delimiter.
    PendingHeader,
    /// A header row was followed immediately by a delimiter row.
    Confirmed,
}

/// An enabled header line that is not itself a delimiter line.
pub open spec fn header_candidate(text: Seq<char>, enabled: bool) -> bool {
    enabled && is_header_line(text) && !is_delimiter_line(text)
}

/// Line `i` is a header candidate and line `i + 1` is an enabled delimiter line.
pub open spec fn confirmed_at(lines: Seq<TableScanLine<'_>>, i: int) -> bool {
    &&& 0 <= i
    &&& i + 1 < lines.len()
    &&& header_candidate(lines[i].text@, lines[i].enabled)
    &&& lines[i + 1].enabled
    &&& is_delimiter_line(lines[i + 1].text@)
}

/// The index of the last line that is not blank.
pub open spec fn last_nonblank(lines: Seq<TableScanLine<'_>>) -> Option<int>
    decreases lines.len(),
{
    if lines.len() == 0 {
        None
    } else if !is_blank(lines.last().text@) {
        Some(lines.len() - 1)
    } else {
        last_nonblank(lines.drop_last())
    }
}

/// The state of table detection over a whole line stream.
///
/// `Confirmed` when some header candidate is immediately followed by an
/// enabled delimiter line; otherwise `PendingHeader` when the last non-blank
/// line is a header candidate; otherwise `NoTable`.
pub open spec fn table_pattern(lines: Seq<TableScanLine<'_>>) -> TablePatternState {
    if exists|i: int| confirmed_at(lines, i) {
        TablePatternState::Confirmed
    } else {
        match last_nonblank(lines) {
            Some(j) => if header_candidate(lines[j].text@, lines[j].enabled) {
                TablePatternState::PendingHeader
            } else {
                TablePatternState::NoTable
            },
            None => TablePatternState::NoTable,
        }
    }
}

/// Whether table detection may take `line` for a header row.
pub fn is_header_candidate(line: TableScanLine<'_>) -> (candidate: bool)
    ensures
        candidate == header_candidate(line.text@, line.enabled),
{
    line.enabled && is_table_header_line(line.text) && !is_table_delimiter_line(line.text)
}

/// Scans a line stream for markdown-table structure.
///
/// Disabled lines never contribute to a table match, but they still count
/// when the scan looks for the last non-blank line of the stream.
pub fn scan_table_pattern(lines: &[TableScanLine<'_>]) -> (state: TablePatternState)
    ensures
        state == table_pattern(lines@),
{
    let n = lines.len();
    let mut i: usize = 0;
    while i < n && i + 1 < n
        invariant
            n == lines@.len(),
            i <= n,
            forall|k: int| 0 <= k < i ==> !confirmed_at(lines@, k),
        decreases n - i,
    {
        if is_header_candidate(lines[i]) && lines[i + 1].enabled && is_table_delimiter_line(
            lines[i + 1].text,
        ) {
            proof {
                assert(confirmed_at(lines@, i as int));
            }
            return TablePatternState::Confirmed;
        }
        i = i + 1;
    }
    let mut j: usize = n;
    proof {
        assert(lines@.take(n as int) =~= lines@);
    }
    while j > 0
        invariant
            n == lines@.len(),
            j <= n,
            forall|k: int| !confirmed_at(lines@, k),
            last_nonblank(lines@) == last_nonblank(lines@.take(j as int)),
        decreases j,
    {
        proof {
            assert(lines@.take(j as int).drop_last() =~= lines@.take(j - 1));
        }
        j = j - 1;
        if !trim(lines[j].text).is_empty() {
            return if is_header_candidate(lines[j]) {
                TablePatternState::PendingHeader
            } else {
                TablePatternState::NoTable
            };
        }
    }
    TablePatternState::NoTable
}

} // verus!
