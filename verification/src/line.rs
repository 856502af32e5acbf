//! The styled line that rendering produces and the transcript shows.
//!
//! A line is opaque here: the stream logic counts, copies and orders lines
//! and never looks inside one.

use vstd::prelude::*;

verus! {

/// A rendered, styled line of terminal text.
pub type StyledLine = ratatui::text::Line<'static>;

/// `Line` of ratatui: a line of styled spans. Nothing of its inside is
/// known here.
#[verifier::external_type_specification]
#[verifier::external_body]
pub struct ExLine<'a>(ratatui::text::Line<'a>);

/// `Line::clone` of ratatui: the copy of a line equals the line. The type
/// derives `Clone`, so each of its fields is cloned in turn.
pub assume_specification<'a>[ <ratatui::text::Line<'a> as Clone>::clone ](
    line: &ratatui::text::Line<'a>,
) -> (copy: ratatui::text::Line<'a>)
    ensures
        copy == *line,
;

/// Copies the lines `from..to` of `lines`.
pub fn copy_lines(lines: &Vec<StyledLine>, from: usize, to: usize) -> (copy: Vec<StyledLine>)
    requires
        from <= to <= lines@.len(),
    ensures
        copy@ == lines@.subrange(from as int, to as int),
{
    let mut copy: Vec<StyledLine> = Vec::new();
    let mut i: usize = from;
    while i < to
        invariant
            from <= i <= to <= lines@.len(),
            copy@ == lines@.subrange(from as int, i as int),
        decreases to - i,
    {
        copy.push(lines[i].clone());
        proof {
            assert(lines@.subrange(from as int, i + 1) =~= lines@.subrange(
                from as int,
                i as int,
            ).push(lines@[i as int]));
        }
        i = i + 1;
    }
    copy
}

} // verus!
