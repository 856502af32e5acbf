//! The delta collector: it buffers the text of a stream as it arrives and
//! hands it out in newline-complete pieces.

use crate::text::{
    contains_char, len_without_trailing, lemma_trailing_count, trailing_count, CharClass,
};
use vstd::prelude::*;
use vstd::string::*;

verus! {

/// How many characters of `text` lie up to and with its last newline; zero
/// when `text` holds no newline.
pub open spec fn complete_len(text: Seq<char>) -> nat {
    (text.len() - trailing_count(text, CharClass::Except('\n'))) as nat
}

/// A text holds a newline exactly when its newline-complete part is not empty.
pub proof fn lemma_complete_len(text: Seq<char>)
    ensures
        complete_len(text) <= text.len(),
        contains_char(text, '\n') <==> complete_len(text) > 0,
        complete_len(text) > 0 ==> text[complete_len(text) - 1] == '\n',
        forall|i: int| complete_len(text) <= i < text.len() ==> text[i] != '\n',
{
    lemma_trailing_count(text, CharClass::Except('\n'));
    let k = complete_len(text);
    if k > 0 {
        assert(text[k - 1] == '\n');
    }
    assert forall|i: int| k <= i < text.len() implies text[i] != '\n' by {
        assert(CharClass::Except('\n').contains(text[i]));
    }
}

/// Buffers incoming text and exposes newline-complete commit boundaries.
pub struct MarkdownStreamCollector {
    buffer: String,
    width: Option<usize>,
}

impl MarkdownStreamCollector {
    /// The text that was pushed and not handed out yet.
    pub closed spec fn pending(&self) -> Seq<char> {
        self.buffer@
    }

    /// The width the collector was last told.
    pub closed spec fn width_of(&self) -> Option<usize> {
        self.width
    }

    /// An empty collector.
    pub fn new(width: Option<usize>) -> (collector: Self)
        ensures
            collector.pending() == Seq::<char>::empty(),
            collector.width_of() == width,
    {
        MarkdownStreamCollector { buffer: String::new(), width }
    }

    /// Forgets the buffered text.
    pub fn clear(&mut self)
        ensures
            final(self).pending() == Seq::<char>::empty(),
            final(self).width_of() == old(self).width_of(),
    {
        self.buffer = String::new();
    }

    /// Records the width that rendering now uses.
    pub fn set_width(&mut self, width: Option<usize>)
        ensures
            final(self).pending() == old(self).pending(),
            final(self).width_of() == width,
    {
        self.width = width;
    }

    /// Appends a fragment of text.
    pub fn push_delta(&mut self, delta: &str)
        ensures
            final(self).pending() == old(self).pending() + delta@,
            final(self).width_of() == old(self).width_of(),
    {
        self.buffer.append(delta);
    }

    /// Hands out the buffered text up to and with its last newline, and
    /// keeps the rest. Returns `None`, and keeps everything, when the
    /// buffered text holds no newline.
    pub fn commit_complete_source(&mut self) -> (committed: Option<String>)
        ensures
            final(self).width_of() == old(self).width_of(),
            match committed {
                Some(source) => complete_len(old(self).pending()) > 0 && source@ == old(
                    self,
                ).pending().take(complete_len(old(self).pending()) as int)
                    && final(self).pending() == old(self).pending().skip(
                    complete_len(old(self).pending()) as int,
                ),
                None => complete_len(old(self).pending()) == 0 && final(self).pending() == old(
                    self,
                ).pending(),
            },
    {
        let text = self.buffer.as_str();
        let end = len_without_trailing(text, CharClass::Except('\n'));
        if end == 0 {
            return None;
        }
        proof {
            lemma_trailing_count(text@, CharClass::Except('\n'));
        }
        let total = text.unicode_len();
        let source = String::from_str(text.substring_char(0, end));
        let rest = String::from_str(text.substring_char(end, total));
        self.buffer = rest;
        Some(source)
    }

    /// Hands out all the buffered text, whether or not it ends with a
    /// newline, and keeps nothing.
    pub fn finalize_and_drain_source(&mut self) -> (source: String)
        ensures
            source@ == old(self).pending(),
            final(self).pending() == Seq::<char>::empty(),
            final(self).width_of() == old(self).width_of(),
    {
        let source = self.buffer.clone();
        self.buffer = String::new();
        source
    }
}

} // verus!
