//! Streaming of markdown deltas into the transcript.
//!
//! `StreamState` is the animation queue: it paces the reveal of lines that
//! are already stable, oldest first, and carries the delta collector of the
//! stream.

pub mod controller;
pub mod holdback;
pub mod model;

use crate::line::StyledLine;
use crate::markdown_stream::MarkdownStreamCollector;
use std::collections::VecDeque;
use std::time::Duration;
use std::time::Instant;
use vstd::prelude::*;

verus! {

/// `Instant` of std: a reading of the monotonic clock. Nothing of its
/// inside is known here.
#[verifier::external_type_specification]
#[verifier::external_body]
pub struct ExInstant(std::time::Instant);

/// `Instant::now` of std: the current reading of the monotonic clock.
/// Nothing is claimed of its value.
pub assume_specification[ std::time::Instant::now ]() -> (now: std::time::Instant);

/// `Instant::saturating_duration_since` of std: the time elapsed from
/// `earlier` to `this`, or zero when `earlier` is the later one. Nothing is
/// claimed of its value.
pub assume_specification[ std::time::Instant::saturating_duration_since ](
    this: &std::time::Instant,
    earlier: std::time::Instant,
) -> (elapsed: std::time::Duration);

/// A line that waits for its reveal, with the time it was queued.
pub struct QueuedLine {
    pub line: StyledLine,
    pub enqueued_at: Instant,
}

/// The lines of a sequence of queue entries.
pub open spec fn lines_of(entries: Seq<QueuedLine>) -> Seq<StyledLine> {
    Seq::new(entries.len(), |i: int| entries[i].line)
}

/// The animation queue of one stream, with the stream's delta collector.
pub struct StreamState {
    pub collector: MarkdownStreamCollector,
    pub queued_lines: VecDeque<QueuedLine>,
    pub has_seen_delta: bool,
}

impl StreamState {
    /// The queued lines, oldest first.
    pub open spec fn queued(&self) -> Seq<StyledLine> {
        lines_of(self.queued_lines@)
    }

    /// An empty queue with an empty collector.
    pub fn new(width: Option<usize>) -> (state: Self)
        ensures
            state.queued() == Seq::<StyledLine>::empty(),
            state.collector.pending() == Seq::<char>::empty(),
            state.collector.width_of() == width,
            !state.has_seen_delta,
    {
        let state = StreamState {
            collector: MarkdownStreamCollector::new(width),
            queued_lines: VecDeque::new(),
            has_seen_delta: false,
        };
        proof {
            assert(state.queued() =~= Seq::<StyledLine>::empty());
        }
        state
    }

    /// Resets the whole state: the collector, the queue and the record of
    /// having seen a delta.
    pub fn clear(&mut self)
        ensures
            final(self).queued() == Seq::<StyledLine>::empty(),
            final(self).collector.pending() == Seq::<char>::empty(),
            final(self).collector.width_of() == old(self).collector.width_of(),
            !final(self).has_seen_delta,
    {
        self.collector.clear();
        self.queued_lines.clear();
        self.has_seen_delta = false;
        proof {
            assert(self.queued() =~= Seq::<StyledLine>::empty());
        }
    }

    /// Drops every queued line and keeps the rest of the state.
    pub fn clear_queue(&mut self)
        ensures
            final(self).queued() == Seq::<StyledLine>::empty(),
            final(self).collector == old(self).collector,
            final(self).has_seen_delta == old(self).has_seen_delta,
    {
        self.queued_lines.clear();
        proof {
            assert(self.queued() =~= Seq::<StyledLine>::empty());
        }
    }

    /// Pops one reveal unit: the oldest queued line, if there is one.
    pub fn step(&mut self) -> (lines: Vec<StyledLine>)
        ensures
            final(self).collector == old(self).collector,
            final(self).has_seen_delta == old(self).has_seen_delta,
            lines@ == old(self).queued().take(
                if old(self).queued().len() > 0 {
                    1int
                } else {
                    0int
                },
            ),
            final(self).queued() == old(self).queued().skip(lines@.len() as int),
    {
        let mut lines: Vec<StyledLine> = Vec::new();
        match self.queued_lines.pop_front() {
            Some(entry) => {
                lines.push(entry.line);
                proof {
                    assert(lines@ =~= old(self).queued().take(1));
                    assert(self.queued() =~= old(self).queued().skip(1));
                }
            },
            None => {
                proof {
                    assert(lines@ =~= old(self).queued().take(0));
                    assert(self.queued() =~= old(self).queued().skip(0));
                }
            },
        }
        lines
    }

    /// Pops the oldest queued lines, at most `max_lines` of them.
    pub fn drain_n(&mut self, max_lines: usize) -> (lines: Vec<StyledLine>)
        ensures
            final(self).collector == old(self).collector,
            final(self).has_seen_delta == old(self).has_seen_delta,
            lines@ == old(self).queued().take(
                if max_lines <= old(self).queued().len() {
                    max_lines as int
                } else {
                    old(self).queued().len() as int
                },
            ),
            final(self).queued() == old(self).queued().skip(lines@.len() as int),
    {
        let mut lines: Vec<StyledLine> = Vec::new();
        let queued = self.queued_lines.len();
        let end = if max_lines <= queued {
            max_lines
        } else {
            queued
        };
        proof {
            assert(lines@ =~= old(self).queued().take(0));
            assert(self.queued() =~= old(self).queued().skip(0));
        }
        while lines.len() < end
            invariant
                end <= old(self).queued().len(),
                lines@.len() <= end,
                self.collector == old(self).collector,
                self.has_seen_delta == old(self).has_seen_delta,
                lines@ == old(self).queued().take(lines@.len() as int),
                self.queued() == old(self).queued().skip(lines@.len() as int),
            decreases end - lines@.len(),
        {
            let ghost before = self.queued();
            let ghost taken = lines@;
            match self.queued_lines.pop_front() {
                Some(entry) => {
                    lines.push(entry.line);
                    proof {
                        assert(entry.line == before[0]);
                        assert(lines@ =~= old(self).queued().take((taken.len() + 1) as int));
                        assert(self.queued() =~= before.skip(1));
                        assert(before.skip(1) =~= old(self).queued().skip(
                            (taken.len() + 1) as int,
                        ));
                    }
                },
                None => {
                    proof {
                        assert(before.len() == 0);
                        assert(false);
                    }
                },
            }
        }
        lines
    }

    /// Appends lines to the queue, all stamped with the present time.
    pub fn enqueue(&mut self, lines: Vec<StyledLine>)
        ensures
            final(self).queued() == old(self).queued() + lines@,
            final(self).collector == old(self).collector,
            final(self).has_seen_delta == old(self).has_seen_delta,
    {
        let now = Instant::now();
        let ghost all = lines@;
        proof {
            assert(self.queued() + all.take(0) =~= old(self).queued());
        }
        for line in it: lines
            invariant
                it.seq() == all,
                self.queued() == old(self).queued() + all.take(it.index() as int),
                self.collector == old(self).collector,
                self.has_seen_delta == old(self).has_seen_delta,
        {
            let ghost queued_before = self.queued();
            self.queued_lines.push_back(QueuedLine { line, enqueued_at: now });
            proof {
                assert(self.queued() =~= queued_before.push(line));
                assert(all.take(it.index() + 1) =~= all.take(it.index() as int).push(line));
            }
        }
        proof {
            assert(all.take(all.len() as int) =~= all);
        }
    }

    /// How many lines wait in the queue.
    pub fn queued_len(&self) -> (len: usize)
        ensures
            len == self.queued().len(),
    {
        self.queued_lines.len()
    }

    /// Whether the queue is empty.
    pub fn is_idle(&self) -> (idle: bool)
        ensures
            idle == (self.queued().len() == 0),
    {
        self.queued_lines.len() == 0
    }

    /// How long the oldest queued line has waited at the time `now`; `None`
    /// when the queue is empty.
    pub fn oldest_queued_age(&self, now: Instant) -> (age: Option<Duration>)
        ensures
            age is Some <==> self.queued().len() > 0,
    {
        if self.queued_lines.len() > 0 {
            Some(now.saturating_duration_since(self.queued_lines[0].enqueued_at))
        } else {
            None
        }
    }
}

} // verus!
