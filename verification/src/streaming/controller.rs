//! Stream controllers: they turn a stream of markdown deltas into cells of
//! the transcript, and keep a mutable tail back while a table may still
//! change.
//!
//! The rendered output lives in two regions. Lines `[0, enqueued)` are
//! stable: they were queued for the commit animation, and the first
//! `emitted` of them have reached the transcript. Lines `[enqueued, ..)`
//! are the tail, which every update derives anew from the source. While
//! the source holds a pending or confirmed table, all rendered lines
//! behind the emitted boundary are tail.
//!
//! `StreamCore` is that buffer. `StreamController` and
//! `PlanStreamController` wrap what leaves it into their kind of cell.

use crate::line::{copy_lines, StyledLine};
use crate::markdown::{append_markdown_agent, renders_agent, renders_everything};
use crate::markdown_stream::lemma_complete_len;
use crate::streaming::holdback::{holdback_state, table_holdback_state, TableHoldbackState};
use crate::streaming::model::{batch_limit, lemma_contains_after, StreamModel};
use crate::streaming::StreamState;
use crate::text::{
    byte_len, has_char, lemma_newline_ends, newline_end_offsets, newline_ends, take_bytes,
    utf8_len,
};
use std::time::Duration;
use std::time::Instant;
use vstd::prelude::*;
use vstd::string::*;

verus! {

/// `render` may return `count` lines for the agent source `source` at `width`.
pub open spec fn renders_count<R: Fn(&str, Option<usize>) -> Vec<StyledLine>>(
    render: R,
    source: Seq<char>,
    width: Option<usize>,
    count: nat,
) -> bool {
    exists|lines: Seq<StyledLine>|
        renders_agent(render, source, width, lines) && #[trigger] lines.len() == count
}

/// `counts` are line counts that the renderer returned for the first
/// newline-terminated prefixes of `source`, all below `target` but perhaps
/// the last, and `offset` is the end of the longest of these prefixes that
/// renders to at most `target` lines, or zero if there is none. The scan
/// of prefixes went to the last prefix or stopped at the first count that
/// reached `target`.
pub open spec fn remap_scan<R: Fn(&str, Option<usize>) -> Vec<StyledLine>>(
    render: R,
    source: Seq<char>,
    width: Option<usize>,
    target: nat,
    counts: Seq<nat>,
    offset: int,
) -> bool {
    let ends = newline_ends(source);
    let last = counts.len() - 1;
    &&& 1 <= counts.len() <= ends.len()
    &&& forall|k: int|
        0 <= k < counts.len() ==> renders_count(
            render,
            source.take(ends[k]),
            width,
            #[trigger] counts[k],
        )
    &&& forall|k: int| 0 <= k < last ==> (#[trigger] counts[k]) < target
    &&& (counts.len() == ends.len() || counts[last] >= target)
    &&& offset == if counts[last] <= target {
        ends[last]
    } else if last > 0 {
        ends[last - 1]
    } else {
        0
    }
}

/// `offset` is where the source may be cut so that what lies before the
/// cut renders, at `width`, to at most `target` lines: zero for a target
/// of zero or a source without newline, and the result of a scan of the
/// newline-terminated prefixes otherwise.
pub open spec fn is_remap_offset<R: Fn(&str, Option<usize>) -> Vec<StyledLine>>(
    render: R,
    source: Seq<char>,
    width: Option<usize>,
    target: nat,
    offset: int,
) -> bool {
    &&& 0 <= offset <= source.len()
    &&& if target == 0 || newline_ends(source).len() == 0 {
        offset == 0
    } else {
        exists|counts: Seq<nat>| remap_scan(render, source, width, target, counts, offset)
    }
}

/// Finds the longest newline-terminated prefix of `raw_source` whose
/// render at `width` has at most `target_count` lines, and returns its
/// length in bytes.
///
/// The prefixes are rendered in the order of their length, and the scan
/// stops at the first that reaches `target_count` lines. When the target
/// falls inside a wrapped source line, the result is the end of the line
/// before it: after a resize a few wrapped rows may be queued again, and
/// no content is dropped.
pub fn source_bytes_for_rendered_count<R: Fn(&str, Option<usize>) -> Vec<StyledLine>>(
    raw_source: &str,
    width: Option<usize>,
    target_count: usize,
    render: &R,
) -> (bytes: usize)
    requires
        renders_everything(*render),
    ensures
        exists|offset: int|
            #[trigger] is_remap_offset(*render, raw_source@, width, target_count as nat, offset)
                && bytes == utf8_len(raw_source@.take(offset)),
{
    let ghost source = raw_source@;
    if target_count == 0 {
        proof {
            assert(source.take(0) =~= Seq::<char>::empty());
            assert(is_remap_offset(*render, source, width, 0, 0));
        }
        return 0;
    }
    let ends = newline_end_offsets(raw_source);
    proof {
        lemma_newline_ends(source);
    }
    let mut best_offset: usize = 0;
    let ghost mut best_chars: int = 0;
    let ghost mut counts: Seq<nat> = Seq::empty();
    let mut k: usize = 0;
    proof {
        assert(source.take(0) =~= Seq::<char>::empty());
    }
    while k < ends.len()
        invariant
            source == raw_source@,
            renders_everything(*render),
            target_count > 0,
            k <= ends@.len(),
            ends@.len() == newline_ends(source).len(),
            forall|j: int|
                0 <= j < ends@.len() ==> (#[trigger] ends@[j]) as int == newline_ends(source)[j],
            forall|j: int|
                0 <= j < newline_ends(source).len() ==> 0 < #[trigger] newline_ends(source)[j]
                    <= source.len(),
            counts.len() == k,
            forall|j: int|
                0 <= j < k ==> renders_count(
                    *render,
                    source.take(newline_ends(source)[j]),
                    width,
                    #[trigger] counts[j],
                ),
            forall|j: int| 0 <= j < k ==> (#[trigger] counts[j]) < target_count,
            best_chars == if k > 0 {
                newline_ends(source)[k - 1]
            } else {
                0
            },
            0 <= best_chars <= source.len(),
            best_offset == utf8_len(source.take(best_chars)),
        decreases ends@.len() - k,
    {
        let end = ends[k];
        let prefix = raw_source.substring_char(0, end);
        let mut lines: Vec<StyledLine> = Vec::new();
        append_markdown_agent(prefix, width, &mut lines, render);
        let count = lines.len();
        proof {
            assert(lines@.skip(0) =~= lines@);
            assert(prefix@ =~= source.take(end as int));
            assert(renders_count(*render, source.take(end as int), width, count as nat));
        }
        let ghost seen = counts.push(count as nat);
        if count <= target_count {
            best_offset = byte_len(prefix);
            proof {
                best_chars = end as int;
            }
        }
        if count >= target_count {
            proof {
                assert(remap_scan(
                    *render,
                    source,
                    width,
                    target_count as nat,
                    seen,
                    best_chars,
                ));
                assert(is_remap_offset(
                    *render,
                    source,
                    width,
                    target_count as nat,
                    best_chars,
                ));
            }
            return best_offset;
        }
        proof {
            counts = seen;
        }
        k = k + 1;
    }
    proof {
        if ends@.len() > 0 {
            assert(remap_scan(*render, source, width, target_count as nat, counts, best_chars));
        }
        assert(is_remap_offset(*render, source, width, target_count as nat, best_chars));
    }
    best_offset
}

/// The stable/tail buffer of one stream, with its animation queue, its
/// delta collector and its renderer.
pub struct StreamCore<R> {
    state: StreamState,
    /// Current rendering width: the columns available for markdown content.
    width: Option<usize>,
    /// The raw markdown source of the stream: the newline-terminated
    /// chunks that the collector committed.
    raw_source: String,
    /// The full render of `raw_source` at `width`.
    rendered_lines: Vec<StyledLine>,
    /// How many of the rendered lines were handed to the queue.
    enqueued_stable_len: usize,
    /// How many of the rendered lines were emitted; never more than were
    /// handed to the queue.
    emitted_stable_len: usize,
    render: R,
}

impl<R: Fn(&str, Option<usize>) -> Vec<StyledLine>> View for StreamCore<R> {
    type V = StreamModel;

    closed spec fn view(&self) -> StreamModel {
        StreamModel {
            pending: self.state.collector.pending(),
            has_seen_delta: self.state.has_seen_delta,
            queue: self.state.queued(),
            width: self.width,
            raw_source: self.raw_source@,
            rendered: self.rendered_lines@,
            enqueued: self.enqueued_stable_len as nat,
            emitted: self.emitted_stable_len as nat,
        }
    }
}

/// The emitted boundary at the new width: the number of lines that
/// `render` returned for the part of the source that a remap scan at the
/// old width chose.
pub open spec fn remapped_by<R: Fn(&str, Option<usize>) -> Vec<StyledLine>>(
    render: R,
    source: Seq<char>,
    old_width: Option<usize>,
    emitted: nat,
    new_width: Option<usize>,
    remapped: nat,
) -> bool {
    exists|offset: int|
        #[trigger] is_remap_offset(render, source, old_width, emitted, offset) && renders_count(
            render,
            source.take(offset),
            new_width,
            remapped,
        )
}

impl<R: Fn(&str, Option<usize>) -> Vec<StyledLine>> StreamCore<R> {
    /// The renderer of the stream.
    pub closed spec fn renderer(&self) -> R {
        self.render
    }

    /// The width that the collector was told.
    pub closed spec fn collector_width(&self) -> Option<usize> {
        self.state.collector.width_of()
    }

    /// The invariant of the buffer: the invariant of its state; the
    /// renderer accepts every source; the collector knows the width; and
    /// the rendered lines are a render of the source at the width.
    pub open spec fn wf(&self) -> bool {
        &&& self@.wf()
        &&& renders_everything(self.renderer())
        &&& self.collector_width() == self@.width
        &&& (self@.raw_source.len() > 0 ==> renders_agent(
            self.renderer(),
            self@.raw_source,
            self@.width,
            self@.rendered,
        ))
    }

    /// A buffer that has seen nothing.
    pub fn new(width: Option<usize>, render: R) -> (core: Self)
        requires
            renders_everything(render),
        ensures
            core.wf(),
            core@ == StreamModel::fresh(width),
            core.renderer() == render,
    {
        StreamCore {
            state: StreamState::new(width),
            width,
            raw_source: String::new(),
            rendered_lines: Vec::new(),
            enqueued_stable_len: 0,
            emitted_stable_len: 0,
            render,
        }
    }

    /// Pushes a delta. If it holds a newline, the completed lines are
    /// committed to the source, the source is rendered anew and the stable
    /// region moves. Returns whether new lines wait in the queue.
    pub fn push(&mut self, delta: &str) -> (enqueued: bool)
        requires
            old(self).wf(),
        ensures
            final(self).wf(),
            final(self).renderer() == old(self).renderer(),
            final(self)@ == old(self)@.pushed(delta@, final(self)@.rendered),
            enqueued == old(self)@.push_enqueues(delta@, final(self)@.rendered),
    {
        if !delta.is_empty() {
            self.state.has_seen_delta = true;
        }
        self.state.collector.push_delta(delta);
        let mut enqueued = false;
        if has_char(delta, '\n') {
            proof {
                lemma_contains_after(old(self)@.pending, delta@);
                lemma_complete_len(old(self)@.pending + delta@);
            }
            match self.state.collector.commit_complete_source() {
                Some(committed_source) => {
                    self.raw_source.append(committed_source.as_str());
                    self.recompute_streaming_render();
                    enqueued = self.sync_stable_queue();
                },
                None => {},
            }
        }
        enqueued
    }

    /// Takes the next line from the queue, if there is one, and moves the
    /// emitted boundary behind it. Returns the line and whether the queue
    /// is now empty.
    pub fn commit_step(&mut self) -> (out: (Vec<StyledLine>, bool))
        requires
            old(self).wf(),
        ensures
            final(self).wf(),
            final(self).renderer() == old(self).renderer(),
            final(self)@ == old(self)@.ticked(1),
            out.0@ == old(self)@.tick_lines(1),
            out.1 == (final(self)@.queue.len() == 0),
    {
        let step = self.state.step();
        self.emitted_stable_len = self.emitted_stable_len + step.len();
        let idle = self.state.is_idle();
        (step, idle)
    }

    /// Takes up to `max_lines` lines from the queue, and at least one if
    /// there is one, and moves the emitted boundary behind them. Returns
    /// the lines and whether the queue is now empty.
    pub fn commit_batch(&mut self, max_lines: usize) -> (out: (Vec<StyledLine>, bool))
        requires
            old(self).wf(),
        ensures
            final(self).wf(),
            final(self).renderer() == old(self).renderer(),
            final(self)@ == old(self)@.ticked(batch_limit(max_lines as nat)),
            out.0@ == old(self)@.tick_lines(batch_limit(max_lines as nat)),
            out.1 == (final(self)@.queue.len() == 0),
    {
        let limit = if max_lines < 1 {
            1
        } else {
            max_lines
        };
        let step = self.state.drain_n(limit);
        self.emitted_stable_len = self.emitted_stable_len + step.len();
        let idle = self.state.is_idle();
        (step, idle)
    }

    /// Returns the number of queued lines that wait to be shown.
    pub fn queued_lines(&self) -> (queued: usize)
        ensures
            queued == self@.queue.len(),
    {
        self.state.queued_len()
    }

    /// Returns the age of the oldest queued line at the time `now`.
    pub fn oldest_queued_age(&self, now: Instant) -> (age: Option<Duration>)
        ensures
            age is Some <==> self@.queue.len() > 0,
    {
        self.state.oldest_queued_age(now)
    }

    /// Returns the mutable tail: the rendered lines behind the enqueued
    /// boundary.
    pub fn current_tail_lines(&self) -> (tail: Vec<StyledLine>)
        ensures
            tail@ == self@.tail_lines(),
    {
        let len = self.rendered_lines.len();
        let start = if self.enqueued_stable_len <= len {
            self.enqueued_stable_len
        } else {
            len
        };
        let tail = copy_lines(&self.rendered_lines, start, len);
        proof {
            assert(tail@ =~= self@.tail_lines());
        }
        tail
    }

    /// Whether nothing was handed to the queue yet.
    pub fn nothing_enqueued(&self) -> (none: bool)
        ensures
            none == (self@.enqueued == 0),
    {
        self.enqueued_stable_len == 0
    }

    /// Whether there is a mutable tail to show.
    pub fn has_live_tail(&self) -> (live: bool)
        ensures
            live == (self@.tail_lines().len() > 0),
    {
        self.enqueued_stable_len < self.rendered_lines.len()
    }

    /// Updates the rendering width and rebuilds the queue for the new
    /// layout.
    ///
    /// The same width changes nothing. Otherwise, when lines were
    /// emitted, the emitted boundary is remapped: the part of the source
    /// that rendered to the emitted lines at the old width is rendered at
    /// the new width, and the number of its lines is the new boundary.
    /// Then the source is rendered at the new width and the queue is
    /// rebuilt from the emitted boundary on.
    pub fn set_width(&mut self, width: Option<usize>)
        requires
            old(self).wf(),
        ensures
            final(self).wf(),
            final(self).renderer() == old(self).renderer(),
            final(self)@ == old(self)@.resized(width, final(self)@.emitted, final(self)@.rendered),
            old(self)@.resize_rerenders(width) && old(self)@.emitted > 0 ==> remapped_by(
                old(self).renderer(),
                old(self)@.raw_source,
                old(self)@.width,
                old(self)@.emitted,
                width,
                final(self)@.emitted,
            ),
    {
        if same_width(self.width, width) {
            return;
        }
        let old_width = self.width;
        self.width = width;
        self.state.collector.set_width(width);
        if self.raw_source.as_str().is_empty() {
            return;
        }
        // Recalculate the emitted boundary for the new width, so that
        // lines emitted at the old width are not queued again.
        if self.emitted_stable_len > 0 {
            let emitted_bytes = source_bytes_for_rendered_count(
                self.raw_source.as_str(),
                old_width,
                self.emitted_stable_len,
                &self.render,
            );
            let ghost offset = choose|offset: int|
                #[trigger] is_remap_offset(
                    self.render,
                    self.raw_source@,
                    old_width,
                    self.emitted_stable_len as nat,
                    offset,
                ) && emitted_bytes == utf8_len(self.raw_source@.take(offset));
            let emitted_source = take_bytes(self.raw_source.as_str(), emitted_bytes, Ghost(offset));
            let mut emitted_at_new: Vec<StyledLine> = Vec::new();
            append_markdown_agent(emitted_source, self.width, &mut emitted_at_new, &self.render);
            proof {
                assert(emitted_at_new@.skip(0) =~= emitted_at_new@);
                assert(renders_count(
                    self.render,
                    self.raw_source@.take(offset),
                    width,
                    emitted_at_new@.len(),
                ));
            }
            self.emitted_stable_len = emitted_at_new.len();
        }
        self.recompute_streaming_render();
        self.rebuild_stable_queue_from_render();
    }

    /// Finishes the stream: what the collector still holds joins the
    /// source, the source is rendered, and the stream is reset. Returns the
    /// rendered lines behind the emitted boundary, and the source.
    ///
    /// An empty source is rendered only if `render_empty` asks for it.
    pub fn finish(&mut self, render_empty: bool) -> (out: (Vec<StyledLine>, String))
        requires
            old(self).wf(),
        ensures
            final(self).wf(),
            final(self).renderer() == old(self).renderer(),
            final(self)@ == old(self)@.reset(),
            out.1@ == old(self)@.final_source(),
            finishes_with(old(self).renderer(), old(self)@, render_empty, out.0@),
    {
        let remainder_source = self.state.collector.finalize_and_drain_source();
        if !remainder_source.as_str().is_empty() {
            self.raw_source.append(remainder_source.as_str());
        }
        proof {
            assert(self.raw_source@ =~= old(self)@.final_source());
        }
        let source = self.raw_source.clone();
        if self.raw_source.as_str().is_empty() && !render_empty {
            self.reset_stream_state();
            return (Vec::new(), source);
        }
        let mut rendered: Vec<StyledLine> = Vec::new();
        append_markdown_agent(self.raw_source.as_str(), self.width, &mut rendered, &self.render);
        proof {
            assert(rendered@.skip(0) =~= rendered@);
        }
        let out_lines = if self.emitted_stable_len >= rendered.len() {
            Vec::new()
        } else {
            copy_lines(&rendered, self.emitted_stable_len, rendered.len())
        };
        proof {
            assert(out_lines@ =~= old(self)@.final_lines(rendered@));
        }
        self.reset_stream_state();
        (out_lines, source)
    }

    /// Renders the whole source at the current width and replaces the
    /// rendered lines.
    fn recompute_streaming_render(&mut self)
        requires
            renders_everything(old(self).renderer()),
        ensures
            final(self).renderer() == old(self).renderer(),
            final(self).collector_width() == old(self).collector_width(),
            final(self)@ == (StreamModel { rendered: final(self)@.rendered, ..old(self)@ }),
            renders_agent(
                final(self).renderer(),
                final(self)@.raw_source,
                final(self)@.width,
                final(self)@.rendered,
            ),
    {
        let mut rendered: Vec<StyledLine> = Vec::new();
        append_markdown_agent(self.raw_source.as_str(), self.width, &mut rendered, &self.render);
        proof {
            assert(rendered@.skip(0) =~= rendered@);
        }
        self.rendered_lines = rendered;
    }

    /// Moves the enqueued boundary to the stable target and queues the
    /// lines that became stable. Returns whether new lines wait in the
    /// queue.
    ///
    /// The target is the number of rendered lines less the tail budget,
    /// and never less than the emitted boundary: what was emitted is never
    /// taken back. When a rewrite moves the target before the enqueued
    /// boundary, the queue is rebuilt.
    fn sync_stable_queue(&mut self) -> (enqueued: bool)
        requires
            old(self)@.counts_ok(),
        ensures
            final(self).renderer() == old(self).renderer(),
            final(self).collector_width() == old(self).collector_width(),
            final(self)@ == old(self)@.synced(),
            enqueued == old(self)@.sync_enqueues(),
    {
        let tail_budget = self.active_tail_budget_lines();
        let free = self.rendered_lines.len() - tail_budget;
        let target_stable_len = if free >= self.emitted_stable_len {
            free
        } else {
            self.emitted_stable_len
        };
        if target_stable_len < self.enqueued_stable_len {
            // A rewrite moved the stable boundary back into lines that were
            // queued and not emitted. Rebuild the queue from the render.
            self.state.clear_queue();
            if self.emitted_stable_len < target_stable_len {
                self.state.enqueue(
                    copy_lines(&self.rendered_lines, self.emitted_stable_len, target_stable_len),
                );
            }
            self.enqueued_stable_len = target_stable_len;
            proof {
                assert(self@.queue =~= old(self)@.rebuilt().queue);
            }
            return self.state.queued_len() > 0;
        }
        if target_stable_len == self.enqueued_stable_len {
            return false;
        }
        self.state.enqueue(
            copy_lines(&self.rendered_lines, self.enqueued_stable_len, target_stable_len),
        );
        self.enqueued_stable_len = target_stable_len;
        true
    }

    /// Rebuilds the queue from the rendered lines and drops what was
    /// queued before. Used after a resize, when the queued lines have the
    /// layout of another width.
    fn rebuild_stable_queue_from_render(&mut self)
        ensures
            final(self).renderer() == old(self).renderer(),
            final(self).collector_width() == old(self).collector_width(),
            final(self)@ == old(self)@.rebuilt(),
    {
        let tail_budget = self.active_tail_budget_lines();
        let free = self.rendered_lines.len() - tail_budget;
        let target_stable_len = if free >= self.emitted_stable_len {
            free
        } else {
            self.emitted_stable_len
        };
        self.state.clear_queue();
        if self.emitted_stable_len < target_stable_len {
            self.state.enqueue(
                copy_lines(&self.rendered_lines, self.emitted_stable_len, target_stable_len),
            );
        }
        self.enqueued_stable_len = target_stable_len;
        proof {
            assert(self@.queue =~= old(self)@.rebuilt().queue);
        }
    }

    /// How many rendered lines to withhold from the queue as mutable tail:
    /// all of them while the source holds a table, none otherwise.
    fn active_tail_budget_lines(&self) -> (budget: usize)
        ensures
            budget == self@.tail_budget(),
            budget <= self@.rendered.len(),
    {
        match table_holdback_state(self.raw_source.as_str()) {
            TableHoldbackState::Confirmed => self.rendered_lines.len(),
            TableHoldbackState::PendingHeader => self.rendered_lines.len(),
            TableHoldbackState::NoTable => 0,
        }
    }

    /// Forgets the stream: the queue, the collector, the source and the
    /// rendered lines.
    fn reset_stream_state(&mut self)
        ensures
            final(self).renderer() == old(self).renderer(),
            final(self).collector_width() == old(self).collector_width(),
            final(self)@ == old(self)@.reset(),
    {
        self.state.clear();
        self.raw_source = String::new();
        self.rendered_lines.clear();
        self.enqueued_stable_len = 0;
        self.emitted_stable_len = 0;
    }
}

/// What finishing a stream emits: nothing for an empty source that is
/// not to be rendered; otherwise the lines behind the emitted boundary of
/// what `render` returned for the whole source.
pub open spec fn finishes_with<R: Fn(&str, Option<usize>) -> Vec<StyledLine>>(
    render: R,
    before: StreamModel,
    render_empty: bool,
    lines: Seq<StyledLine>,
) -> bool {
    if before.final_source().len() == 0 && !render_empty {
        lines.len() == 0
    } else {
        exists|rendered: Seq<StyledLine>|
            renders_agent(render, before.final_source(), before.width, rendered) && lines
                == #[trigger] before.final_lines(rendered)
    }
}

/// Tests whether two widths are the same.
fn same_width(a: Option<usize>, b: Option<usize>) -> (same: bool)
    ensures
        same == (a == b),
{
    match (a, b) {
        (Some(x), Some(y)) => x == y,
        (None, None) => true,
        _ => false,
    }
}

/// A batch of lines of an agent message, on its way to the transcript.
pub struct AgentMessageCell {
    pub lines: Vec<StyledLine>,
    /// Whether the cell starts the message, and so shows its leading marker.
    pub is_first_line: bool,
}

/// The cell that wraps `lines` when the header was or was not emitted
/// before: no cell for no lines, else one that starts the message exactly
/// when no header was emitted yet.
pub open spec fn is_message_cell(
    cell: Option<AgentMessageCell>,
    header_emitted: bool,
    lines: Seq<StyledLine>,
) -> bool {
    match cell {
        Some(found) => lines.len() > 0 && found.lines@ == lines && found.is_first_line
            == !header_emitted,
        None => lines.len() == 0,
    }
}

/// Controller for streaming agent message content with table-aware
/// holdback.
pub struct StreamController<R> {
    core: StreamCore<R>,
    header_emitted: bool,
}

impl<R: Fn(&str, Option<usize>) -> Vec<StyledLine>> View for StreamController<R> {
    type V = StreamModel;

    closed spec fn view(&self) -> StreamModel {
        self.core@
    }
}

impl<R: Fn(&str, Option<usize>) -> Vec<StyledLine>> StreamController<R> {
    /// Whether a cell of the message was emitted, and with it the marker
    /// that leads the message.
    pub closed spec fn header_emitted(&self) -> bool {
        self.header_emitted
    }

    /// The renderer of the stream.
    pub closed spec fn renderer(&self) -> R {
        self.core.renderer()
    }

    /// The invariant of the controller: that of its buffer.
    pub closed spec fn wf(&self) -> bool {
        self.core.wf()
    }

    /// The boundaries of a controller are ordered; nothing is queued while
    /// a table holds the source back; and the rendered lines are a render
    /// of the source.
    pub proof fn lemma_invariant(&self)
        requires
            self.wf(),
        ensures
            self@.wf(),
            renders_everything(self.renderer()),
            self@.raw_source.len() > 0 ==> renders_agent(
                self.renderer(),
                self@.raw_source,
                self@.width,
                self@.rendered,
            ),
    {
    }

    /// A controller for a stream that is rendered at `width` by `render`.
    pub fn new(width: Option<usize>, render: R) -> (controller: Self)
        requires
            renders_everything(render),
        ensures
            controller.wf(),
            controller@ == StreamModel::fresh(width),
            !controller.header_emitted(),
            controller.renderer() == render,
    {
        StreamController { core: StreamCore::new(width, render), header_emitted: false }
    }

    /// Pushes a delta; if it holds a newline, the completed lines are
    /// committed and the animation starts. Returns whether new lines wait
    /// in the queue.
    pub fn push(&mut self, delta: &str) -> (enqueued: bool)
        requires
            old(self).wf(),
        ensures
            final(self).wf(),
            final(self).renderer() == old(self).renderer(),
            final(self).header_emitted() == old(self).header_emitted(),
            final(self)@ == old(self)@.pushed(delta@, final(self)@.rendered),
            enqueued == old(self)@.push_enqueues(delta@, final(self)@.rendered),
            final(self)@.emitted == old(self)@.emitted,
    {
        proof {
            if StreamModel::commits(delta@) {
                lemma_contains_after(old(self)@.pending, delta@);
                lemma_complete_len(old(self)@.pending + delta@);
            }
        }
        self.core.push(delta)
    }

    /// Finalizes the stream. Returns the final cell, if lines were left,
    /// and the raw markdown source, if there was any. Finishing is
    /// immediate: the lines do not pass through the queue.
    pub fn finalize(&mut self) -> (out: (Option<AgentMessageCell>, Option<String>))
        requires
            old(self).wf(),
        ensures
            final(self).wf(),
            final(self).renderer() == old(self).renderer(),
            final(self)@ == old(self)@.reset(),
            !final(self).header_emitted(),
            match out.1 {
                Some(source) => source@ == old(self)@.final_source() && source@.len() > 0,
                None => old(self)@.final_source().len() == 0,
            },
            exists|lines: Seq<StyledLine>|
                #[trigger] finishes_with(old(self).renderer(), old(self)@, false, lines)
                    && is_message_cell(out.0, old(self).header_emitted(), lines),
    {
        let (out_lines, source) = self.core.finish(false);
        let ghost lines = out_lines@;
        if source.as_str().is_empty() {
            self.header_emitted = false;
            proof {
                assert(finishes_with(old(self).renderer(), old(self)@, false, lines));
                assert(is_message_cell(None, old(self).header_emitted(), lines));
            }
            return (None, None);
        }
        let out = self.emit(out_lines);
        self.header_emitted = false;
        proof {
            assert(finishes_with(old(self).renderer(), old(self)@, false, lines));
            assert(is_message_cell(out, old(self).header_emitted(), lines));
        }
        (out, Some(source))
    }

    /// Steps the animation: commits at most one queued line. Returns the
    /// cell of that line, if there was one, and whether the queue is empty.
    pub fn on_commit_tick(&mut self) -> (out: (Option<AgentMessageCell>, bool))
        requires
            old(self).wf(),
        ensures
            final(self).wf(),
            final(self).renderer() == old(self).renderer(),
            final(self)@ == old(self)@.ticked(1),
            is_message_cell(out.0, old(self).header_emitted(), old(self)@.tick_lines(1)),
            final(self).header_emitted() == (old(self).header_emitted() || out.0 is Some),
            out.1 == (final(self)@.queue.len() == 0),
            final(self)@.emitted >= old(self)@.emitted,
    {
        let (step, idle) = self.core.commit_step();
        (self.emit(step), idle)
    }

    /// Steps the animation: commits at most `max_lines` queued lines, and
    /// at least one if one is queued.
    ///
    /// This is for catching up when the consumer fell behind. A very large
    /// `max_lines` turns the animation into a single jump.
    pub fn on_commit_tick_batch(&mut self, max_lines: usize) -> (out: (
        Option<AgentMessageCell>,
        bool,
    ))
        requires
            old(self).wf(),
        ensures
            final(self).wf(),
            final(self).renderer() == old(self).renderer(),
            final(self)@ == old(self)@.ticked(batch_limit(max_lines as nat)),
            is_message_cell(
                out.0,
                old(self).header_emitted(),
                old(self)@.tick_lines(batch_limit(max_lines as nat)),
            ),
            final(self).header_emitted() == (old(self).header_emitted() || out.0 is Some),
            out.1 == (final(self)@.queue.len() == 0),
            final(self)@.emitted >= old(self)@.emitted,
    {
        let (step, idle) = self.core.commit_batch(max_lines);
        (self.emit(step), idle)
    }

    /// Returns the number of queued lines that wait to be shown. It is
    /// zero while a table holds the source back.
    pub fn queued_lines(&self) -> (queued: usize)
        requires
            self.wf(),
        ensures
            queued == self@.queue.len(),
            queued == self@.enqueued - self@.emitted,
            holdback_state(self@.raw_source) != TableHoldbackState::NoTable ==> queued == 0,
    {
        self.core.queued_lines()
    }

    /// Returns the age of the oldest queued line at the time `now`.
    pub fn oldest_queued_age(&self, now: Instant) -> (age: Option<Duration>)
        ensures
            age is Some <==> self@.queue.len() > 0,
    {
        self.core.oldest_queued_age(now)
    }

    /// Returns the mutable tail to show in the active cell.
    pub fn current_tail_lines(&self) -> (tail: Vec<StyledLine>)
        ensures
            tail@ == self@.tail_lines(),
    {
        self.core.current_tail_lines()
    }

    /// Returns whether the mutable tail should show the marker that leads
    /// the message: no header was emitted and nothing was queued.
    pub fn tail_starts_stream(&self) -> (starts: bool)
        ensures
            starts == (!self.header_emitted() && self@.enqueued == 0),
    {
        !self.header_emitted && self.core.nothing_enqueued()
    }

    /// Returns whether there is a mutable tail to show.
    pub fn has_live_tail(&self) -> (live: bool)
        ensures
            live == (self@.tail_lines().len() > 0),
    {
        self.core.has_live_tail()
    }

    /// Updates the rendering width and rebuilds the queued stable lines
    /// for the new layout. The same width changes nothing.
    pub fn set_width(&mut self, width: Option<usize>)
        requires
            old(self).wf(),
        ensures
            final(self).wf(),
            final(self).renderer() == old(self).renderer(),
            final(self).header_emitted() == old(self).header_emitted(),
            final(self)@ == old(self)@.resized(width, final(self)@.emitted, final(self)@.rendered),
            old(self)@.width == width ==> final(self)@ == old(self)@,
            old(self)@.resize_rerenders(width) && old(self)@.emitted > 0 ==> remapped_by(
                old(self).renderer(),
                old(self)@.raw_source,
                old(self)@.width,
                old(self)@.emitted,
                width,
                final(self)@.emitted,
            ),
    {
        self.core.set_width(width);
    }

    /// Wraps lines into a cell; the first cell of a message starts it.
    fn emit(&mut self, lines: Vec<StyledLine>) -> (cell: Option<AgentMessageCell>)
        ensures
            final(self).core == old(self).core,
            is_message_cell(cell, old(self).header_emitted(), lines@),
            final(self).header_emitted() == (old(self).header_emitted() || cell is Some),
    {
        if lines.len() == 0 {
            return None;
        }
        let header_emitted = self.header_emitted;
        self.header_emitted = true;
        Some(AgentMessageCell { lines, is_first_line: !header_emitted })
    }
}

/// A line of a proposed plan block.
pub enum PlanLine {
    /// The banner that names the block.
    Header,
    /// The blank line between the banner and the block.
    HeaderSeparator,
    /// A blank line of the block, above or below its content.
    Padding,
    /// A rendered line of the plan, to be indented and styled as the block.
    Body(StyledLine),
}

/// A batch of lines of a proposed plan, on its way to the transcript.
pub struct ProposedPlanStreamCell {
    pub lines: Vec<PlanLine>,
    /// Whether a cell of the same plan came before this one.
    pub is_stream_continuation: bool,
    /// What every line of the block is indented by: two spaces.
    pub indent: &'static str,
}

/// The indent of the lines of a plan block.
pub open spec fn plan_indent() -> Seq<char> {
    "  "@
}

/// The rendered lines as lines of the plan body.
pub open spec fn body_lines(lines: Seq<StyledLine>) -> Seq<PlanLine> {
    Seq::new(lines.len(), |i: int| PlanLine::Body(lines[i]))
}

/// The lines of a plan cell: the banner and its separator before the first
/// cell; one line of padding before the first content; the content; and
/// one line of padding behind the last content. Padding and content make
/// up the block, whose lines are indented and styled alike.
pub open spec fn plan_lines(
    header_emitted: bool,
    top_padding_emitted: bool,
    lines: Seq<StyledLine>,
    include_bottom_padding: bool,
) -> Seq<PlanLine> {
    (if header_emitted {
        Seq::<PlanLine>::empty()
    } else {
        seq![PlanLine::Header, PlanLine::HeaderSeparator]
    }) + (if top_padding_emitted {
        Seq::<PlanLine>::empty()
    } else {
        seq![PlanLine::Padding]
    }) + body_lines(lines) + (if include_bottom_padding {
        seq![PlanLine::Padding]
    } else {
        Seq::<PlanLine>::empty()
    })
}

/// The plan cell that wraps `lines`: no cell when there are no lines and no
/// bottom padding is asked for; else a cell of the plan lines, which
/// continues the stream exactly when the banner was emitted before.
pub open spec fn is_plan_cell(
    cell: Option<ProposedPlanStreamCell>,
    header_emitted: bool,
    top_padding_emitted: bool,
    lines: Seq<StyledLine>,
    include_bottom_padding: bool,
) -> bool {
    match cell {
        Some(found) => (lines.len() > 0 || include_bottom_padding) && found.lines@ == plan_lines(
            header_emitted,
            top_padding_emitted,
            lines,
            include_bottom_padding,
        ) && found.is_stream_continuation == header_emitted && found.indent@ == plan_indent(),
        None => lines.len() == 0 && !include_bottom_padding,
    }
}

/// Controller that streams the markdown of a proposed plan into a styled
/// plan block.
pub struct PlanStreamController<R> {
    core: StreamCore<R>,
    header_emitted: bool,
    top_padding_emitted: bool,
}

impl<R: Fn(&str, Option<usize>) -> Vec<StyledLine>> View for PlanStreamController<R> {
    type V = StreamModel;

    closed spec fn view(&self) -> StreamModel {
        self.core@
    }
}

impl<R: Fn(&str, Option<usize>) -> Vec<StyledLine>> PlanStreamController<R> {
    /// Whether the banner of the plan was emitted.
    pub closed spec fn header_emitted(&self) -> bool {
        self.header_emitted
    }

    /// Whether the padding above the plan content was emitted.
    pub closed spec fn top_padding_emitted(&self) -> bool {
        self.top_padding_emitted
    }

    /// The renderer of the stream.
    pub closed spec fn renderer(&self) -> R {
        self.core.renderer()
    }

    /// The invariant of the controller: that of its buffer.
    pub closed spec fn wf(&self) -> bool {
        self.core.wf()
    }

    /// The boundaries of a controller are ordered; nothing is queued while
    /// a table holds the source back; and the rendered lines are a render
    /// of the source.
    pub proof fn lemma_invariant(&self)
        requires
            self.wf(),
        ensures
            self@.wf(),
            renders_everything(self.renderer()),
            self@.raw_source.len() > 0 ==> renders_agent(
                self.renderer(),
                self@.raw_source,
                self@.width,
                self@.rendered,
            ),
    {
    }

    /// A controller for a plan that is rendered at `width` by `render`.
    pub fn new(width: Option<usize>, render: R) -> (controller: Self)
        requires
            renders_everything(render),
        ensures
            controller.wf(),
            controller@ == StreamModel::fresh(width),
            !controller.header_emitted(),
            !controller.top_padding_emitted(),
            controller.renderer() == render,
    {
        PlanStreamController {
            core: StreamCore::new(width, render),
            header_emitted: false,
            top_padding_emitted: false,
        }
    }

    /// Pushes a delta; if it holds a newline, the completed lines are
    /// committed and the animation starts. Returns whether new lines wait
    /// in the queue.
    pub fn push(&mut self, delta: &str) -> (enqueued: bool)
        requires
            old(self).wf(),
        ensures
            final(self).wf(),
            final(self).renderer() == old(self).renderer(),
            final(self).header_emitted() == old(self).header_emitted(),
            final(self).top_padding_emitted() == old(self).top_padding_emitted(),
            final(self)@ == old(self)@.pushed(delta@, final(self)@.rendered),
            enqueued == old(self)@.push_enqueues(delta@, final(self)@.rendered),
            final(self)@.emitted == old(self)@.emitted,
    {
        proof {
            if StreamModel::commits(delta@) {
                lemma_contains_after(old(self)@.pending, delta@);
                lemma_complete_len(old(self)@.pending + delta@);
            }
        }
        self.core.push(delta)
    }

    /// Finalizes the plan: what is left is rendered and emitted at once,
    /// with the padding that closes the block. There is always a cell.
    pub fn finalize(&mut self) -> (cell: Option<ProposedPlanStreamCell>)
        requires
            old(self).wf(),
        ensures
            final(self).wf(),
            final(self).renderer() == old(self).renderer(),
            final(self)@ == old(self)@.reset(),
            !final(self).header_emitted(),
            !final(self).top_padding_emitted(),
            cell is Some,
            exists|lines: Seq<StyledLine>|
                #[trigger] finishes_with(old(self).renderer(), old(self)@, true, lines)
                    && is_plan_cell(
                    cell,
                    old(self).header_emitted(),
                    old(self).top_padding_emitted(),
                    lines,
                    true,
                ),
    {
        let (out_lines, _) = self.core.finish(true);
        let ghost lines = out_lines@;
        let out = self.emit(out_lines, true);
        self.header_emitted = false;
        self.top_padding_emitted = false;
        proof {
            assert(finishes_with(old(self).renderer(), old(self)@, true, lines));
            assert(is_plan_cell(
                out,
                old(self).header_emitted(),
                old(self).top_padding_emitted(),
                lines,
                true,
            ));
        }
        out
    }

    /// Steps the animation: commits at most one queued line. Returns the
    /// cell of that line, if there was one, and whether the queue is empty.
    pub fn on_commit_tick(&mut self) -> (out: (Option<ProposedPlanStreamCell>, bool))
        requires
            old(self).wf(),
        ensures
            final(self).wf(),
            final(self).renderer() == old(self).renderer(),
            final(self)@ == old(self)@.ticked(1),
            is_plan_cell(
                out.0,
                old(self).header_emitted(),
                old(self).top_padding_emitted(),
                old(self)@.tick_lines(1),
                false,
            ),
            final(self).header_emitted() == (old(self).header_emitted() || out.0 is Some),
            final(self).top_padding_emitted() == (old(self).top_padding_emitted()
                || out.0 is Some),
            out.1 == (final(self)@.queue.len() == 0),
            final(self)@.emitted >= old(self)@.emitted,
    {
        let (step, idle) = self.core.commit_step();
        (self.emit(step, false), idle)
    }

    /// Steps the animation: commits at most `max_lines` queued lines, and
    /// at least one if one is queued.
    pub fn on_commit_tick_batch(&mut self, max_lines: usize) -> (out: (
        Option<ProposedPlanStreamCell>,
        bool,
    ))
        requires
            old(self).wf(),
        ensures
            final(self).wf(),
            final(self).renderer() == old(self).renderer(),
            final(self)@ == old(self)@.ticked(batch_limit(max_lines as nat)),
            is_plan_cell(
                out.0,
                old(self).header_emitted(),
                old(self).top_padding_emitted(),
                old(self)@.tick_lines(batch_limit(max_lines as nat)),
                false,
            ),
            final(self).header_emitted() == (old(self).header_emitted() || out.0 is Some),
            final(self).top_padding_emitted() == (old(self).top_padding_emitted()
                || out.0 is Some),
            out.1 == (final(self)@.queue.len() == 0),
            final(self)@.emitted >= old(self)@.emitted,
    {
        let (step, idle) = self.core.commit_batch(max_lines);
        (self.emit(step, false), idle)
    }

    /// Returns the number of queued plan lines that wait to be shown. It
    /// is zero while a table holds the source back.
    pub fn queued_lines(&self) -> (queued: usize)
        requires
            self.wf(),
        ensures
            queued == self@.queue.len(),
            queued == self@.enqueued - self@.emitted,
            holdback_state(self@.raw_source) != TableHoldbackState::NoTable ==> queued == 0,
    {
        self.core.queued_lines()
    }

    /// Returns the age of the oldest queued plan line at the time `now`.
    pub fn oldest_queued_age(&self, now: Instant) -> (age: Option<Duration>)
        ensures
            age is Some <==> self@.queue.len() > 0,
    {
        self.core.oldest_queued_age(now)
    }

    /// Updates the rendering width and rebuilds the queued stable lines
    /// for the new layout. The same width changes nothing.
    pub fn set_width(&mut self, width: Option<usize>)
        requires
            old(self).wf(),
        ensures
            final(self).wf(),
            final(self).renderer() == old(self).renderer(),
            final(self).header_emitted() == old(self).header_emitted(),
            final(self).top_padding_emitted() == old(self).top_padding_emitted(),
            final(self)@ == old(self)@.resized(width, final(self)@.emitted, final(self)@.rendered),
            old(self)@.width == width ==> final(self)@ == old(self)@,
            old(self)@.resize_rerenders(width) && old(self)@.emitted > 0 ==> remapped_by(
                old(self).renderer(),
                old(self)@.raw_source,
                old(self)@.width,
                old(self)@.emitted,
                width,
                final(self)@.emitted,
            ),
    {
        self.core.set_width(width);
    }

    /// Wraps lines into a plan cell. The first cell carries the banner and
    /// the padding above the content; the cell that finishes the plan
    /// carries the padding below it.
    fn emit(&mut self, lines: Vec<StyledLine>, include_bottom_padding: bool) -> (cell: Option<
        ProposedPlanStreamCell,
    >)
        ensures
            final(self).core == old(self).core,
            is_plan_cell(
                cell,
                old(self).header_emitted(),
                old(self).top_padding_emitted(),
                lines@,
                include_bottom_padding,
            ),
            final(self).header_emitted() == (old(self).header_emitted() || cell is Some),
            final(self).top_padding_emitted() == (old(self).top_padding_emitted()
                || cell is Some),
    {
        if lines.len() == 0 && !include_bottom_padding {
            return None;
        }
        let ghost body = lines@;
        let mut out_lines: Vec<PlanLine> = Vec::new();
        let is_stream_continuation = self.header_emitted;
        if !self.header_emitted {
            out_lines.push(PlanLine::Header);
            out_lines.push(PlanLine::HeaderSeparator);
            self.header_emitted = true;
        }
        if !self.top_padding_emitted {
            out_lines.push(PlanLine::Padding);
            self.top_padding_emitted = true;
        }
        let ghost head = out_lines@;
        proof {
            assert(head + body_lines(body.take(0)) =~= head);
        }
        for line in it: lines
            invariant
                it.seq() == body,
                out_lines@ == head + body_lines(body.take(it.index() as int)),
        {
            out_lines.push(PlanLine::Body(line));
            proof {
                assert(body_lines(body.take(it.index() + 1)) =~= body_lines(
                    body.take(it.index() as int),
                ).push(PlanLine::Body(line)));
            }
        }
        proof {
            assert(body.take(body.len() as int) =~= body);
        }
        if include_bottom_padding {
            out_lines.push(PlanLine::Padding);
        }
        proof {
            assert(out_lines@ =~= plan_lines(
                old(self).header_emitted(),
                old(self).top_padding_emitted(),
                body,
                include_bottom_padding,
            ));
        }
        Some(ProposedPlanStreamCell { lines: out_lines, is_stream_continuation, indent: "  " })
    }
}

} // verus!
