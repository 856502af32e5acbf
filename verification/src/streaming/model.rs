//! The stable/tail buffer of a stream as a mathematical state, and what
//! holds of every run of it.
//!
//! The rendered lines of a stream fall into two regions. The *stable*
//! region `[0, enqueued)` was handed to the animation queue; its first
//! `emitted` lines have already left the queue for the transcript. The
//! *tail* `[enqueued, ..)` is still open to rewriting. Each operation of a
//! controller is a function on this state, given what the renderer
//! returned.

use crate::line::StyledLine;
use crate::markdown_stream::{complete_len, lemma_complete_len};
use crate::streaming::holdback::{holdback_state, TableHoldbackState};
use crate::text::contains_char;
use vstd::prelude::*;

verus! {

/// The state of one stream.
pub struct StreamModel {
    /// Text that arrived and is not yet part of the source: it lacks its newline.
    pub pending: Seq<char>,
    /// Whether any text has arrived.
    pub has_seen_delta: bool,
    /// The lines that wait in the animation queue, oldest first.
    pub queue: Seq<StyledLine>,
    /// The width of rendering; `None` for no limit.
    pub width: Option<usize>,
    /// The markdown source accumulated so far.
    pub raw_source: Seq<char>,
    /// The lines of the last full render of the source.
    pub rendered: Seq<StyledLine>,
    /// How many rendered lines were handed to the queue.
    pub enqueued: nat,
    /// How many rendered lines were emitted to the transcript.
    pub emitted: nat,
}

/// `a` is a prefix of `b`.
pub open spec fn is_prefix(a: Seq<StyledLine>, b: Seq<StyledLine>) -> bool {
    a.len() <= b.len() && b.take(a.len() as int) == a
}

impl StreamModel {
    /// The state of a stream that has seen nothing.
    pub open spec fn fresh(width: Option<usize>) -> StreamModel {
        StreamModel {
            pending: Seq::empty(),
            has_seen_delta: false,
            queue: Seq::empty(),
            width,
            raw_source: Seq::empty(),
            rendered: Seq::empty(),
            enqueued: 0,
            emitted: 0,
        }
    }

    /// The queue holds exactly the lines between the two boundaries.
    pub open spec fn counts_ok(self) -> bool {
        self.emitted <= self.enqueued && self.queue.len() == self.enqueued - self.emitted
    }

    /// The invariant of a stream between operations.
    ///
    /// The boundaries are ordered and the queue holds what lies between
    /// them. The stable region ends inside the rendered lines, unless
    /// nothing is queued. Nothing is queued while a table holds the source
    /// back. A stream without source has no rendered lines.
    pub open spec fn wf(self) -> bool {
        &&& self.counts_ok()
        &&& (self.enqueued <= self.rendered.len() || self.enqueued == self.emitted)
        &&& (holdback_state(self.raw_source) != TableHoldbackState::NoTable ==> self.enqueued
            == self.emitted)
        &&& (self.raw_source.len() == 0 ==> self.rendered.len() == 0 && self.enqueued == 0)
    }

    /// How many rendered lines are withheld as tail: all of them while a
    /// table is pending or confirmed, none otherwise.
    pub open spec fn tail_budget(self) -> nat {
        if holdback_state(self.raw_source) != TableHoldbackState::NoTable {
            self.rendered.len()
        } else {
            0
        }
    }

    /// Where the stable region should end: the rendered lines less the
    /// tail budget, and never before what was emitted.
    pub open spec fn stable_target(self) -> nat {
        let free = (self.rendered.len() - self.tail_budget()) as nat;
        if free >= self.emitted {
            free
        } else {
            self.emitted
        }
    }

    /// The rendered lines `from..to`; none when the range is empty.
    pub open spec fn lines_between(self, from: nat, to: nat) -> Seq<StyledLine> {
        if from < to {
            self.rendered.subrange(from as int, to as int)
        } else {
            Seq::empty()
        }
    }

    /// The state with the queue rebuilt from the rendered lines: it holds
    /// the lines from the emitted boundary to the stable target.
    pub open spec fn rebuilt(self) -> StreamModel {
        let target = self.stable_target();
        StreamModel {
            queue: self.lines_between(self.emitted, target),
            enqueued: target,
            ..self
        }
    }

    /// The state with the stable region moved to its target.
    ///
    /// A target before the enqueued boundary means that a rewrite took
    /// lines back that looked stable: the queue is rebuilt. A target
    /// behind it queues the lines in between.
    pub open spec fn synced(self) -> StreamModel {
        let target = self.stable_target();
        if target < self.enqueued {
            self.rebuilt()
        } else if target == self.enqueued {
            self
        } else {
            StreamModel {
                queue: self.queue + self.lines_between(self.enqueued, target),
                enqueued: target,
                ..self
            }
        }
    }

    /// Whether moving the stable region leaves new lines in the queue.
    pub open spec fn sync_enqueues(self) -> bool {
        let target = self.stable_target();
        if target < self.enqueued {
            self.rebuilt().queue.len() > 0
        } else {
            target > self.enqueued
        }
    }

    /// The delta makes the collector commit: it holds a newline.
    pub open spec fn commits(delta: Seq<char>) -> bool {
        contains_char(delta, '\n')
    }

    /// The state after a delta arrived, where `rendered` is what the
    /// renderer returned for the grown source. A delta without newline only
    /// grows the pending text. A delta with a newline moves the pending
    /// text up to its last newline into the source, replaces the rendered
    /// lines and moves the stable region.
    pub open spec fn pushed(self, delta: Seq<char>, rendered: Seq<StyledLine>) -> StreamModel {
        let text = self.pending + delta;
        let seen = self.has_seen_delta || delta.len() > 0;
        if Self::commits(delta) {
            let cut = complete_len(text) as int;
            (StreamModel {
                pending: text.skip(cut),
                has_seen_delta: seen,
                raw_source: self.raw_source + text.take(cut),
                rendered,
                ..self
            }).synced()
        } else {
            StreamModel { pending: text, has_seen_delta: seen, ..self }
        }
    }

    /// The source that the renderer is given when `delta` commits.
    pub open spec fn pushed_source(self, delta: Seq<char>) -> Seq<char> {
        let text = self.pending + delta;
        self.raw_source + text.take(complete_len(text) as int)
    }

    /// Whether a delta leaves new lines in the queue.
    pub open spec fn push_enqueues(self, delta: Seq<char>, rendered: Seq<StyledLine>) -> bool {
        let text = self.pending + delta;
        let cut = complete_len(text) as int;
        Self::commits(delta) && (StreamModel {
            pending: text.skip(cut),
            has_seen_delta: self.has_seen_delta || delta.len() > 0,
            raw_source: self.raw_source + text.take(cut),
            rendered,
            ..self
        }).sync_enqueues()
    }

    /// How many lines a commit tick takes from the queue when it may take
    /// `max_lines`.
    pub open spec fn step_len(self, max_lines: nat) -> nat {
        if max_lines <= self.queue.len() {
            max_lines
        } else {
            self.queue.len()
        }
    }

    /// The lines that a commit tick emits.
    pub open spec fn tick_lines(self, max_lines: nat) -> Seq<StyledLine> {
        self.queue.take(self.step_len(max_lines) as int)
    }

    /// The state after a commit tick.
    pub open spec fn ticked(self, max_lines: nat) -> StreamModel {
        StreamModel {
            queue: self.queue.skip(self.step_len(max_lines) as int),
            emitted: self.emitted + self.step_len(max_lines),
            ..self
        }
    }

    /// The lines of the mutable tail.
    pub open spec fn tail_lines(self) -> Seq<StyledLine> {
        if self.enqueued <= self.rendered.len() {
            self.rendered.skip(self.enqueued as int)
        } else {
            Seq::empty()
        }
    }

    /// The whole source of the stream: what was committed and what is pending.
    pub open spec fn final_source(self) -> Seq<char> {
        self.raw_source + self.pending
    }

    /// The lines that finishing the stream emits, where `rendered` is the
    /// render of the whole source: everything behind the emitted boundary.
    pub open spec fn final_lines(self, rendered: Seq<StyledLine>) -> Seq<StyledLine> {
        if self.emitted >= rendered.len() {
            Seq::empty()
        } else {
            rendered.skip(self.emitted as int)
        }
    }

    /// The state of a stream that was reset: nothing is left but the width.
    pub open spec fn reset(self) -> StreamModel {
        Self::fresh(self.width)
    }

    /// The width changes and there is source to render again.
    pub open spec fn resize_rerenders(self, width: Option<usize>) -> bool {
        self.width != width && self.raw_source.len() > 0
    }

    /// The state after the width changed, where `remapped` is the number of
    /// lines that the emitted source takes at the new width and `rendered`
    /// the render of the source at the new width.
    ///
    /// The same width changes nothing. Without source only the width is
    /// recorded. Otherwise the emitted boundary is remapped, the rendered
    /// lines are replaced and the queue is rebuilt.
    pub open spec fn resized(
        self,
        width: Option<usize>,
        remapped: nat,
        rendered: Seq<StyledLine>,
    ) -> StreamModel {
        if self.width == width {
            self
        } else if self.raw_source.len() == 0 {
            StreamModel { width, ..self }
        } else {
            (StreamModel {
                width,
                emitted: if self.emitted > 0 {
                    remapped
                } else {
                    0
                },
                rendered,
                ..self
            }).rebuilt()
        }
    }
}

/// One call on a stream, with what the renderer returned during it.
pub enum StreamOp {
    /// `push` of a delta; `rendered` is the render of the grown source.
    Push { delta: Seq<char>, rendered: Seq<StyledLine> },
    /// `on_commit_tick`.
    CommitTick,
    /// `on_commit_tick_batch` with a limit.
    CommitTickBatch { max_lines: nat },
    /// `set_width`; `remapped` is the number of lines of the emitted
    /// source at the new width, `rendered` the render at the new width.
    SetWidth { width: Option<usize>, remapped: nat, rendered: Seq<StyledLine> },
}

/// How many lines a batch tick may take: its limit, and at least one.
pub open spec fn batch_limit(max_lines: nat) -> nat {
    if max_lines < 1 {
        1
    } else {
        max_lines
    }
}

/// The state after one call.
pub open spec fn apply(m: StreamModel, op: StreamOp) -> StreamModel {
    match op {
        StreamOp::Push { delta, rendered } => m.pushed(delta, rendered),
        StreamOp::CommitTick => m.ticked(1),
        StreamOp::CommitTickBatch { max_lines } => m.ticked(batch_limit(max_lines)),
        StreamOp::SetWidth { width, remapped, rendered } => m.resized(width, remapped, rendered),
    }
}

/// The lines that one call emits to the transcript.
pub open spec fn emitted_by(m: StreamModel, op: StreamOp) -> Seq<StyledLine> {
    match op {
        StreamOp::CommitTick => m.tick_lines(1),
        StreamOp::CommitTickBatch { max_lines } => m.tick_lines(batch_limit(max_lines)),
        _ => Seq::empty(),
    }
}

/// The text that one call adds to the stream.
pub open spec fn text_of(op: StreamOp) -> Seq<char> {
    match op {
        StreamOp::Push { delta, rendered } => delta,
        _ => Seq::empty(),
    }
}

/// The state after a sequence of calls.
pub open spec fn run(m: StreamModel, ops: Seq<StreamOp>) -> StreamModel
    decreases ops.len(),
{
    if ops.len() == 0 {
        m
    } else {
        apply(run(m, ops.drop_last()), ops.last())
    }
}

/// All the lines that a sequence of calls emits, in the order of the calls.
pub open spec fn transcript(m: StreamModel, ops: Seq<StreamOp>) -> Seq<StyledLine>
    decreases ops.len(),
{
    if ops.len() == 0 {
        Seq::empty()
    } else {
        transcript(m, ops.drop_last()) + emitted_by(run(m, ops.drop_last()), ops.last())
    }
}

/// All the text that a sequence of calls pushes, in the order of the calls.
pub open spec fn pushed_text(ops: Seq<StreamOp>) -> Seq<char>
    decreases ops.len(),
{
    if ops.len() == 0 {
        Seq::empty()
    } else {
        pushed_text(ops.drop_last()) + text_of(ops.last())
    }
}

/// Moving the stable region restores the invariant of the boundaries.
pub proof fn lemma_synced(m: StreamModel)
    requires
        m.counts_ok(),
        m.raw_source.len() > 0,
    ensures
        m.synced().wf(),
        m.rebuilt().wf(),
        m.synced().emitted == m.emitted,
        m.rebuilt().emitted == m.emitted,
{
}

/// Every call keeps the invariant: the emitted boundary never passes the
/// enqueued one, the enqueued boundary stays inside the rendered lines
/// unless nothing is queued, and the queue holds what lies between them.
pub proof fn lemma_apply_keeps_invariant(m: StreamModel, op: StreamOp)
    requires
        m.wf(),
    ensures
        apply(m, op).wf(),
{
    match op {
        StreamOp::Push { delta, rendered } => {
            if StreamModel::commits(delta) {
                let text = m.pending + delta;
                lemma_contains_after(m.pending, delta);
                lemma_complete_len(text);
                let cut = complete_len(text) as int;
                let grown = StreamModel {
                    pending: text.skip(cut),
                    has_seen_delta: m.has_seen_delta || delta.len() > 0,
                    raw_source: m.raw_source + text.take(cut),
                    rendered,
                    ..m
                };
                lemma_synced(grown);
            }
        },
        StreamOp::CommitTick => {},
        StreamOp::CommitTickBatch { max_lines } => {},
        StreamOp::SetWidth { width, remapped, rendered } => {
            if m.width != width && m.raw_source.len() > 0 {
                let moved = StreamModel {
                    width,
                    emitted: if m.emitted > 0 {
                        remapped
                    } else {
                        0
                    },
                    rendered,
                    ..m
                };
                let target = moved.stable_target();
                assert(moved.rebuilt().wf());
            }
        },
    }
}

/// A newline in `b` is a newline in `a + b`.
pub proof fn lemma_contains_after(a: Seq<char>, b: Seq<char>)
    requires
        contains_char(b, '\n'),
    ensures
        contains_char(a + b, '\n'),
{
    let i = choose|i: int| 0 <= i < b.len() && b[i] == '\n';
    assert((a + b)[a.len() + i] == '\n');
}

/// Monotonicity, the invariant: whatever is pushed, ticked or resized, and
/// whatever the renderer returns, the boundaries stay ordered:
/// `emitted <= enqueued`, and `enqueued <= |rendered|` unless the queue is
/// empty.
pub proof fn lemma_boundaries_stay_ordered(m: StreamModel, ops: Seq<StreamOp>)
    requires
        m.wf(),
    ensures
        run(m, ops).wf(),
        run(m, ops).emitted <= run(m, ops).enqueued,
        run(m, ops).enqueued <= run(m, ops).rendered.len() || run(m, ops).queue.len() == 0,
    decreases ops.len(),
{
    if ops.len() > 0 {
        lemma_boundaries_stay_ordered(m, ops.drop_last());
        lemma_apply_keeps_invariant(run(m, ops.drop_last()), ops.last());
    }
}

/// The call is a resize that remaps the emitted boundary to fewer lines
/// than were emitted.
pub open spec fn lowers_emitted(m: StreamModel, op: StreamOp) -> bool {
    op is SetWidth && apply(m, op).emitted < m.emitted
}

/// No call but a resize moves the emitted boundary back.
pub proof fn lemma_emitted_step(m: StreamModel, op: StreamOp)
    requires
        m.wf(),
        !lowers_emitted(m, op),
    ensures
        apply(m, op).emitted >= m.emitted,
{
    match op {
        StreamOp::Push { delta, rendered } => {
            if StreamModel::commits(delta) {
                let text = m.pending + delta;
                lemma_contains_after(m.pending, delta);
                lemma_complete_len(text);
            }
        },
        _ => {},
    }
}

/// Monotonicity, the emitted boundary: over any sequence of pushes, ticks
/// and resizes in which no resize remaps the emitted lines to fewer lines,
/// the emitted boundary never decreases.
pub proof fn lemma_emitted_never_decreases(m: StreamModel, ops: Seq<StreamOp>)
    requires
        m.wf(),
        forall|i: int| 0 <= i < ops.len() ==> !lowers_emitted(run(m, ops.take(i)), #[trigger] ops[i]),
    ensures
        run(m, ops).emitted >= m.emitted,
    decreases ops.len(),
{
    if ops.len() > 0 {
        let init = ops.drop_last();
        assert forall|i: int| 0 <= i < init.len() implies !lowers_emitted(
            run(m, init.take(i)),
            #[trigger] init[i],
        ) by {
            assert(init.take(i) =~= ops.take(i));
            assert(init[i] == ops[i]);
        }
        lemma_emitted_never_decreases(m, init);
        lemma_boundaries_stay_ordered(m, init);
        assert(ops.take(ops.len() - 1) =~= init);
        assert(!lowers_emitted(run(m, init), ops[ops.len() - 1]));
        lemma_emitted_step(run(m, init), ops.last());
    }
}

/// No premature commit: after any sequence of calls, while a table is
/// pending or confirmed in the source, nothing waits in the queue.
pub proof fn lemma_no_premature_commit(m: StreamModel, ops: Seq<StreamOp>)
    requires
        m.wf(),
        holdback_state(run(m, ops).raw_source) != TableHoldbackState::NoTable,
    ensures
        run(m, ops).queue.len() == 0,
{
    lemma_boundaries_stay_ordered(m, ops);
}

/// Idempotent resize: a second resize to the same width changes nothing,
/// whatever the renderer would return.
pub proof fn lemma_resize_idempotent(
    m: StreamModel,
    width: Option<usize>,
    remapped: nat,
    rendered: Seq<StyledLine>,
    remapped_again: nat,
    rendered_again: Seq<StyledLine>,
)
    ensures
        m.resized(width, remapped, rendered).resized(width, remapped_again, rendered_again)
            == m.resized(width, remapped, rendered),
{
}

/// A renderer whose output for a source that ends with a newline and holds
/// no pending or confirmed table stays the beginning of its output for
/// every longer source.
pub open spec fn stable_prefix(
    render: spec_fn(Seq<char>, Option<usize>) -> Seq<StyledLine>,
    width: Option<usize>,
) -> bool {
    forall|source: Seq<char>, more: Seq<char>|
        source.len() > 0 && source.last() == '\n' && holdback_state(source)
            == TableHoldbackState::NoTable ==> is_prefix(
            render(source, width),
            #[trigger] render(source + more, width),
        )
}

/// Every push of the sequence got from the renderer what `render` gives
/// for the source as it stands after the push, and no call is a resize.
pub open spec fn rendered_by(
    m: StreamModel,
    ops: Seq<StreamOp>,
    render: spec_fn(Seq<char>, Option<usize>) -> Seq<StyledLine>,
) -> bool {
    forall|i: int|
        0 <= i < ops.len() ==> match #[trigger] ops[i] {
            StreamOp::Push { delta, rendered } => StreamModel::commits(delta) ==> rendered
                == render(run(m, ops.take(i)).pushed_source(delta), m.width),
            StreamOp::SetWidth { width, remapped, rendered } => false,
            _ => true,
        }
}

/// What the proof of no loss carries from call to call.
spec fn faithful(
    m: StreamModel,
    log: Seq<StyledLine>,
    text: Seq<char>,
    render: spec_fn(Seq<char>, Option<usize>) -> Seq<StyledLine>,
    width: Option<usize>,
) -> bool {
    &&& m.wf()
    &&& m.width == width
    &&& log.len() == m.emitted
    &&& m.raw_source + m.pending == text
    &&& (m.raw_source.len() > 0 ==> m.raw_source.last() == '\n')
    &&& forall|more: Seq<char>|
        is_prefix(log + m.queue, #[trigger] render(m.raw_source + more, width))
}

proof fn lemma_faithful_step(
    m: StreamModel,
    log: Seq<StyledLine>,
    text: Seq<char>,
    op: StreamOp,
    render: spec_fn(Seq<char>, Option<usize>) -> Seq<StyledLine>,
    width: Option<usize>,
)
    requires
        faithful(m, log, text, render, width),
        stable_prefix(render, width),
        match op {
            StreamOp::Push { delta, rendered } => StreamModel::commits(delta) ==> rendered
                == render(m.pushed_source(delta), width),
            StreamOp::SetWidth { width, remapped, rendered } => false,
            _ => true,
        },
    ensures
        faithful(apply(m, op), log + emitted_by(m, op), text + text_of(op), render, width),
{
    let next = apply(m, op);
    let next_log = log + emitted_by(m, op);
    lemma_apply_keeps_invariant(m, op);
    match op {
        StreamOp::Push { delta, rendered } => {
            let grown_text = m.pending + delta;
            assert(next_log =~= log);
            if StreamModel::commits(delta) {
                lemma_contains_after(m.pending, delta);
                lemma_complete_len(grown_text);
                let cut = complete_len(grown_text) as int;
                let chunk = grown_text.take(cut);
                let source = m.raw_source + chunk;
                assert(source == m.pushed_source(delta));
                assert(source.last() == '\n');
                let grown = StreamModel {
                    pending: grown_text.skip(cut),
                    has_seen_delta: m.has_seen_delta || delta.len() > 0,
                    raw_source: source,
                    rendered,
                    ..m
                };
                assert(next == grown.synced());
                assert(next.raw_source + next.pending =~= text + delta) by {
                    assert(chunk + grown_text.skip(cut) =~= grown_text);
                    assert(source + grown_text.skip(cut) =~= m.raw_source + (chunk
                        + grown_text.skip(cut)));
                    assert(m.raw_source + (m.pending + delta) =~= (m.raw_source + m.pending)
                        + delta);
                }
                // What was emitted and queued is the beginning of the new render.
                assert(is_prefix(log + m.queue, rendered)) by {
                    assert(rendered == render(m.raw_source + chunk, width));
                }
                assert((log + m.queue).len() == m.enqueued);
                if holdback_state(source) == TableHoldbackState::NoTable {
                    let target = grown.stable_target();
                    assert(target == rendered.len());
                    assert(log + next.queue =~= rendered) by {
                        if target > grown.enqueued {
                            assert(rendered =~= rendered.take(m.enqueued as int)
                                + rendered.subrange(m.enqueued as int, target as int));
                        } else {
                            assert(rendered.take(m.enqueued as int) =~= rendered);
                        }
                    }
                    assert forall|more: Seq<char>|
                        is_prefix(
                            log + next.queue,
                            #[trigger] render(next.raw_source + more, width),
                        ) by {
                        assert(is_prefix(render(source, width), render(source + more, width)));
                    }
                } else {
                    assert(next.queue.len() == 0);
                    assert(log + next.queue =~= log);
                    assert forall|more: Seq<char>|
                        is_prefix(
                            log + next.queue,
                            #[trigger] render(next.raw_source + more, width),
                        ) by {
                        assert(source + more =~= m.raw_source + (chunk + more));
                        let full = render(m.raw_source + (chunk + more), width);
                        assert(is_prefix(log + m.queue, full));
                        assert(full.take(log.len() as int) =~= (log + m.queue).take(
                            log.len() as int,
                        ));
                        assert((log + m.queue).take(log.len() as int) =~= log);
                    }
                }
            } else {
                assert(next.raw_source + next.pending =~= text + delta) by {
                    assert(m.raw_source + (m.pending + delta) =~= (m.raw_source + m.pending)
                        + delta);
                }
            }
        },
        StreamOp::CommitTick => {
            assert(text + text_of(op) =~= text);
            assert(next_log + next.queue =~= log + m.queue);
        },
        StreamOp::CommitTickBatch { max_lines } => {
            assert(text + text_of(op) =~= text);
            assert(next_log + next.queue =~= log + m.queue);
        },
        StreamOp::SetWidth { width, remapped, rendered } => {},
    }
}

proof fn lemma_faithful_run(
    ops: Seq<StreamOp>,
    render: spec_fn(Seq<char>, Option<usize>) -> Seq<StyledLine>,
    width: Option<usize>,
)
    requires
        stable_prefix(render, width),
        rendered_by(StreamModel::fresh(width), ops, render),
    ensures
        faithful(
            run(StreamModel::fresh(width), ops),
            transcript(StreamModel::fresh(width), ops),
            pushed_text(ops),
            render,
            width,
        ),
    decreases ops.len(),
{
    let start = StreamModel::fresh(width);
    if ops.len() == 0 {
        assert(start.raw_source + start.pending =~= pushed_text(ops));
        assert forall|more: Seq<char>|
            is_prefix(
                transcript(start, ops) + start.queue,
                #[trigger] render(start.raw_source + more, width),
            ) by {
            assert(transcript(start, ops) + start.queue =~= Seq::<StyledLine>::empty());
            assert(render(start.raw_source + more, width).take(0) =~= Seq::<StyledLine>::empty());
        }
    } else {
        let init = ops.drop_last();
        assert forall|i: int| 0 <= i < init.len() implies match #[trigger] init[i] {
            StreamOp::Push { delta, rendered } => StreamModel::commits(delta) ==> rendered
                == render(run(start, init.take(i)).pushed_source(delta), start.width),
            StreamOp::SetWidth { width, remapped, rendered } => false,
            _ => true,
        } by {
            assert(init.take(i) =~= ops.take(i));
            assert(init[i] == ops[i]);
        }
        lemma_faithful_run(init, render, width);
        assert(ops.take(ops.len() - 1) =~= init);
        let last = ops[ops.len() - 1];
        assert(last == ops.last());
        lemma_faithful_step(
            run(start, init),
            transcript(start, init),
            pushed_text(init),
            ops.last(),
            render,
            width,
        );
    }
}

/// No loss: push any deltas and tick in any order, with a renderer that
/// has stable prefixes, and never resize. Then the lines emitted by the
/// ticks, followed by the lines that finishing the stream emits, are
/// exactly the render of all the text that was pushed, and that text is
/// the source that finishing hands back.
pub proof fn lemma_no_loss(
    ops: Seq<StreamOp>,
    render: spec_fn(Seq<char>, Option<usize>) -> Seq<StyledLine>,
    width: Option<usize>,
)
    requires
        stable_prefix(render, width),
        rendered_by(StreamModel::fresh(width), ops, render),
    ensures
        run(StreamModel::fresh(width), ops).final_source() == pushed_text(ops),
        transcript(StreamModel::fresh(width), ops) + run(
            StreamModel::fresh(width),
            ops,
        ).final_lines(render(pushed_text(ops), width)) == render(pushed_text(ops), width),
{
    let start = StreamModel::fresh(width);
    let end = run(start, ops);
    let log = transcript(start, ops);
    lemma_faithful_run(ops, render, width);
    let full = render(pushed_text(ops), width);
    assert(is_prefix(log + end.queue, render(end.raw_source + end.pending, width)));
    assert(full.take(log.len() as int) =~= (log + end.queue).take(log.len() as int));
    assert((log + end.queue).take(log.len() as int) =~= log);
    assert(log + end.final_lines(full) =~= full);
}

} // verus!
