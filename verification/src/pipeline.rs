//! The ordered bounded fan-out discipline of the batch pipeline: batches are
//! dispatched at consecutive starts, at most `workers` are in flight, their
//! results are consumed in submission order, and entries are delivered one
//! by one at strictly ascending indices. The state machine here is the
//! bookkeeping a driver follows; the invariants prove the ordering, the
//! exactness, and the concurrency bound.

use vstd::prelude::*;

use crate::codec::Entry;

verus! {

/// The pipeline's bookkeeping: where the stream started, which start is
/// dispatched next, how many batches are in flight, how much of the front
/// completed batch is still to deliver, and the next index to deliver.
pub struct Pipeline {
    batch: usize,
    workers: usize,
    position: usize,
    next_start: usize,
    inflight: usize,
    ready: usize,
    cursor: usize,
    stopped: bool,
    history: Ghost<Seq<int>>,
}

impl Pipeline {
    /// Entries per batch.
    pub closed spec fn spec_batch(&self) -> usize {
        self.batch
    }

    /// The concurrency ceiling.
    pub closed spec fn spec_workers(&self) -> usize {
        self.workers
    }

    /// The index the stream started at.
    pub closed spec fn spec_position(&self) -> usize {
        self.position
    }

    /// The start of the next batch to dispatch.
    pub closed spec fn spec_next_start(&self) -> usize {
        self.next_start
    }

    /// How many batches are in flight.
    pub closed spec fn spec_inflight(&self) -> usize {
        self.inflight
    }

    /// How many entries of the completed front batch are still to deliver.
    pub closed spec fn spec_ready(&self) -> usize {
        self.ready
    }

    /// The index the next delivered entry carries.
    pub closed spec fn spec_cursor(&self) -> usize {
        self.cursor
    }

    /// Whether the handler has stopped the stream.
    pub closed spec fn spec_stopped(&self) -> bool {
        self.stopped
    }

    /// The indices delivered so far, in delivery order.
    pub closed spec fn spec_history(&self) -> Seq<int> {
        self.history@
    }

    /// The pipeline's invariant: the knobs are at least one, at most
    /// `workers` batches are in flight, the front batch's leftovers fit one
    /// batch, the next start sits exactly `inflight` batches past the
    /// delivery frontier, and the delivered indices are exactly
    /// `position, position + 1, ...` in order.
    pub open spec fn wf(&self) -> bool {
        &&& self.spec_batch() >= 1
        &&& self.spec_workers() >= 1
        &&& self.spec_inflight() <= self.spec_workers()
        &&& self.spec_ready() <= self.spec_batch()
        &&& self.spec_position() <= self.spec_cursor()
        &&& self.spec_next_start() == self.spec_cursor() + self.spec_ready() + self.spec_inflight()
            * self.spec_batch()
        &&& (self.spec_cursor() + self.spec_ready() - self.spec_position()) % (
        self.spec_batch() as int) == 0
        &&& self.spec_history().len() == self.spec_cursor() - self.spec_position()
        &&& forall|i: int|
            0 <= i < self.spec_history().len() ==> #[trigger] self.spec_history()[i]
                == self.spec_position() + i
    }

    /// A fresh pipeline, about to dispatch its first batch at `position`.
    pub fn new(batch: usize, workers: usize, position: usize) -> (p: Pipeline)
        requires
            batch >= 1,
            workers >= 1,
        ensures
            p.wf(),
            p.spec_batch() == batch,
            p.spec_workers() == workers,
            p.spec_position() == position,
            p.spec_next_start() == position,
            p.spec_inflight() == 0,
            p.spec_ready() == 0,
            p.spec_cursor() == position,
            !p.spec_stopped(),
            p.spec_history().len() == 0,
    {
        proof {
            assert(0int * (batch as int) == 0 && 0int % (batch as int) == 0) by (nonlinear_arith)
                requires
                    batch >= 1,
            ;
        }
        Pipeline {
            batch,
            workers,
            position,
            next_start: position,
            inflight: 0,
            ready: 0,
            cursor: position,
            stopped: false,
            history: Ghost(Seq::empty()),
        }
    }

    /// Whether one more batch may be dispatched: a worker slot is free, the
    /// stream is running, and the next start stays in range.
    pub fn can_dispatch(&self) -> (r: bool)
        requires
            self.wf(),
        ensures
            r == (self.spec_inflight() < self.spec_workers() && !self.spec_stopped()
                && self.spec_next_start() + self.spec_batch() <= usize::MAX),
    {
        self.inflight < self.workers && !self.stopped && self.next_start
            <= usize::MAX - self.batch
    }

    /// Dispatches the next batch: its start is the next one in the
    /// ascending sequence, and one more batch is in flight.
    pub fn dispatch(&mut self) -> (start: usize)
        requires
            old(self).wf(),
            !old(self).spec_stopped(),
            old(self).spec_inflight() < old(self).spec_workers(),
            old(self).spec_next_start() + old(self).spec_batch() <= usize::MAX,
        ensures
            final(self).wf(),
            start == old(self).spec_next_start(),
            final(self).spec_next_start() == old(self).spec_next_start() + old(self).spec_batch(),
            final(self).spec_inflight() == old(self).spec_inflight() + 1,
            final(self).spec_batch() == old(self).spec_batch(),
            final(self).spec_workers() == old(self).spec_workers(),
            final(self).spec_position() == old(self).spec_position(),
            final(self).spec_ready() == old(self).spec_ready(),
            final(self).spec_cursor() == old(self).spec_cursor(),
            final(self).spec_stopped() == old(self).spec_stopped(),
            final(self).spec_history() == old(self).spec_history(),
    {
        proof {
            let f = old(self).inflight as int;
            let b = old(self).batch as int;
            assert((f + 1) * b == f * b + b) by (nonlinear_arith);
        }
        let start = self.next_start;
        self.next_start = self.next_start + self.batch;
        self.inflight = self.inflight + 1;
        start
    }

    /// The start of the oldest in-flight batch: with submission-order
    /// consumption and a fully delivered front, it is exactly the delivery
    /// frontier, so its entries continue the index sequence without a gap.
    pub fn front_start(&self) -> (r: usize)
        requires
            self.wf(),
            self.spec_inflight() >= 1,
            self.spec_ready() == 0,
        ensures
            r == self.spec_cursor(),
    {
        proof {
            assert(self.next_start >= self.inflight * self.batch >= self.batch) by (
            nonlinear_arith)
                requires
                    self.next_start == self.cursor + self.ready + self.inflight * self.batch,
                    self.cursor >= 0,
                    self.ready >= 0,
                    self.inflight >= 1,
                    self.batch >= 1,
            ;
        }
        self.cursor
    }

    /// Consumes the oldest in-flight batch, whose fetch returned exactly
    /// `batch` entries: they become the ready entries at the delivery
    /// frontier.
    pub fn complete_front(&mut self, entries: usize)
        requires
            old(self).wf(),
            !old(self).spec_stopped(),
            old(self).spec_inflight() >= 1,
            old(self).spec_ready() == 0,
            entries == old(self).spec_batch(),
        ensures
            final(self).wf(),
            final(self).spec_ready() == old(self).spec_batch(),
            final(self).spec_inflight() == old(self).spec_inflight() - 1,
            final(self).spec_batch() == old(self).spec_batch(),
            final(self).spec_workers() == old(self).spec_workers(),
            final(self).spec_position() == old(self).spec_position(),
            final(self).spec_next_start() == old(self).spec_next_start(),
            final(self).spec_cursor() == old(self).spec_cursor(),
            final(self).spec_stopped() == old(self).spec_stopped(),
            final(self).spec_history() == old(self).spec_history(),
    {
        proof {
            let b = old(self).batch as int;
            let f = old(self).inflight as int;
            assert(f * b == b + (f - 1) * b) by (nonlinear_arith);
            let c = old(self).cursor as int;
            let pos = old(self).position as int;
            assert((c - pos) % b == 0 ==> (c + b - pos) % b == 0) by (nonlinear_arith)
                requires
                    b >= 1,
            ;
        }
        self.ready = entries;
        self.inflight = self.inflight - 1;
    }

    /// Delivers one entry of the ready front batch: its index is the
    /// cursor, and the cursor moves up by one.
    pub fn deliver(&mut self) -> (index: usize)
        requires
            old(self).wf(),
            !old(self).spec_stopped(),
            old(self).spec_ready() >= 1,
        ensures
            final(self).wf(),
            index == old(self).spec_cursor(),
            final(self).spec_cursor() == old(self).spec_cursor() + 1,
            final(self).spec_ready() == old(self).spec_ready() - 1,
            final(self).spec_batch() == old(self).spec_batch(),
            final(self).spec_workers() == old(self).spec_workers(),
            final(self).spec_position() == old(self).spec_position(),
            final(self).spec_next_start() == old(self).spec_next_start(),
            final(self).spec_inflight() == old(self).spec_inflight(),
            final(self).spec_stopped() == old(self).spec_stopped(),
            final(self).spec_history() == old(self).spec_history().push(
                old(self).spec_cursor() as int,
            ),
    {
        proof {
            assert(self.inflight * self.batch >= 0) by (nonlinear_arith)
                requires
                    self.inflight >= 0,
                    self.batch >= 0,
            ;
        }
        let index = self.cursor;
        self.cursor = self.cursor + 1;
        self.ready = self.ready - 1;
        proof {
            self.history@ = self.history@.push(index as int);
        }
        index
    }

    /// Stops the stream: the handler asked for no more entries.
    pub fn stop(&mut self)
        requires
            old(self).wf(),
        ensures
            final(self).wf(),
            final(self).spec_stopped(),
            final(self).spec_batch() == old(self).spec_batch(),
            final(self).spec_workers() == old(self).spec_workers(),
            final(self).spec_position() == old(self).spec_position(),
            final(self).spec_next_start() == old(self).spec_next_start(),
            final(self).spec_inflight() == old(self).spec_inflight(),
            final(self).spec_ready() == old(self).spec_ready(),
            final(self).spec_cursor() == old(self).spec_cursor(),
            final(self).spec_history() == old(self).spec_history(),
    {
        self.stopped = true;
    }

    /// How many batches are in flight.
    pub fn in_flight(&self) -> (r: usize)
        ensures
            r == self.spec_inflight(),
    {
        self.inflight
    }

    /// How many entries of the front batch await delivery.
    pub fn ready(&self) -> (r: usize)
        ensures
            r == self.spec_ready(),
    {
        self.ready
    }

    /// Whether the handler has stopped the stream.
    pub fn is_stopped(&self) -> (r: bool)
        ensures
            r == self.spec_stopped(),
    {
        self.stopped
    }
}

/// Ordering: whatever the interleaving of dispatches, completions, and
/// deliveries, the delivered indices form a strictly increasing sequence
/// that starts at the stream's starting position and has no gaps.
pub proof fn lemma_delivery_ordered(p: Pipeline)
    requires
        p.wf(),
    ensures
        forall|i: int, j: int|
            0 <= i < j < p.spec_history().len() ==> p.spec_history()[i] < p.spec_history()[j],
        p.spec_history().len() > 0 ==> p.spec_history()[0] == p.spec_position(),
        forall|i: int|
            0 <= i < p.spec_history().len() ==> #[trigger] p.spec_history()[i]
                == p.spec_position() + i,
{
}

/// Concurrency bound: at no moment are more than `workers` batches in
/// flight.
pub proof fn lemma_concurrency_bound(p: Pipeline)
    requires
        p.wf(),
    ensures
        p.spec_inflight() <= p.spec_workers(),
{
}

/// One batch fetch: the accumulation of short reads into exactly `batch`
/// entries covering `[start, start + batch)`.
pub struct BatchFetch {
    start: usize,
    batch: usize,
    entries: Vec<Entry>,
}

impl BatchFetch {
    /// The batch's first index.
    pub closed spec fn spec_start(&self) -> usize {
        self.start
    }

    /// The batch's size.
    pub closed spec fn spec_batch(&self) -> usize {
        self.batch
    }

    /// The entries collected so far, in arrival order.
    pub closed spec fn spec_entries(&self) -> Seq<Entry> {
        self.entries@
    }

    /// The fetch's invariant: never more than `batch` entries.
    pub open spec fn wf(&self) -> bool {
        &&& self.spec_batch() >= 1
        &&& self.spec_start() + self.spec_batch() <= usize::MAX
        &&& self.spec_entries().len() <= self.spec_batch()
    }

    /// Whether exactly `batch` entries have been collected.
    pub open spec fn spec_done(&self) -> bool {
        self.spec_entries().len() == self.spec_batch()
    }

    /// A fresh fetch for the batch starting at `start`.
    pub fn new(start: usize, batch: usize) -> (t: BatchFetch)
        requires
            batch >= 1,
            start + batch <= usize::MAX,
        ensures
            t.wf(),
            t.spec_start() == start,
            t.spec_batch() == batch,
            t.spec_entries().len() == 0,
    {
        BatchFetch { start, batch, entries: Vec::new() }
    }

    /// The request that continues this fetch: ask for what is still missing,
    /// starting right after what was collected.
    pub fn next_request(&self) -> (r: (usize, usize))
        requires
            self.wf(),
            !self.spec_done(),
        ensures
            r.0 == self.spec_start() + self.spec_entries().len(),
            r.1 == self.spec_batch() - self.spec_entries().len(),
            r.0 + r.1 == self.spec_start() + self.spec_batch(),
            r.1 >= 1,
    {
        (self.start + self.entries.len(), self.batch - self.entries.len())
    }

    /// Absorbs one non-empty short read: the entries are appended in
    /// arrival order; a server never hands back more than was asked.
    pub fn absorb(&mut self, got: Vec<Entry>)
        requires
            old(self).wf(),
            !old(self).spec_done(),
            got@.len() >= 1,
            got@.len() <= old(self).spec_batch() - old(self).spec_entries().len(),
        ensures
            final(self).wf(),
            final(self).spec_start() == old(self).spec_start(),
            final(self).spec_batch() == old(self).spec_batch(),
            final(self).spec_entries() == old(self).spec_entries() + got@,
    {
        let mut got = got;
        self.entries.append(&mut got);
    }

    /// Whether exactly `batch` entries have been collected.
    pub fn is_done(&self) -> (r: bool)
        requires
            self.wf(),
        ensures
            r == self.spec_done(),
    {
        self.entries.len() == self.batch
    }

    /// Hands the collected entries out.
    pub fn into_entries(self) -> (r: Vec<Entry>)
        ensures
            r@ == self.spec_entries(),
    {
        self.entries
    }
}

/// Exactness: a finished fetch holds exactly `batch` entries, however short
/// the reads that filled it were, so the batch covering `[start, start +
/// batch)` emits exactly `batch` entries before the next batch begins.
pub proof fn lemma_batch_exactness(t: BatchFetch)
    requires
        t.wf(),
        t.spec_done(),
    ensures
        t.spec_entries().len() == t.spec_batch(),
{
}

} // verus!
