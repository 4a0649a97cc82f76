use vstd::prelude::*;

use crate::models::InferenceLog;
use crate::queue::{enqueued, BoundedQueue};

verus! {

/// Seconds from `last` to `now`; zero when the clock reads earlier than `last`.
pub open spec fn elapsed(last: u64, now: u64) -> nat {
    if now >= last {
        (now - last) as nat
    } else {
        0
    }
}

/// Owns the pending-record queue and the time of the last flush. A flush
/// drains the whole queue into one batch; it happens at once when an enqueue
/// brings the queue to the batch size, and otherwise when the batch timeout
/// has passed since the last flush.
///
/// Times are whole seconds on a clock chosen by the caller.
pub struct FlushScheduler {
    queue: BoundedQueue,
    last_flush: u64,
    batch_size: usize,
    batch_timeout_secs: u64,
}

/// What one enqueue did: the record dropped on overflow, if any, and the
/// batch drained by the size trigger, if it fired.
pub struct Enqueued {
    pub dropped: Option<InferenceLog>,
    pub batch: Option<Vec<InferenceLog>>,
}

impl FlushScheduler {
    pub closed spec fn queue(&self) -> BoundedQueue {
        self.queue
    }

    pub closed spec fn last_flush(&self) -> u64 {
        self.last_flush
    }

    pub closed spec fn batch_size_spec(&self) -> nat {
        self.batch_size as nat
    }

    pub closed spec fn timeout_spec(&self) -> u64 {
        self.batch_timeout_secs
    }

    pub closed spec fn wf(&self) -> bool {
        self.queue.wf()
    }

    /// A well-formed scheduler holds a well-formed queue, so the queue's
    /// laws (its bound, and how drained batches partition the arrivals)
    /// apply to it.
    pub proof fn lemma_queue_wf(&self)
        requires
            self.wf(),
        ensures
            self.queue().wf(),
    {
    }

    /// Whether a flush that is not forced would drain at time `now`.
    pub open spec fn due(&self, now: u64) -> bool {
        elapsed(self.last_flush(), now) >= self.timeout_spec()
    }

    /// A scheduler with an empty queue of the given capacity, whose timeout is
    /// counted from `now`.
    pub fn new(queue_capacity: usize, batch_size: usize, batch_timeout_secs: u64, now: u64) -> (s: FlushScheduler)
        ensures
            s.wf(),
            s.queue()@ == Seq::<InferenceLog>::empty(),
            s.queue().capacity_spec() == queue_capacity,
            s.queue().ingested() == Seq::<InferenceLog>::empty(),
            s.queue().fate() == Seq::<bool>::empty(),
            s.queue().delivered() == Seq::<InferenceLog>::empty(),
            s.batch_size_spec() == batch_size,
            s.timeout_spec() == batch_timeout_secs,
            s.last_flush() == now,
    {
        FlushScheduler { queue: BoundedQueue::new(queue_capacity), last_flush: now, batch_size, batch_timeout_secs }
    }

    /// Number of pending records.
    pub fn len(&self) -> (n: usize)
        requires
            self.wf(),
        ensures
            n == self.queue()@.len(),
    {
        self.queue.len()
    }

    pub fn batch_size(&self) -> (n: usize)
        ensures
            n == self.batch_size_spec(),
    {
        self.batch_size
    }

    pub fn batch_timeout_secs(&self) -> (t: u64)
        ensures
            t == self.timeout_spec(),
    {
        self.batch_timeout_secs
    }

    pub fn last_flush_time(&self) -> (t: u64)
        ensures
            t == self.last_flush(),
    {
        self.last_flush
    }

    /// Drains the queue into a batch when it holds records and either `force`
    /// is set or the timeout has passed since the last flush; the flush time
    /// becomes `now`. Otherwise nothing changes and `None` is returned.
    pub fn flush(&mut self, force: bool, now: u64) -> (batch: Option<Vec<InferenceLog>>)
        requires
            old(self).wf(),
        ensures
            final(self).wf(),
            final(self).batch_size_spec() == old(self).batch_size_spec(),
            final(self).timeout_spec() == old(self).timeout_spec(),
            final(self).queue().capacity_spec() == old(self).queue().capacity_spec(),
            final(self).queue().ingested() == old(self).queue().ingested(),
            old(self).queue()@.len() > 0 && (force || old(self).due(now)) ==> {
                &&& batch matches Some(b) && b@ == old(self).queue()@
                &&& final(self).queue()@ == Seq::<InferenceLog>::empty()
                &&& final(self).queue().delivered() == old(self).queue().delivered() + old(self).queue()@
                &&& final(self).queue().fate() == old(self).queue().fate() + Seq::new(
                    old(self).queue()@.len(),
                    |i: int| true,
                )
                &&& final(self).last_flush() == now
            },
            !(old(self).queue()@.len() > 0 && (force || old(self).due(now))) ==> {
                &&& batch is None
                &&& *final(self) == *old(self)
            },
    {
        if self.queue.is_empty() {
            return None;
        }
        let due = if now >= self.last_flush {
            now - self.last_flush >= self.batch_timeout_secs
        } else {
            0 >= self.batch_timeout_secs
        };
        if force || due {
            let batch = self.queue.drain_all();
            self.last_flush = now;
            Some(batch)
        } else {
            None
        }
    }

    /// Appends `record` (dropping the oldest pending record if the queue is
    /// full). If the queue then holds at least the batch size, it is flushed
    /// in the same call and the batch is returned.
    pub fn enqueue(&mut self, record: InferenceLog, now: u64) -> (out: Enqueued)
        requires
            old(self).wf(),
        ensures
            final(self).wf(),
            final(self).batch_size_spec() == old(self).batch_size_spec(),
            final(self).timeout_spec() == old(self).timeout_spec(),
            final(self).queue().capacity_spec() == old(self).queue().capacity_spec(),
            final(self).queue().ingested() == old(self).queue().ingested().push(record),
            old(self).queue()@.len() < old(self).queue().capacity_spec() ==> out.dropped is None,
            old(self).queue()@.len() == old(self).queue().capacity_spec() > 0 ==> out.dropped == Some(
                old(self).queue()@[0],
            ),
            old(self).queue().capacity_spec() == 0 ==> out.dropped == Some(record),
            ({
                let after = enqueued(old(self).queue()@, old(self).queue().capacity_spec(), record);
                let fate_after = if old(self).queue()@.len() < old(self).queue().capacity_spec() {
                    old(self).queue().fate()
                } else {
                    old(self).queue().fate().push(false)
                };
                if after.len() >= old(self).batch_size_spec() && after.len() > 0 {
                    &&& out.batch matches Some(b) && b@ == after
                    &&& final(self).queue()@ == Seq::<InferenceLog>::empty()
                    &&& final(self).queue().delivered() == old(self).queue().delivered() + after
                    &&& final(self).queue().fate() == fate_after + Seq::new(after.len(), |i: int| true)
                    &&& final(self).last_flush() == now
                } else {
                    &&& out.batch is None
                    &&& final(self).queue()@ == after
                    &&& final(self).queue().delivered() == old(self).queue().delivered()
                    &&& final(self).queue().fate() == fate_after
                    &&& final(self).last_flush() == old(self).last_flush()
                }
            }),
    {
        proof {
            self.queue.lemma_size_within_capacity();
        }
        let dropped = self.queue.enqueue(record);
        let batch = if self.queue.len() >= self.batch_size {
            self.flush(true, now)
        } else {
            None
        };
        Enqueued { dropped, batch }
    }
}

/// Three records enqueued into an empty queue that can hold them all are
/// pending together, in arrival order, with none dropped.
pub proof fn lemma_three_records_pending(cap: nat, r1: InferenceLog, r2: InferenceLog, r3: InferenceLog)
    requires
        cap >= 3,
    ensures
        enqueued(enqueued(enqueued(Seq::empty(), cap, r1), cap, r2), cap, r3) == seq![r1, r2, r3],
{
    assert(enqueued(enqueued(enqueued(Seq::empty(), cap, r1), cap, r2), cap, r3) =~= seq![r1, r2, r3]);
}

} // verus!
