use vstd::prelude::*;

use crate::models::InferenceLog;

verus! {

/// The elements of `s` whose position is marked `true` in `fate`, in order.
pub open spec fn kept<T>(s: Seq<T>, fate: Seq<bool>) -> Seq<T>
    decreases s.len(),
{
    if s.len() == 0 {
        Seq::empty()
    } else {
        let prev = kept(s.drop_last(), fate);
        if fate[s.len() - 1] {
            prev.push(s.last())
        } else {
            prev
        }
    }
}

/// `kept` reads `fate` only at the positions of `s`.
pub proof fn lemma_kept_prefix<T>(s: Seq<T>, f1: Seq<bool>, f2: Seq<bool>)
    requires
        forall|i: int| 0 <= i < s.len() ==> f1[i] == f2[i],
    ensures
        kept(s, f1) == kept(s, f2),
    decreases s.len(),
{
    if s.len() > 0 {
        lemma_kept_prefix(s.drop_last(), f1, f2);
    }
}

/// Extending `s` by `t` with every new position marked `true` keeps all of `t`.
pub proof fn lemma_kept_append_all<T>(s: Seq<T>, t: Seq<T>, fate: Seq<bool>)
    requires
        fate.len() == s.len() + t.len(),
        forall|i: int| s.len() <= i < fate.len() ==> fate[i],
    ensures
        kept(s + t, fate) == kept(s, fate) + t,
    decreases t.len(),
{
    if t.len() == 0 {
        assert(s + t =~= s);
        assert(kept(s, fate) + t =~= kept(s, fate));
    } else {
        let t0 = t.drop_last();
        let f0 = fate.take(fate.len() - 1);
        lemma_kept_append_all(s, t0, f0);
        assert((s + t).drop_last() =~= s + t0);
        lemma_kept_prefix(s + t0, f0, fate);
        lemma_kept_prefix(s, f0, fate);
        assert(kept(s, fate) + t =~= (kept(s, fate) + t0).push(t.last()));
    }
}

/// The pending records after enqueuing `r` into `s` under capacity `cap`:
/// `r` goes to the tail, and when `s` is full its oldest record goes.
pub open spec fn enqueued(s: Seq<InferenceLog>, cap: nat, r: InferenceLog) -> Seq<InferenceLog> {
    if s.len() < cap {
        s.push(r)
    } else if cap == 0 {
        Seq::empty()
    } else {
        s.drop_first().push(r)
    }
}

/// A FIFO buffer of pending records with a fixed capacity. When full, the
/// oldest record is dropped to make room for a new one.
///
/// Besides the pending records it keeps, as ghost state, every record ever
/// enqueued, the fate of each record that has left (drained or dropped) and
/// the concatenation of all drained batches.
pub struct BoundedQueue {
    items: Vec<InferenceLog>,
    capacity: usize,
    ingested: Ghost<Seq<InferenceLog>>,
    fate: Ghost<Seq<bool>>,
    delivered: Ghost<Seq<InferenceLog>>,
}

impl View for BoundedQueue {
    type V = Seq<InferenceLog>;

    closed spec fn view(&self) -> Seq<InferenceLog> {
        self.items@
    }
}

impl BoundedQueue {
    /// The fixed bound on the number of pending records.
    pub closed spec fn capacity_spec(&self) -> nat {
        self.capacity as nat
    }

    /// Every record ever enqueued, in order of arrival.
    pub closed spec fn ingested(&self) -> Seq<InferenceLog> {
        self.ingested@
    }

    /// For each record that has left the queue, in order of arrival:
    /// `true` if it left in a drained batch, `false` if it was dropped.
    pub closed spec fn fate(&self) -> Seq<bool> {
        self.fate@
    }

    /// All drained batches, concatenated in the order they were drained.
    pub closed spec fn delivered(&self) -> Seq<InferenceLog> {
        self.delivered@
    }

    pub closed spec fn wf(&self) -> bool {
        &&& self.items@.len() <= self.capacity
        &&& self.fate@.len() + self.items@.len() == self.ingested@.len()
        &&& self.items@ == self.ingested@.skip(self.fate@.len() as int)
        &&& self.delivered@ == kept(self.ingested@.take(self.fate@.len() as int), self.fate@)
    }

    /// An empty queue that holds at most `capacity` records.
    pub fn new(capacity: usize) -> (q: BoundedQueue)
        ensures
            q.wf(),
            q@ == Seq::<InferenceLog>::empty(),
            q.capacity_spec() == capacity,
            q.ingested() == Seq::<InferenceLog>::empty(),
            q.fate() == Seq::<bool>::empty(),
            q.delivered() == Seq::<InferenceLog>::empty(),
    {
        let q = BoundedQueue {
            items: Vec::new(),
            capacity,
            ingested: Ghost(Seq::empty()),
            fate: Ghost(Seq::empty()),
            delivered: Ghost(Seq::empty()),
        };
        assert(q.items@ =~= q.ingested@.skip(0));
        q
    }

    /// Number of pending records.
    pub fn len(&self) -> (n: usize)
        ensures
            n == self@.len(),
    {
        self.items.len()
    }

    pub fn is_empty(&self) -> (b: bool)
        ensures
            b == (self@.len() == 0),
    {
        self.items.len() == 0
    }

    pub fn capacity(&self) -> (c: usize)
        ensures
            c == self.capacity_spec(),
    {
        self.capacity
    }

    /// Appends `record` at the tail. If the queue is already full, the oldest
    /// pending record is removed first and returned (with a capacity of zero
    /// the new record itself is dropped and returned).
    pub fn enqueue(&mut self, record: InferenceLog) -> (dropped: Option<InferenceLog>)
        requires
            old(self).wf(),
        ensures
            final(self).wf(),
            final(self).capacity_spec() == old(self).capacity_spec(),
            final(self).ingested() == old(self).ingested().push(record),
            final(self).delivered() == old(self).delivered(),
            final(self)@ == enqueued(old(self)@, old(self).capacity_spec(), record),
            old(self)@.len() < old(self).capacity_spec() ==> {
                &&& dropped is None
                &&& final(self)@ == old(self)@.push(record)
                &&& final(self).fate() == old(self).fate()
            },
            old(self)@.len() == old(self).capacity_spec() > 0 ==> {
                &&& dropped == Some(old(self)@[0])
                &&& final(self)@ == old(self)@.drop_first().push(record)
                &&& final(self).fate() == old(self).fate().push(false)
            },
            old(self).capacity_spec() == 0 ==> {
                &&& dropped == Some(record)
                &&& final(self)@ == Seq::<InferenceLog>::empty()
                &&& final(self).fate() == old(self).fate().push(false)
            },
    {
        let ghost pre_ingested = self.ingested@;
        let ghost pre_fate = self.fate@;
        let ghost n = pre_fate.len() as int;
        if self.items.len() < self.capacity {
            self.items.push(record);
            self.ingested = Ghost(pre_ingested.push(record));
            proof {
                assert(self.items@ =~= self.ingested@.skip(n));
                assert(self.ingested@.take(n) =~= pre_ingested.take(n));
            }
            None
        } else if self.capacity == 0 {
            self.ingested = Ghost(pre_ingested.push(record));
            self.fate = Ghost(pre_fate.push(false));
            proof {
                let s = pre_ingested.take(n);
                assert(self.ingested@.take(n + 1).drop_last() =~= s);
                lemma_kept_prefix(s, pre_fate, self.fate@);
                assert(self.items@ =~= self.ingested@.skip(n + 1));
            }
            Some(record)
        } else {
            let oldest = self.items.remove(0);
            self.items.push(record);
            self.ingested = Ghost(pre_ingested.push(record));
            self.fate = Ghost(pre_fate.push(false));
            proof {
                let s = pre_ingested.take(n);
                assert(self.ingested@.take(n + 1).drop_last() =~= s);
                lemma_kept_prefix(s, pre_fate, self.fate@);
                assert(self.items@ =~= self.ingested@.skip(n + 1));
            }
            Some(oldest)
        }
    }

    /// Removes and returns every pending record, oldest first, leaving the
    /// queue empty.
    pub fn drain_all(&mut self) -> (batch: Vec<InferenceLog>)
        requires
            old(self).wf(),
        ensures
            final(self).wf(),
            batch@ == old(self)@,
            final(self)@ == Seq::<InferenceLog>::empty(),
            final(self).capacity_spec() == old(self).capacity_spec(),
            final(self).ingested() == old(self).ingested(),
            final(self).fate() == old(self).fate() + Seq::new(old(self)@.len(), |i: int| true),
            final(self).delivered() == old(self).delivered() + old(self)@,
    {
        let mut batch: Vec<InferenceLog> = Vec::new();
        std::mem::swap(&mut batch, &mut self.items);
        let ghost pre_fate = self.fate@;
        let ghost n = pre_fate.len() as int;
        let ghost m = batch@.len() as int;
        self.fate = Ghost(pre_fate + Seq::new(m as nat, |i: int| true));
        self.delivered = Ghost(self.delivered@ + batch@);
        proof {
            let s = self.ingested@.take(n);
            assert(self.ingested@.take(n + m) =~= s + batch@);
            lemma_kept_prefix(s, pre_fate, self.fate@);
            lemma_kept_append_all(s, batch@, self.fate@);
            assert(self.items@ =~= self.ingested@.skip(n + m));
        }
        batch
    }

    /// The number of pending records never exceeds the capacity.
    pub proof fn lemma_size_within_capacity(&self)
        requires
            self.wf(),
        ensures
            self@.len() <= self.capacity_spec(),
    {
    }

    /// Every record that has ever been enqueued has exactly one place: it is
    /// still pending, or it has left in a drained batch, or it was dropped on
    /// overflow. The drained batches, concatenated in drain order, are exactly
    /// the records that were not dropped and are no longer pending, in the
    /// order they arrived; the pending records are the most recent arrivals.
    pub proof fn lemma_drains_partition_ingestion(&self)
        requires
            self.wf(),
        ensures
            self.fate().len() + self@.len() == self.ingested().len(),
            self@ == self.ingested().skip(self.fate().len() as int),
            self.delivered() == kept(self.ingested().take(self.fate().len() as int), self.fate()),
    {
    }
}

} // verus!
