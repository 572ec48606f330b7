//! The retry queue: the time-ordered holding area for batches that failed
//! transiently and are awaiting a backoff-eligible resubmission. It always
//! serves the entry with the smallest `retry_at` first; ties are broken
//! arbitrarily.

use vstd::prelude::*;

use crate::batch::Batch;

verus! {

/// A batch that failed a submission attempt, together with the earliest
/// time (nanoseconds since the Unix epoch) at which it may be retried.
pub struct FailedBatch {
    pub batch: Batch,
    pub retry_at: u128,
}

/// A min-priority queue of failed batches keyed by `retry_at`.
///
/// Entries are held in an unordered vector; lookup and removal always
/// select an entry with the globally smallest `retry_at`.
pub struct RetryQueue {
    items: Vec<FailedBatch>,
}

impl View for RetryQueue {
    type V = Seq<FailedBatch>;

    closed spec fn view(&self) -> Seq<FailedBatch> {
        self.items@
    }
}

impl RetryQueue {
    /// A fresh, empty queue.
    pub fn new() -> (q: RetryQueue)
        ensures
            q@.len() == 0,
    {
        RetryQueue { items: Vec::new() }
    }

    /// The number of pending failed batches.
    pub fn len(&self) -> (n: usize)
        ensures
            n == self@.len(),
    {
        self.items.len()
    }

    /// Enqueue a failed batch.
    pub fn push(&mut self, fb: FailedBatch)
        ensures
            final(self)@ == old(self)@.push(fb),
    {
        self.items.push(fb);
    }

    /// The smallest `retry_at` among the pending batches, if any.
    pub fn min_retry_at(&self) -> (r: Option<u128>)
        ensures
            r is None <==> self@.len() == 0,
            r matches Some(m) ==> {
                &&& exists|j: int| 0 <= j < self@.len() && self@[j].retry_at == m
                &&& forall|j: int| 0 <= j < self@.len() ==> self@[j].retry_at >= m
            },
    {
        if self.items.len() == 0 {
            None
        } else {
            let i = self.min_index();
            Some(self.items[i].retry_at)
        }
    }

    /// Remove and return a pending batch with the smallest `retry_at`.
    pub fn pop_earliest(&mut self) -> (r: FailedBatch)
        requires
            old(self)@.len() > 0,
        ensures
            final(self)@.len() == old(self)@.len() - 1,
            exists|i: int|
                0 <= i < old(self)@.len() && r == old(self)@[i] && final(self)@ == old(
                    self,
                )@.remove(i),
            forall|j: int| 0 <= j < old(self)@.len() ==> old(self)@[j].retry_at >= r.retry_at,
    {
        let i = self.min_index();
        self.items.remove(i)
    }

    /// Remove and return an arbitrary pending batch. Used only by the
    /// forced drain of an explicit flush, where `retry_at` is ignored.
    pub fn pop_any(&mut self) -> (r: FailedBatch)
        requires
            old(self)@.len() > 0,
        ensures
            final(self)@.len() == old(self)@.len() - 1,
            r == old(self)@.last(),
            final(self)@ == old(self)@.drop_last(),
    {
        let r = self.items.pop();
        match r {
            Some(fb) => fb,
            None => unreached(),
        }
    }

    /// An index of an entry with the smallest `retry_at`.
    fn min_index(&self) -> (i: usize)
        requires
            self@.len() > 0,
        ensures
            i < self@.len(),
            forall|j: int| 0 <= j < self@.len() ==> self@[j].retry_at >= self@[i as int].retry_at,
    {
        let mut best: usize = 0;
        let n = self.items.len();
        let mut k: usize = 1;
        while k < n
            invariant
                n == self@.len(),
                0 < n,
                best < k,
                k <= n,
                forall|j: int| 0 <= j < k ==> self@[j].retry_at >= self@[best as int].retry_at,
            decreases n - k,
        {
            if self.items[k].retry_at < self.items[best].retry_at {
                best = k;
            }
            k = k + 1;
        }
        best
    }
}

} // verus!
