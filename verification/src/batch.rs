//! The batch accumulator: the ordered list of time-stamped log lines that
//! is currently open, together with the fixed label set it will be
//! submitted under, the timestamp of its first entry, and the number of
//! submission failures it has suffered so far.

use vstd::prelude::*;

verus! {

/// One captured log event: its timestamp in nanoseconds since the Unix
/// epoch and the already-formatted line.
pub struct LogEntry {
    pub timestamp: u128,
    pub line: String,
}

/// A batch of log lines sharing one fixed label set.
///
/// `first_timestamp` is set exactly once, on the first entry appended
/// after the batch was last cleared, and reset when the batch is cleared.
pub struct Batch {
    pub labels: Vec<(String, String)>,
    pub entries: Vec<LogEntry>,
    pub first_timestamp: Option<u128>,
    pub failure_count: usize,
}

impl Batch {
    /// `first_timestamp` tracks the entries: absent exactly when the batch
    /// is empty, and otherwise the timestamp of the oldest entry.
    pub open spec fn wf(self) -> bool {
        &&& self.first_timestamp is None <==> self.entries@.len() == 0
        &&& self.entries@.len() > 0 ==> self.first_timestamp == Some(
            self.entries@[0].timestamp,
        )
    }

    /// The age of the batch at time `now`: elapsed nanoseconds since its
    /// first entry, zero when empty or when the clock reads earlier than
    /// that entry.
    pub open spec fn spec_age(self, now: u128) -> u128 {
        match self.first_timestamp {
            Some(first) => if now >= first {
                (now - first) as u128
            } else {
                0
            },
            None => 0,
        }
    }

    /// A fresh, empty batch under the given label set.
    pub fn new(labels: Vec<(String, String)>) -> (b: Batch)
        ensures
            b.wf(),
            b.labels == labels,
            b.entries@.len() == 0,
            b.first_timestamp is None,
            b.failure_count == 0,
    {
        Batch { labels, entries: Vec::new(), first_timestamp: None, failure_count: 0 }
    }

    /// Append one entry, recording `first_timestamp` if it is not set yet.
    pub fn append(&mut self, timestamp: u128, line: String)
        requires
            old(self).wf(),
        ensures
            final(self).wf(),
            final(self).entries@ == old(self).entries@.push(
                LogEntry { timestamp, line },
            ),
            final(self).first_timestamp == if old(self).first_timestamp is Some {
                old(self).first_timestamp
            } else {
                Some(timestamp)
            },
            final(self).labels == old(self).labels,
            final(self).failure_count == old(self).failure_count,
    {
        self.entries.push(LogEntry { timestamp, line });
        if self.first_timestamp.is_none() {
            self.first_timestamp = Some(timestamp);
        }
    }

    /// Whether the batch has reached the configured maximum size.
    pub fn is_full(&self, max_log_lines: usize) -> (r: bool)
        ensures
            r == (self.entries@.len() >= max_log_lines),
    {
        self.entries.len() >= max_log_lines
    }

    /// The age of the batch at time `now`; zero for an empty batch.
    pub fn age(&self, now: u128) -> (r: u128)
        ensures
            r == self.spec_age(now),
    {
        match self.first_timestamp {
            Some(first) => if now >= first {
                now - first
            } else {
                0
            },
            None => 0,
        }
    }

    /// Empty the batch in place: entries are discarded and
    /// `first_timestamp` is reset; the label set is kept.
    pub fn clear(&mut self)
        ensures
            final(self).wf(),
            final(self).entries@.len() == 0,
            final(self).first_timestamp is None,
            final(self).labels == old(self).labels,
            final(self).failure_count == old(self).failure_count,
    {
        self.entries.clear();
        self.first_timestamp = None;
    }
}

/// A deep copy of a label set, pair by pair, with the same view.
pub fn clone_labels(labels: &Vec<(String, String)>) -> (r: Vec<(String, String)>)
    ensures
        r@ == labels@,
{
    let mut out: Vec<(String, String)> = Vec::new();
    let n = labels.len();
    for i in 0..n
        invariant
            n == labels@.len(),
            out@ =~= labels@.take(i as int),
    {
        let pair = &labels[i];
        out.push((pair.0.clone(), pair.1.clone()));
        proof {
            assert(out@ =~= labels@.take(i + 1 as int));
        }
    }
    proof {
        assert(labels@.take(n as int) =~= labels@);
    }
    out
}

} // verus!
