//! The dispatcher core: the single logical worker that owns the open
//! batch and the retry queue, decides when a submission is due, applies
//! the failure policy with exponential backoff, and drives the forced
//! drain of an explicit flush.
//!
//! The dispatcher never performs I/O itself. The surrounding shell feeds
//! it messages and clock readings, carries out the `Post` actions it
//! returns, and reports each outcome back through `on_outcome`.

use vstd::prelude::*;

use crate::FailurePolicy;
use crate::batch::Batch;
use crate::batch::LogEntry;
use crate::batch::clone_labels;
use crate::queue::FailedBatch;
use crate::queue::RetryQueue;
use crate::submit::EncodedPayload;
use crate::submit::SubmitError;
use crate::submit::encoded_payload_ok;
use crate::submit::prepare_payload;
use crate::submit::spec_is_retryable;

verus! {

/// The messages producers send to the dispatcher: a captured log line
/// with its timestamp, or a request to flush everything now.
#[derive(Clone, Debug)]
pub enum LokiTaskMsg {
    Log(u128, String),
    Flush,
}

/// Two to the power `k`.
pub open spec fn pow2n(k: nat) -> nat
    decreases k,
{
    if k == 0 {
        1
    } else {
        2 * pow2n((k - 1) as nat)
    }
}

/// The backoff before retry number `k` (counted from 1): `2^k` seconds
/// in nanoseconds, saturated at the largest representable time.
pub open spec fn spec_backoff_nanos(k: nat) -> nat {
    if pow2n(k) * 1_000_000_000 <= u128::MAX {
        pow2n(k) * 1_000_000_000
    } else {
        u128::MAX as nat
    }
}

/// The time at which a batch failing for the `k`-th time at `now`
/// becomes eligible again: `now + 2^k` seconds, saturated.
pub open spec fn spec_retry_at(now: u128, k: nat) -> u128 {
    if now + spec_backoff_nanos(k) <= u128::MAX {
        (now + spec_backoff_nanos(k)) as u128
    } else {
        u128::MAX
    }
}

pub proof fn lemma_pow2n_pos(k: nat)
    ensures
        pow2n(k) >= 1,
    decreases k,
{
    if k > 0 {
        lemma_pow2n_pos((k - 1) as nat);
    }
}

pub proof fn lemma_pow2n_increases(j: nat, k: nat)
    requires
        j <= k,
    ensures
        pow2n(j) <= pow2n(k),
    decreases k,
{
    if j < k {
        lemma_pow2n_increases(j, (k - 1) as nat);
        lemma_pow2n_pos((k - 1) as nat);
    }
}

/// Backoff growth: as long as no saturation occurs, the delay before
/// retry `k` is exactly `2^k` seconds, strictly increasing in `k`.
pub proof fn lemma_backoff_strictly_increases(j: nat, k: nat)
    requires
        j < k,
        pow2n(k) * 1_000_000_000 <= u128::MAX,
    ensures
        spec_backoff_nanos(j) == pow2n(j) * 1_000_000_000,
        spec_backoff_nanos(k) == pow2n(k) * 1_000_000_000,
        spec_backoff_nanos(j) < spec_backoff_nanos(k),
{
    lemma_pow2n_increases(j, (k - 1) as nat);
    lemma_pow2n_pos((k - 1) as nat);
    assert(pow2n(k) == 2 * pow2n((k - 1) as nat));
    assert(pow2n(j) < pow2n(k));
    assert(pow2n(j) * 1_000_000_000 < pow2n(k) * 1_000_000_000) by (nonlinear_arith)
        requires
            pow2n(j) < pow2n(k),
    ;
}

/// Exponential backoff in nanoseconds, `2^failures` seconds, saturating.
fn backoff_nanos(failures: usize) -> (r: u128)
    ensures
        r as nat == spec_backoff_nanos(failures as nat),
{
    let mut p: u128 = 1;
    let mut saturated: bool = false;
    for i in 0..failures
        invariant
            !saturated ==> p as nat == pow2n(i as nat),
            saturated ==> pow2n(i as nat) > u128::MAX,
    {
        if !saturated {
            match p.checked_mul(2) {
                Some(doubled) => {
                    p = doubled;
                },
                None => {
                    saturated = true;
                },
            }
        }
        proof {
            assert(pow2n(i as nat + 1) == 2 * pow2n(i as nat));
        }
    }
    if saturated {
        proof {
            assert(pow2n(failures as nat) * 1_000_000_000 > u128::MAX) by (nonlinear_arith)
                requires
                    pow2n(failures as nat) > u128::MAX,
            ;
        }
        u128::MAX
    } else {
        match p.checked_mul(1_000_000_000) {
            Some(nanos) => nanos,
            None => u128::MAX,
        }
    }
}

/// The eligibility time for retry number `failures` scheduled at `now`.
fn retry_at_from(now: u128, failures: usize) -> (r: u128)
    ensures
        r == spec_retry_at(now, failures as nat),
{
    let backoff = backoff_nanos(failures);
    match now.checked_add(backoff) {
        Some(at) => at,
        None => u128::MAX,
    }
}

/// What became of a batch whose submission failed.
pub enum DiagnosticKind {
    /// The failure was fatal, or the policy never retries: the batch was
    /// discarded.
    Dropped,
    /// The policy `Retry(n)` was out of attempts: the batch was
    /// discarded after failure number `n + 1`.
    BudgetExceeded(usize),
    /// The batch was re-enqueued for retry after failed attempt number
    /// `.0` (counted from 1).
    RetryScheduled(usize),
}

/// A caller-facing account of a failure, for the shell to report on the
/// process error stream. Failures never propagate to producers.
pub struct Diagnostic {
    /// How many log lines the affected batch held.
    pub batch_len: usize,
    /// The submission error that caused this.
    pub error: SubmitError,
    pub kind: DiagnosticKind,
}

/// What the shell must do next on behalf of the dispatcher.
pub enum Action {
    /// Nothing to submit.
    Nothing,
    /// POST this body to the endpoint, then report the outcome through
    /// `on_outcome`.
    Post(EncodedPayload),
    /// A batch was dropped before any request was made (its payload
    /// could not be prepared); the shell only reports the diagnostic.
    Dropped(Diagnostic),
}

/// Under the `Drop` policy, every retryable failure clears the batch at
/// once and the retry queue stays empty: it is part of the dispatcher's
/// invariant, which every step preserves.
pub proof fn lemma_drop_policy_queue_stays_empty(d: Dispatcher)
    requires
        d.inv_core(),
        d.failure_policy is Drop,
    ensures
        d.dlq@.len() == 0,
        d.draining@.len() == 0,
{
}

/// A queued failed batch is non-empty, internally consistent, counts at
/// least the failure that put it there, and never exceeds the retry
/// budget.
pub open spec fn queued_ok(policy: FailurePolicy, fb: FailedBatch) -> bool {
    &&& fb.batch.wf()
    &&& fb.batch.entries@.len() > 0
    &&& fb.batch.failure_count >= 1
    &&& (policy matches FailurePolicy::Retry(n) ==> fb.batch.failure_count <= n)
}

/// The dispatcher: the open batch, the retry queue, the batch whose
/// submission is currently in flight, and the backlog of a forced drain.
pub struct Dispatcher {
    /// The fixed label set every batch is submitted under.
    pub labels: Vec<(String, String)>,
    /// A submission is triggered once the open batch reaches this size.
    pub max_log_lines: usize,
    /// A submission is triggered once the open batch is older than this.
    pub max_log_lifetime_nanos: u128,
    pub failure_policy: FailurePolicy,
    /// Whether request bodies are gzip-compressed.
    pub compress: bool,
    /// The open batch.
    pub batch: Batch,
    /// Failed batches awaiting their backoff.
    pub dlq: RetryQueue,
    /// The batch handed out with the last `Post` action, until its
    /// outcome is reported.
    pub active: Option<Batch>,
    /// During a forced drain: the failed batches still owed one attempt.
    pub draining: RetryQueue,
}

impl Dispatcher {
    /// The dispatcher's internal consistency, except for the size bound
    /// on the open batch (which is momentarily exceeded while a full
    /// batch is being handed over for submission).
    pub open spec fn inv_core(self) -> bool {
        &&& self.max_log_lines >= 1
        &&& self.batch.wf()
        &&& self.batch.failure_count == 0
        &&& self.batch.labels@ == self.labels@
        &&& (self.active matches Some(b) ==> b.wf() && b.entries@.len() > 0)
        &&& (forall|i: int|
            0 <= i < self.dlq@.len() ==> queued_ok(self.failure_policy, #[trigger] self.dlq@[i]))
        &&& (forall|i: int|
            0 <= i < self.draining@.len() ==> queued_ok(
                self.failure_policy,
                #[trigger] self.draining@[i],
            ))
        &&& (self.failure_policy is Drop ==> self.dlq@.len() == 0 && self.draining@.len() == 0)
    }

    /// The stable invariant between dispatcher steps: the open batch has
    /// not yet reached the submission threshold.
    pub open spec fn wf(self) -> bool {
        &&& self.inv_core()
        &&& self.batch.entries@.len() < self.max_log_lines
    }

    /// The configuration never changes after construction.
    pub open spec fn same_config(self, other: Dispatcher) -> bool {
        &&& self.labels@ == other.labels@
        &&& self.max_log_lines == other.max_log_lines
        &&& self.max_log_lifetime_nanos == other.max_log_lifetime_nanos
        &&& self.failure_policy == other.failure_policy
        &&& self.compress == other.compress
    }

    /// A fresh dispatcher with an empty batch and an empty retry queue.
    pub fn new(
        labels: Vec<(String, String)>,
        max_log_lines: usize,
        max_log_lifetime_nanos: u128,
        failure_policy: FailurePolicy,
        compress: bool,
    ) -> (d: Dispatcher)
        requires
            labels@.len() > 0,
            max_log_lines >= 1,
        ensures
            d.wf(),
            d.labels == labels,
            d.max_log_lines == max_log_lines,
            d.max_log_lifetime_nanos == max_log_lifetime_nanos,
            d.failure_policy == failure_policy,
            d.compress == compress,
            d.batch.entries@.len() == 0,
            d.dlq@.len() == 0,
            d.active is None,
            d.draining@.len() == 0,
    {
        let batch_labels = clone_labels(&labels);
        Dispatcher {
            labels,
            max_log_lines,
            max_log_lifetime_nanos,
            failure_policy,
            compress,
            batch: Batch::new(batch_labels),
            dlq: RetryQueue::new(),
            active: None,
            draining: RetryQueue::new(),
        }
    }

    /// Swap the open batch for a fresh empty one and return it.
    fn take_batch(&mut self) -> (b: Batch)
        requires
            old(self).inv_core(),
        ensures
            final(self).inv_core(),
            b == old(self).batch,
            final(self).batch.entries@.len() == 0,
            final(self).batch.first_timestamp is None,
            final(self).batch.failure_count == 0,
            final(self).dlq == old(self).dlq,
            final(self).active == old(self).active,
            final(self).draining == old(self).draining,
            old(self).same_config(*final(self)),
    {
        let mut fresh = Batch::new(clone_labels(&self.labels));
        core::mem::swap(&mut self.batch, &mut fresh);
        fresh
    }

    /// Prepare the payload for a non-empty batch and hand it out for
    /// posting; on a (fatal) payload preparation failure the batch is
    /// dropped with a diagnostic and nothing is posted.
    fn start_submission(&mut self, b: Batch) -> (r: Action)
        requires
            old(self).inv_core(),
            old(self).active is None,
            b.wf(),
            b.entries@.len() > 0,
        ensures
            final(self).inv_core(),
            final(self).batch == old(self).batch,
            final(self).dlq == old(self).dlq,
            final(self).draining == old(self).draining,
            old(self).same_config(*final(self)),
            match r {
                Action::Post(p) => final(self).active == Some(b) && encoded_payload_ok(
                    p,
                    b.labels@,
                    b.entries@,
                    old(self).compress,
                ),
                Action::Dropped(d) => {
                    &&& final(self).active is None
                    &&& old(self).compress
                    &&& d.batch_len == b.entries@.len()
                    &&& d.error matches SubmitError::Compression(_)
                    &&& d.kind is Dropped
                },
                Action::Nothing => false,
            },
    {
        match prepare_payload(&b.labels, &b.entries, self.compress) {
            Ok(p) => {
                self.active = Some(b);
                Action::Post(p)
            },
            Err(e) => Action::Dropped(
                Diagnostic {
                    batch_len: b.entries.len(),
                    error: e,
                    kind: DiagnosticKind::Dropped,
                },
            ),
        }
    }

    /// Submit the open batch regardless of fullness. On an empty batch
    /// this does nothing at all, so a flush of an idle dispatcher
    /// signals completion without submitting anything.
    pub fn begin_submit(&mut self) -> (r: Action)
        requires
            old(self).inv_core(),
            old(self).active is None,
        ensures
            final(self).inv_core(),
            final(self).batch.entries@.len() == 0 || *final(self) == *old(self),
            final(self).dlq == old(self).dlq,
            final(self).draining == old(self).draining,
            old(self).same_config(*final(self)),
            old(self).batch.entries@.len() == 0 ==> r is Nothing && *final(self) == *old(self),
            old(self).batch.entries@.len() > 0 ==> {
                &&& final(self).batch.entries@.len() == 0
                &&& match r {
                    Action::Post(p) => final(self).active == Some(old(self).batch)
                        && encoded_payload_ok(
                        p,
                        old(self).labels@,
                        old(self).batch.entries@,
                        old(self).compress,
                    ),
                    Action::Dropped(d) => {
                        &&& final(self).active is None
                        &&& old(self).compress
                        &&& d.batch_len == old(self).batch.entries@.len()
                        &&& d.error matches SubmitError::Compression(_)
                        &&& d.kind is Dropped
                    },
                    Action::Nothing => false,
                }
            },
    {
        if self.batch.entries.len() == 0 {
            return Action::Nothing;
        }
        let b = self.take_batch();
        proof {
            assert(b.labels@ == old(self).labels@);
        }
        self.start_submission(b)
    }

    /// Accumulate one log line. Once the batch reaches `max_log_lines`
    /// entries, and exactly then, a submission attempt begins; the batch
    /// never holds more than `max_log_lines` entries awaiting
    /// submission.
    pub fn on_log(&mut self, timestamp: u128, line: String) -> (r: Action)
        requires
            old(self).wf(),
            old(self).active is None,
        ensures
            final(self).wf(),
            final(self).dlq == old(self).dlq,
            final(self).draining == old(self).draining,
            old(self).same_config(*final(self)),
            old(self).batch.entries@.len() + 1 < old(self).max_log_lines ==> {
                &&& r is Nothing
                &&& final(self).batch.entries@ == old(self).batch.entries@.push(
                    LogEntry { timestamp, line },
                )
                &&& final(self).active is None
            },
            old(self).batch.entries@.len() + 1 == old(self).max_log_lines ==> {
                &&& final(self).batch.entries@.len() == 0
                &&& match r {
                    Action::Post(p) => {
                        &&& final(self).active matches Some(b) && b.entries@ == old(
                            self,
                        ).batch.entries@.push(LogEntry { timestamp, line }) && b.labels@ == old(
                            self,
                        ).labels@ && b.failure_count == 0
                        &&& encoded_payload_ok(
                            p,
                            old(self).labels@,
                            old(self).batch.entries@.push(LogEntry { timestamp, line }),
                            old(self).compress,
                        )
                    },
                    Action::Dropped(d) => {
                        &&& final(self).active is None
                        &&& old(self).compress
                        &&& d.batch_len == old(self).max_log_lines
                        &&& d.error matches SubmitError::Compression(_)
                        &&& d.kind is Dropped
                    },
                    Action::Nothing => false,
                }
            },
    {
        self.batch.append(timestamp, line);
        if self.batch.is_full(self.max_log_lines) {
            self.begin_submit()
        } else {
            Action::Nothing
        }
    }

    /// How one failed submission is resolved: fatal failures and the
    /// `Drop` policy discard the batch and leave the retry queue alone
    /// (so under `Drop` the queue stays empty); within the budget of
    /// `Retry(n)` the batch is re-enqueued with its failure count
    /// incremented and `retry_at` exactly `now + 2^count` seconds; once
    /// the count would exceed `n`, the batch is discarded instead.
    pub open spec fn fail_resolved(
        pre: Dispatcher,
        post: Dispatcher,
        b: Batch,
        e: SubmitError,
        now: u128,
        r: Option<Diagnostic>,
    ) -> bool {
        if !spec_is_retryable(e) || pre.failure_policy is Drop {
            &&& post.dlq == pre.dlq
            &&& r matches Some(d) && d.batch_len == b.entries@.len() && d.error == e
                && d.kind is Dropped
        } else {
            match pre.failure_policy {
                FailurePolicy::Retry(n) => if !pre.failure_policy.spec_retries_again(
                    b.failure_count as nat + 1,
                ) {
                    &&& post.dlq == pre.dlq
                    &&& r matches Some(d) && d.batch_len == b.entries@.len() && d.error == e && (
                    d.kind matches DiagnosticKind::BudgetExceeded(m) && m == n)
                } else {
                    &&& post.dlq@.len() == pre.dlq@.len() + 1
                    &&& post.dlq@.take(pre.dlq@.len() as int) == pre.dlq@
                    &&& post.dlq@.last().batch.entries@ == b.entries@
                    &&& post.dlq@.last().batch.labels@ == b.labels@
                    &&& post.dlq@.last().batch.first_timestamp == b.first_timestamp
                    &&& post.dlq@.last().batch.failure_count == b.failure_count + 1
                    &&& post.dlq@.last().retry_at == spec_retry_at(
                        now,
                        b.failure_count as nat + 1,
                    )
                    &&& r matches Some(d) && d.batch_len == b.entries@.len() && d.error == e && (
                    d.kind matches DiagnosticKind::RetryScheduled(a) && a == b.failure_count + 1)
                },
                FailurePolicy::Drop => false,
            }
        }
    }

    /// Apply the failure policy to a batch whose submission failed.
    fn fail(&mut self, b: Batch, e: SubmitError, now: u128) -> (r: Option<Diagnostic>)
        requires
            old(self).inv_core(),
            b.wf(),
            b.entries@.len() > 0,
        ensures
            final(self).inv_core(),
            final(self).batch == old(self).batch,
            final(self).active == old(self).active,
            final(self).draining == old(self).draining,
            old(self).same_config(*final(self)),
            Dispatcher::fail_resolved(*old(self), *final(self), b, e, now, r),
    {
        let retryable = e.is_retryable();
        let batch_len = b.entries.len();
        let mut b = b;
        let max_attempts: usize = match &self.failure_policy {
            FailurePolicy::Drop => {
                return Some(
                    Diagnostic { batch_len, error: e, kind: DiagnosticKind::Dropped },
                );
            },
            FailurePolicy::Retry(n) => *n,
        };
        if !retryable {
            return Some(Diagnostic { batch_len, error: e, kind: DiagnosticKind::Dropped });
        }
        if b.failure_count >= max_attempts {
            return Some(
                Diagnostic {
                    batch_len,
                    error: e,
                    kind: DiagnosticKind::BudgetExceeded(max_attempts),
                },
            );
        }
        let attempt = b.failure_count + 1;
        b.failure_count = attempt;
        let retry_at = retry_at_from(now, attempt);
        self.dlq.push(FailedBatch { batch: b, retry_at });
        proof {
            assert(self.dlq@.take(old(self).dlq@.len() as int) =~= old(self).dlq@);
        }
        Some(Diagnostic { batch_len, error: e, kind: DiagnosticKind::RetryScheduled(attempt) })
    }

    /// Resolve the outstanding submission: on success the batch is gone
    /// for good; on failure the policy of `fail_resolved` applies.
    pub fn on_outcome(&mut self, outcome: Result<(), SubmitError>, now: u128) -> (r: Option<
        Diagnostic,
    >)
        requires
            old(self).inv_core(),
            old(self).active is Some,
        ensures
            final(self).inv_core(),
            final(self).active is None,
            final(self).batch == old(self).batch,
            final(self).draining == old(self).draining,
            old(self).same_config(*final(self)),
            match outcome {
                Ok(_) => final(self).dlq == old(self).dlq && r is None,
                Err(e) => old(self).active matches Some(b) && Dispatcher::fail_resolved(
                    *old(self),
                    *final(self),
                    b,
                    e,
                    now,
                    r,
                ),
            },
    {
        let mut taken: Option<Batch> = None;
        core::mem::swap(&mut self.active, &mut taken);
        let b = match taken {
            Some(b) => b,
            None => unreached(),
        };
        match outcome {
            Ok(()) => None,
            Err(e) => self.fail(b, e, now),
        }
    }

    /// Whether the idle check must submit the open batch: it is
    /// non-empty and has been open longer than `max_log_lifetime_nanos`.
    pub fn age_exceeded(&self, now: u128) -> (r: bool)
        requires
            self.inv_core(),
        ensures
            r == (self.batch.entries@.len() > 0 && self.batch.spec_age(now)
                > self.max_log_lifetime_nanos),
    {
        if self.batch.entries.len() == 0 {
            false
        } else {
            self.batch.age(now) > self.max_log_lifetime_nanos
        }
    }

    /// The idle check for the open batch: a non-empty batch that has
    /// been open longer than `max_log_lifetime_nanos` is submitted, even
    /// when no further entries arrive; otherwise nothing happens.
    pub fn on_idle_check(&mut self, now: u128) -> (r: Action)
        requires
            old(self).inv_core(),
            old(self).active is None,
        ensures
            final(self).inv_core(),
            final(self).dlq == old(self).dlq,
            final(self).draining == old(self).draining,
            old(self).same_config(*final(self)),
            !(old(self).batch.entries@.len() > 0 && old(self).batch.spec_age(now) > old(
                self,
            ).max_log_lifetime_nanos) ==> r is Nothing && *final(self) == *old(self),
            (old(self).batch.entries@.len() > 0 && old(self).batch.spec_age(now) > old(
                self,
            ).max_log_lifetime_nanos) ==> {
                &&& final(self).batch.entries@.len() == 0
                &&& match r {
                    Action::Post(p) => final(self).active == Some(old(self).batch)
                        && encoded_payload_ok(
                        p,
                        old(self).labels@,
                        old(self).batch.entries@,
                        old(self).compress,
                    ),
                    Action::Dropped(d) => {
                        &&& final(self).active is None
                        &&& old(self).compress
                        &&& d.batch_len == old(self).batch.entries@.len()
                        &&& d.error matches SubmitError::Compression(_)
                        &&& d.kind is Dropped
                    },
                    Action::Nothing => false,
                }
            },
    {
        if self.age_exceeded(now) {
            self.begin_submit()
        } else {
            Action::Nothing
        }
    }

    /// Attempt one backoff-eligible retry: if some queued batch is due
    /// (`retry_at <= now`), one with the smallest `retry_at` is removed
    /// and submitted; a batch whose `retry_at` lies in the future is
    /// never resubmitted here.
    pub fn begin_retry(&mut self, now: u128) -> (r: Action)
        requires
            old(self).inv_core(),
            old(self).active is None,
        ensures
            final(self).inv_core(),
            final(self).batch == old(self).batch,
            final(self).draining == old(self).draining,
            old(self).same_config(*final(self)),
            (forall|j: int| 0 <= j < old(self).dlq@.len() ==> old(self).dlq@[j].retry_at > now)
                ==> r is Nothing && *final(self) == *old(self),
            (exists|j: int|
                0 <= j < old(self).dlq@.len() && (#[trigger] old(self).dlq@[j]).retry_at <= now)
                ==> !(r is Nothing),
            r is Nothing ==> *final(self) == *old(self),
            !(r is Nothing) ==> exists|i: int|
                {
                    &&& 0 <= i < old(self).dlq@.len()
                    &&& (#[trigger] old(self).dlq@[i]).retry_at <= now
                    &&& (forall|j: int|
                        0 <= j < old(self).dlq@.len() ==> old(self).dlq@[j].retry_at >= old(
                            self,
                        ).dlq@[i].retry_at)
                    &&& final(self).dlq@ == old(self).dlq@.remove(i)
                    &&& match r {
                        Action::Post(p) => final(self).active == Some(old(self).dlq@[i].batch)
                            && encoded_payload_ok(
                            p,
                            old(self).dlq@[i].batch.labels@,
                            old(self).dlq@[i].batch.entries@,
                            old(self).compress,
                        ),
                        Action::Dropped(d) => {
                            &&& final(self).active is None
                            &&& old(self).compress
                            &&& d.batch_len == old(self).dlq@[i].batch.entries@.len()
                            &&& d.error matches SubmitError::Compression(_)
                            &&& d.kind is Dropped
                        },
                        Action::Nothing => false,
                    }
                },
    {
        let earliest = self.dlq.min_retry_at();
        match earliest {
            None => Action::Nothing,
            Some(at) => {
                if at > now {
                    Action::Nothing
                } else {
                    let ghost pre_dlq = self.dlq@;
                    let fb = self.dlq.pop_earliest();
                    let ghost i = choose|i: int|
                        0 <= i < pre_dlq.len() && fb == pre_dlq[i] && self.dlq@ == pre_dlq.remove(
                            i,
                        );
                    proof {
                        assert(0 <= i < pre_dlq.len() && fb == pre_dlq[i] && self.dlq@
                            == pre_dlq.remove(i));
                        assert(pre_dlq[i].retry_at <= now);
                    }
                    let act = self.start_submission(fb.batch);
                    proof {
                        assert({
                            &&& 0 <= i < old(self).dlq@.len()
                            &&& old(self).dlq@[i].retry_at <= now
                            &&& (forall|j: int|
                                0 <= j < old(self).dlq@.len() ==> old(self).dlq@[j].retry_at >= old(
                                    self,
                                ).dlq@[i].retry_at)
                            &&& self.dlq@ == old(self).dlq@.remove(i)
                            &&& match act {
                                Action::Post(p) => self.active == Some(old(self).dlq@[i].batch)
                                    && encoded_payload_ok(
                                    p,
                                    old(self).dlq@[i].batch.labels@,
                                    old(self).dlq@[i].batch.entries@,
                                    old(self).compress,
                                ),
                                Action::Dropped(d) => {
                                    &&& self.active is None
                                    &&& old(self).compress
                                    &&& d.batch_len == old(self).dlq@[i].batch.entries@.len()
                                    &&& d.error matches SubmitError::Compression(_)
                                    &&& d.kind is Dropped
                                },
                                Action::Nothing => false,
                            }
                        });
                    }
                    act
                }
            },
        }
    }

    /// Start the forced drain of an explicit flush: every batch pending
    /// in the retry queue at this moment is owed one submission attempt,
    /// regardless of its `retry_at`. Batches that fail again re-enter
    /// the (now empty) retry queue and are not drained twice.
    pub fn begin_forced_drain(&mut self)
        requires
            old(self).inv_core(),
            old(self).draining@.len() == 0,
        ensures
            final(self).inv_core(),
            final(self).draining@ == old(self).dlq@,
            final(self).dlq@.len() == 0,
            final(self).batch == old(self).batch,
            final(self).active == old(self).active,
            old(self).same_config(*final(self)),
    {
        core::mem::swap(&mut self.dlq, &mut self.draining);
    }

    /// Submit the next batch of the forced drain, if any is left. A
    /// `Nothing` result means the drain is complete; on an empty drain
    /// backlog the dispatcher is left untouched.
    pub fn next_forced(&mut self) -> (r: Action)
        requires
            old(self).inv_core(),
            old(self).active is None,
        ensures
            final(self).inv_core(),
            final(self).batch == old(self).batch,
            final(self).dlq == old(self).dlq,
            old(self).same_config(*final(self)),
            old(self).draining@.len() == 0 ==> r is Nothing && *final(self) == *old(self),
            old(self).draining@.len() > 0 ==> {
                &&& final(self).draining@ == old(self).draining@.drop_last()
                &&& match r {
                    Action::Post(p) => final(self).active == Some(
                        old(self).draining@.last().batch,
                    ) && encoded_payload_ok(
                        p,
                        old(self).draining@.last().batch.labels@,
                        old(self).draining@.last().batch.entries@,
                        old(self).compress,
                    ),
                    Action::Dropped(d) => {
                        &&& final(self).active is None
                        &&& old(self).compress
                        &&& d.batch_len == old(self).draining@.last().batch.entries@.len()
                        &&& d.error matches SubmitError::Compression(_)
                        &&& d.kind is Dropped
                    },
                    Action::Nothing => false,
                }
            },
    {
        if self.draining.len() == 0 {
            Action::Nothing
        } else {
            let fb = self.draining.pop_any();
            self.start_submission(fb.batch)
        }
    }
}

} // verus!
