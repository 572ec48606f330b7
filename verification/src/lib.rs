//! A log-shipping pipeline core: log lines are batched, encoded into a
//! JSON push payload, optionally gzip-compressed, and handed to an HTTP
//! carrier for delivery to a log-aggregation endpoint. Failed submissions
//! are classified as fatal or retryable and retryable ones are kept in a
//! time-ordered retry queue with exponential backoff and a bounded budget.
//!
//! This crate holds the verified decision core: the batch accumulator,
//! the retry queue, the wire encoding, failure classification, and the
//! dispatcher state machine. The unverified shell around it (threads,
//! channels, the HTTP client, the clock) drives the state machine and
//! performs the actions it returns.

use vstd::prelude::*;

pub mod batch;
pub mod fmt;
pub mod logfmt;
pub mod payload;
pub mod queue;
pub mod submit;
pub mod task;

verus! {

/// The default maximum number of log lines a batch accumulates before a
/// submission is triggered.
pub const DEFAULT_MAX_LOG_LINES: usize = 4096;

/// The default maximum batch age in seconds before the idle check
/// submits a non-empty batch.
pub const DEFAULT_MAX_LOG_LIFETIME_SECS: u64 = 300;

/// The default retry budget: how many additional attempts a failed
/// batch is owed after its first failure.
pub const DEFAULT_MAX_RETRIES: usize = 6;

/// `FailurePolicy` specifies how retryable submission failures are handled.
#[derive(Clone, Debug, PartialEq, Eq, Structural)]
pub enum FailurePolicy {
    /// Log batches that fail to send are dropped.
    Drop,
    /// Log batches that fail to send are retried up to the given number
    /// of additional times on an exponential backoff curve, then dropped.
    Retry(usize),
}

impl FailurePolicy {
    /// Whether a batch whose submission has just failed for the
    /// `failures`-th time (counted from 1) is owed another attempt.
    pub open spec fn spec_retries_again(self, failures: nat) -> bool {
        match self {
            FailurePolicy::Drop => false,
            FailurePolicy::Retry(max_attempts) => failures <= max_attempts,
        }
    }

}

/// A batch that fails on every attempt under `Retry(n)` is re-enqueued on
/// failures 1 through `n` and dropped on failure `n + 1`: it receives
/// exactly `n + 1` submission attempts in total, never `n + 2`.
pub proof fn lemma_retry_budget(n: usize, k: nat)
    requires
        k >= 1,
    ensures
        FailurePolicy::Retry(n).spec_retries_again(k) <==> k <= n,
        !FailurePolicy::Retry(n).spec_retries_again(n as nat + 1),
{
}

} // verus!
