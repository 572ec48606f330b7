use loki_logger::FailurePolicy;
use loki_logger::submit::EncodedPayload;
use loki_logger::submit::SubmitError;
use loki_logger::task::Action;
use loki_logger::task::DiagnosticKind;
use loki_logger::task::Dispatcher;

const SECOND: u128 = 1_000_000_000;

fn labels() -> Vec<(String, String)> {
    vec![(String::from("app"), String::from("x"))]
}

fn dispatcher(max_lines: usize, max_age: u128, policy: FailurePolicy) -> Dispatcher {
    Dispatcher::new(labels(), max_lines, max_age, policy, false)
}

fn body_of(action: Action) -> String {
    match action {
        Action::Post(EncodedPayload::Plain(s)) => s,
        _ => panic!("expected a plain posted body"),
    }
}

fn status(code: u16) -> Result<(), SubmitError> {
    Err(SubmitError::Status(code, String::from("status")))
}

#[test]
fn batch_submits_exactly_at_max_size() {
    // maxBatchSize = 4096 with default-style labels: 4096 entries give
    // exactly one submission holding all 4096 pairs.
    let mut d = dispatcher(4096, 300 * SECOND, FailurePolicy::Retry(6));
    let mut posts = 0;
    let mut last_body = String::new();
    for i in 0..4096u32 {
        match d.on_log(i as u128, format!("line{}", i)) {
            Action::Nothing => {
                assert!(i < 4095);
            }
            Action::Post(EncodedPayload::Plain(s)) => {
                posts += 1;
                last_body = s;
            }
            _ => panic!("unexpected action"),
        }
    }
    assert_eq!(posts, 1);
    assert_eq!(d.batch.entries.len(), 0);
    // 4096 value pairs: 4095 separators between them.
    assert_eq!(last_body.matches("],[").count(), 4095);
    assert!(last_body.starts_with("{\"streams\":[{\"stream\":{\"app\":\"x\"},\"values\":[[\"0\",\"line0\"]"));
    assert!(last_body.ends_with("[\"4095\",\"line4095\"]]}]}"));
    let _ = d.on_outcome(Ok(()), 0);
    assert_eq!(d.dlq.len(), 0);
}

#[test]
fn two_entries_fire_immediately_at_max_two() {
    // The submission fires on the second entry, before any flush or
    // age trigger.
    let mut d = dispatcher(2, 300 * SECOND, FailurePolicy::Retry(6));
    let t: u128 = 1_700_000_000 * SECOND;
    assert!(matches!(d.on_log(t, String::from("a")), Action::Nothing));
    let body = body_of(d.on_log(t + 1, String::from("b")));
    assert_eq!(
        body,
        format!(
            "{{\"streams\":[{{\"stream\":{{\"app\":\"x\"}},\"values\":[[\"{}\",\"a\"],[\"{}\",\"b\"]]}}]}}",
            t,
            t + 1
        )
    );
    assert_eq!(d.batch.entries.len(), 0);
}

#[test]
fn aged_single_entry_submits_on_idle_check() {
    // maxBatchAge = 1s: one entry, then silence for more than a second.
    let mut d = dispatcher(4096, SECOND, FailurePolicy::Retry(6));
    let t: u128 = 10 * SECOND;
    assert!(matches!(d.on_log(t, String::from("only")), Action::Nothing));
    assert!(!d.age_exceeded(t));
    assert!(!d.age_exceeded(t + SECOND));
    assert!(matches!(d.on_idle_check(t + SECOND), Action::Nothing));
    assert!(d.age_exceeded(t + SECOND + 1));
    let body = body_of(d.on_idle_check(t + SECOND + 1));
    assert!(body.contains("\"only\""));
    assert_eq!(d.batch.entries.len(), 0);
    let _ = d.on_outcome(Ok(()), t + SECOND + 1);
}

#[test]
fn age_is_zero_for_empty_batch() {
    let mut d = dispatcher(10, SECOND, FailurePolicy::Drop);
    assert!(!d.age_exceeded(u128::MAX));
    // An empty batch never submits either.
    assert!(matches!(d.begin_submit(), Action::Nothing));
}

#[test]
fn repeated_server_errors_exhaust_the_retry_budget() {
    // Policy Retry(2), the server answers 503 every time: backoff of
    // +2s, then +4s, then the batch is dropped on the third failure.
    let mut d = dispatcher(1, 300 * SECOND, FailurePolicy::Retry(2));
    let t0: u128 = 100 * SECOND;
    let _ = body_of(d.on_log(t0, String::from("x")));

    let diag = d.on_outcome(status(503), t0).expect("first failure diagnosed");
    assert!(matches!(diag.kind, DiagnosticKind::RetryScheduled(1)));
    assert_eq!(d.dlq.len(), 1);
    assert_eq!(d.dlq.min_retry_at(), Some(t0 + 2 * SECOND));

    // Not eligible before its backoff has elapsed.
    assert!(matches!(d.begin_retry(t0 + 2 * SECOND - 1), Action::Nothing));

    let t1 = t0 + 2 * SECOND;
    let _ = body_of(d.begin_retry(t1));
    let diag = d.on_outcome(status(503), t1).expect("second failure diagnosed");
    assert!(matches!(diag.kind, DiagnosticKind::RetryScheduled(2)));
    assert_eq!(d.dlq.min_retry_at(), Some(t1 + 4 * SECOND));

    let t2 = t1 + 4 * SECOND;
    let _ = body_of(d.begin_retry(t2));
    let diag = d.on_outcome(status(503), t2).expect("third failure diagnosed");
    assert!(matches!(diag.kind, DiagnosticKind::BudgetExceeded(2)));
    // Dropped for good: three total attempts, never a fourth.
    assert_eq!(d.dlq.len(), 0);
    assert!(matches!(d.begin_retry(u128::MAX), Action::Nothing));
}

#[test]
fn drop_policy_keeps_the_queue_empty() {
    let mut d = dispatcher(1, 300 * SECOND, FailurePolicy::Drop);
    let _ = body_of(d.on_log(5, String::from("x")));
    let diag = d.on_outcome(status(503), 5).expect("drop diagnosed");
    assert!(matches!(diag.kind, DiagnosticKind::Dropped));
    assert_eq!(diag.batch_len, 1);
    assert_eq!(d.dlq.len(), 0);
    assert_eq!(d.batch.entries.len(), 0);
}

#[test]
fn fatal_status_is_never_retried() {
    let mut d = dispatcher(1, 300 * SECOND, FailurePolicy::Retry(6));
    let _ = body_of(d.on_log(5, String::from("x")));
    let diag = d.on_outcome(status(400), 5).expect("rejection diagnosed");
    assert!(matches!(diag.kind, DiagnosticKind::Dropped));
    assert_eq!(d.dlq.len(), 0);
}

#[test]
fn retryable_statuses_are_classified() {
    assert!(SubmitError::Status(408, String::new()).is_retryable());
    assert!(SubmitError::Status(429, String::new()).is_retryable());
    assert!(SubmitError::Status(500, String::new()).is_retryable());
    assert!(SubmitError::Status(503, String::new()).is_retryable());
    assert!(SubmitError::Status(599, String::new()).is_retryable());
    assert!(!SubmitError::Status(400, String::new()).is_retryable());
    assert!(!SubmitError::Status(404, String::new()).is_retryable());
    assert!(!SubmitError::Status(422, String::new()).is_retryable());
    assert!(SubmitError::Transport(String::from("timed out")).is_retryable());
    assert!(!SubmitError::Serialization(String::from("bad")).is_retryable());
    assert!(!SubmitError::Compression(String::from("bad")).is_retryable());
}

#[test]
fn retries_serve_the_earliest_due_batch_first() {
    // Two pending batches with distinct retryAt: the earlier one is
    // resubmitted first, and nothing is touched while both are in the
    // future.
    let mut d = dispatcher(1, 300 * SECOND, FailurePolicy::Retry(6));
    let _ = body_of(d.on_log(1, String::from("first")));
    let _ = d.on_outcome(status(503), 10 * SECOND);
    let _ = body_of(d.on_log(2, String::from("second")));
    let _ = d.on_outcome(status(503), 5 * SECOND);
    assert_eq!(d.dlq.len(), 2);
    // first is due at 12s, second at 7s.
    assert!(matches!(d.begin_retry(7 * SECOND - 1), Action::Nothing));
    let body = body_of(d.begin_retry(12 * SECOND));
    assert!(body.contains("\"second\""));
    let _ = d.on_outcome(Ok(()), 12 * SECOND);
    let body = body_of(d.begin_retry(12 * SECOND));
    assert!(body.contains("\"first\""));
    let _ = d.on_outcome(Ok(()), 12 * SECOND);
    assert_eq!(d.dlq.len(), 0);
}

#[test]
fn flush_attempts_pending_retry_and_buffered_entries() {
    // One failed batch pending with a retryAt far in the future, plus
    // three freshly buffered entries: a flush attempts both.
    let mut d = dispatcher(10, 300 * SECOND, FailurePolicy::Retry(6));
    assert!(matches!(d.on_log(1, String::from("pending")), Action::Nothing));
    let _ = body_of(d.begin_submit());
    let _ = d.on_outcome(status(503), 1_000_000 * SECOND);
    assert_eq!(d.dlq.len(), 1);

    assert!(matches!(d.on_log(2, String::from("a")), Action::Nothing));
    assert!(matches!(d.on_log(3, String::from("b")), Action::Nothing));
    assert!(matches!(d.on_log(4, String::from("c")), Action::Nothing));

    // The flush pass: current batch first.
    let body = body_of(d.begin_submit());
    assert!(body.contains("\"a\"") && body.contains("\"b\"") && body.contains("\"c\""));
    let _ = d.on_outcome(Ok(()), 10);

    // Then the forced drain, regardless of retryAt.
    d.begin_forced_drain();
    let body = body_of(d.next_forced());
    assert!(body.contains("\"pending\""));
    let _ = d.on_outcome(Ok(()), 10);
    assert!(matches!(d.next_forced(), Action::Nothing));
    assert_eq!(d.dlq.len(), 0);
}

#[test]
fn flush_of_idle_dispatcher_does_nothing() {
    // Empty batch, empty retry queue: the flush pass completes without
    // submitting anything.
    let mut d = dispatcher(10, 300 * SECOND, FailurePolicy::Retry(6));
    assert!(matches!(d.begin_submit(), Action::Nothing));
    d.begin_forced_drain();
    assert!(matches!(d.next_forced(), Action::Nothing));
    assert_eq!(d.dlq.len(), 0);
    assert_eq!(d.batch.entries.len(), 0);
}

#[test]
fn forced_drain_gives_each_pending_batch_one_attempt() {
    // Two pending batches; both fail again during the forced drain.
    // Each gets exactly one attempt, and both are re-enqueued for
    // later instead of being drained twice.
    let mut d = dispatcher(1, 300 * SECOND, FailurePolicy::Retry(6));
    let _ = body_of(d.on_log(1, String::from("p")));
    let _ = d.on_outcome(status(503), 100 * SECOND);
    let _ = body_of(d.on_log(2, String::from("q")));
    let _ = d.on_outcome(status(503), 200 * SECOND);
    assert_eq!(d.dlq.len(), 2);

    d.begin_forced_drain();
    let mut attempts = 0;
    loop {
        match d.next_forced() {
            Action::Nothing => break,
            Action::Post(_) => {
                attempts += 1;
                let _ = d.on_outcome(status(503), 300 * SECOND);
            }
            Action::Dropped(_) => panic!("nothing should be dropped here"),
        }
    }
    assert_eq!(attempts, 2);
    assert_eq!(d.dlq.len(), 2);
}

#[test]
fn backoff_saturates_near_the_end_of_time() {
    // With the clock close to the largest representable instant, the
    // scheduled retry time saturates instead of overflowing, and the
    // full retry budget still runs its course.
    let mut d = dispatcher(1, 300 * SECOND, FailurePolicy::Retry(150));
    let _ = body_of(d.on_log(1, String::from("x")));
    let late = u128::MAX - 5;
    for k in 1..=150usize {
        let diag = d.on_outcome(status(503), late).expect("failure diagnosed");
        assert!(matches!(diag.kind, DiagnosticKind::RetryScheduled(n) if n == k));
        assert_eq!(d.dlq.min_retry_at(), Some(u128::MAX));
        let _ = body_of(d.begin_retry(u128::MAX));
    }
    let diag = d.on_outcome(status(503), late).expect("budget exhausted");
    assert!(matches!(diag.kind, DiagnosticKind::BudgetExceeded(150)));
    assert_eq!(d.dlq.len(), 0);
}

#[test]
fn backoff_doubles_per_consecutive_failure() {
    // retryAt - failureTime is exactly 2^k seconds for failure k.
    let mut d = dispatcher(1, 300 * SECOND, FailurePolicy::Retry(6));
    let _ = body_of(d.on_log(1, String::from("x")));
    let mut expected = 2 * SECOND;
    let mut t: u128 = 0;
    for k in 1..=6u32 {
        let diag = d.on_outcome(status(503), t).expect("failure diagnosed");
        assert!(matches!(diag.kind, DiagnosticKind::RetryScheduled(n) if n == k as usize));
        assert_eq!(d.dlq.min_retry_at(), Some(t + expected));
        t += expected;
        let _ = body_of(d.begin_retry(t));
        expected *= 2;
    }
    let diag = d.on_outcome(status(503), t).expect("budget exhausted");
    assert!(matches!(diag.kind, DiagnosticKind::BudgetExceeded(6)));
}
