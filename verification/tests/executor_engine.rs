use antegen::backoff::{exponential_backoff_threshold, window_elapsed};
use antegen::executor::TxExecutor;
use antegen::types::{
    BuildOutcome, ExecutableThreadMetadata, ExecutorError, PluginConfig, PoolPosition,
    SignatureStatus,
};

fn engine() -> TxExecutor {
    TxExecutor::new(PluginConfig::default())
}

fn in_pool() -> PoolPosition {
    PoolPosition { current_position: Some(0), workers: vec![11, 22] }
}

fn absent_from_pool() -> PoolPosition {
    PoolPosition { current_position: None, workers: vec![11, 22] }
}

#[test]
fn default_config_values() {
    let c = PluginConfig::default();
    assert_eq!(c.worker_id, 0);
    assert_eq!(c.max_simulation_failures, 5);
    assert_eq!(c.thread_timeout_window, 24);
    assert_eq!(c.transaction_confirmation_period, 24);
    assert_eq!(c.rotation_confirmation_period, 16);
}

#[test]
fn backoff_threshold_exact_values() {
    let t = |f: u32| {
        exponential_backoff_threshold(&ExecutableThreadMetadata {
            due_slot: 100,
            simulation_failures: f,
        })
    };
    assert_eq!(t(0), 100);
    assert_eq!(t(1), 101);
    assert_eq!(t(2), 103);
    assert_eq!(t(3), 107);
    assert_eq!(t(6), 163);
}

#[test]
fn backoff_threshold_strictly_increases() {
    let mut prev = None;
    for f in 0..10u32 {
        let t = exponential_backoff_threshold(&ExecutableThreadMetadata {
            due_slot: 500,
            simulation_failures: f,
        });
        if let Some(p) = prev {
            assert!(t > p);
        }
        prev = Some(t);
    }
}

#[test]
fn window_elapsed_is_strict() {
    assert!(!window_elapsed(100, 124, 24));
    assert!(!window_elapsed(100, 100, 24));
    assert!(window_elapsed(100, 125, 24));
    assert!(!window_elapsed(100, 100, 0));
    assert!(window_elapsed(100, 101, 0));
}

#[test]
fn admitted_thread_starts_fresh() {
    let mut e = engine();
    e.index_due_threads(&vec![7], 100);
    let m = e.get_executable(7).unwrap();
    assert_eq!(m.due_slot, 100);
    assert_eq!(m.simulation_failures, 0);
    assert!(e.get_transaction(7).is_none());
}

#[test]
fn readmission_never_resets_failures() {
    let mut e = engine();
    e.index_due_threads(&vec![3], 100);
    e.increment_simulation_failure(3);
    e.increment_simulation_failure(3);
    // Equal, lower and higher due slots: the tracked record stays untouched.
    e.index_due_threads(&vec![3], 100);
    e.index_due_threads(&vec![3], 90);
    e.index_due_threads(&vec![3], 120);
    let m = e.get_executable(3).unwrap();
    assert_eq!(m.due_slot, 100);
    assert_eq!(m.simulation_failures, 2);
}

#[test]
fn over_failed_thread_dropped_and_counted_once() {
    let mut e = engine();
    e.index_due_threads(&vec![5], 10);
    for _ in 0..6 {
        e.increment_simulation_failure(5);
    }
    let m = e.get_executable(5).unwrap();
    assert_eq!(m.simulation_failures, 6);
    let dropped_now = e.drop_failed_threads();
    assert_eq!(dropped_now, 1);
    assert_eq!(e.dropped_threads(), 1);
    assert!(e.get_executable(5).is_none());
    // A second prune finds nothing: the counter moved exactly once.
    assert_eq!(e.drop_failed_threads(), 0);
    assert_eq!(e.dropped_threads(), 1);
}

#[test]
fn failure_count_increments_by_one_each_time() {
    let mut e = engine();
    e.index_due_threads(&vec![5], 10);
    for expected in 1..=20u32 {
        e.increment_simulation_failure(5);
        let m = e.get_executable(5).unwrap();
        assert_eq!(m.simulation_failures, expected);
        assert_eq!(m.due_slot, 10);
    }
    // An untracked thread is left alone.
    e.increment_simulation_failure(77);
    assert!(e.get_executable(77).is_none());
    // However far the count ran, the next prune drops the thread once.
    assert_eq!(e.drop_failed_threads(), 1);
    assert_eq!(e.dropped_threads(), 1);
}

#[test]
fn prune_keeps_threads_at_threshold() {
    let mut e = engine();
    e.index_due_threads(&vec![1, 2], 10);
    for _ in 0..5 {
        e.increment_simulation_failure(1);
    }
    assert_eq!(e.drop_failed_threads(), 0);
    assert_eq!(e.get_executable(1).unwrap().simulation_failures, 5);
    assert_eq!(e.dropped_threads(), 0);
    assert!(e.get_executable(2).is_some());
}

#[test]
fn in_pool_worker_attempts_at_due_slot() {
    let mut e = engine();
    e.index_due_threads(&vec![7], 100);
    assert!(e.get_executable_threads(&in_pool(), 99).is_empty());
    assert_eq!(e.get_executable_threads(&in_pool(), 100), vec![(7, 100)]);
}

#[test]
fn absent_worker_defers_for_timeout_window() {
    let mut e = engine();
    e.index_due_threads(&vec![7], 100);
    // With TIMEOUT_WINDOW = 24 an absent worker waits until the slot lies
    // strictly beyond due_slot + window.
    for slot in 100..=124u64 {
        assert!(e.get_executable_threads(&absent_from_pool(), slot).is_empty());
    }
    assert_eq!(e.get_executable_threads(&absent_from_pool(), 125), vec![(7, 100)]);
}

#[test]
fn absent_worker_with_empty_pool_is_not_deferred() {
    let mut e = engine();
    e.index_due_threads(&vec![7], 100);
    let lonely = PoolPosition { current_position: None, workers: vec![] };
    assert_eq!(e.get_executable_threads(&lonely, 100), vec![(7, 100)]);
}

#[test]
fn backoff_gates_eligibility() {
    let mut e = engine();
    e.index_due_threads(&vec![8], 100);
    e.increment_simulation_failure(8);
    e.increment_simulation_failure(8);
    // threshold = 100 + 2^2 - 1 = 103
    assert!(e.get_executable_threads(&in_pool(), 102).is_empty());
    assert_eq!(e.get_executable_threads(&in_pool(), 103), vec![(8, 100)]);
}

#[test]
fn commit_moves_thread_to_history() {
    let mut e = engine();
    e.index_due_threads(&vec![9], 200);
    e.commit_submitted_batch(200, &vec![(9, 555)]);
    assert!(e.get_executable(9).is_none());
    let t = e.get_transaction(9).unwrap();
    assert_eq!(t.due_slot, 200);
    assert_eq!(t.sent_slot, 200);
    assert_eq!(t.signature, 555);
}

#[test]
fn commit_skips_thread_resolved_meanwhile() {
    let mut e = engine();
    e.index_due_threads(&vec![9], 200);
    e.drop_executed_thread(9);
    e.commit_submitted_batch(200, &vec![(9, 555)]);
    assert!(e.get_executable(9).is_none());
    assert!(e.get_transaction(9).is_none());
}

#[test]
fn in_flight_thread_is_not_readmitted() {
    let mut e = engine();
    e.index_due_threads(&vec![9], 200);
    e.commit_submitted_batch(200, &vec![(9, 555)]);
    e.index_due_threads(&vec![9], 300);
    assert!(e.get_executable(9).is_none());
    assert!(e.get_transaction(9).is_some());
}

#[test]
fn confirmation_window_gates_reconciliation() {
    let mut e = engine();
    e.index_due_threads(&vec![9], 200);
    e.commit_submitted_batch(200, &vec![(9, 555)]);
    // sent_slot = 200, CONFIRMATION_PERIOD = 24: nothing to check through 224.
    assert!(e.checkable_transactions(224).is_empty());
    let c = e.checkable_transactions(225);
    assert_eq!(c.len(), 1);
    assert_eq!(c[0].thread_pubkey, 9);
    assert_eq!(c[0].due_slot, 200);
    assert_eq!(c[0].signature, 555);
    // A missing status reported too early performs no requeue.
    e.process_retries(224, &vec![(9, SignatureStatus::Missing)]);
    assert!(e.get_transaction(9).is_some());
    assert!(e.get_executable(9).is_none());
    // One slot later the lost submission is requeued.
    e.process_retries(225, &vec![(9, SignatureStatus::Missing)]);
    assert!(e.get_transaction(9).is_none());
    let m = e.get_executable(9).unwrap();
    assert_eq!(m.due_slot, 200);
    assert_eq!(m.simulation_failures, 0);
}

#[test]
fn requeue_resets_failures_and_keeps_due_slot() {
    let mut e = engine();
    e.index_due_threads(&vec![4], 100);
    e.increment_simulation_failure(4);
    e.increment_simulation_failure(4);
    e.commit_submitted_batch(150, &vec![(4, 42)]);
    e.process_retries(175, &vec![(4, SignatureStatus::Missing)]);
    let m = e.get_executable(4).unwrap();
    assert_eq!(m.due_slot, 100);
    assert_eq!(m.simulation_failures, 0);
}

#[test]
fn confirmed_outcomes_abandon_the_submission() {
    let mut e = engine();
    e.index_due_threads(&vec![1, 2], 100);
    e.commit_submitted_batch(100, &vec![(1, 10), (2, 20)]);
    e.process_retries(
        125,
        &vec![(1, SignatureStatus::Succeeded), (2, SignatureStatus::Failed)],
    );
    assert!(e.get_transaction(1).is_none());
    assert!(e.get_transaction(2).is_none());
    assert!(e.get_executable(1).is_none());
    assert!(e.get_executable(2).is_none());
    assert_eq!(e.dropped_threads(), 0);
}

#[test]
fn duplicate_candidate_is_rejected() {
    let mut e = engine();
    e.index_due_threads(&vec![9], 200);
    e.commit_submitted_batch(200, &vec![(9, 555)]);
    // The tracked submission (due slot 200) is at an equal-or-later due
    // slot than these candidates, and the signature matches: duplicates.
    assert_eq!(
        e.dedupe_tx(200, 9, 555),
        Err(ExecutorError::DuplicateTransaction)
    );
    assert_eq!(
        e.dedupe_tx(150, 9, 555),
        Err(ExecutorError::DuplicateTransaction)
    );
    // A candidate for a later due slot, a fresh signature, or another
    // thread is no duplicate.
    assert_eq!(e.dedupe_tx(201, 9, 555), Ok(()));
    assert_eq!(e.dedupe_tx(200, 9, 556), Ok(()));
    assert_eq!(e.dedupe_tx(200, 8, 555), Ok(()));
}

#[test]
fn build_outcomes_update_the_due_store() {
    let mut e = engine();
    e.index_due_threads(&vec![1, 2, 3, 4], 100);

    // A fetch failure is transport: the thread stays due, uncounted.
    assert_eq!(e.resolve_build_outcome(100, 1, BuildOutcome::FetchFailed), None);
    assert_eq!(e.get_executable(1).unwrap().simulation_failures, 0);

    assert_eq!(e.resolve_build_outcome(100, 2, BuildOutcome::BuilderRefused), None);
    assert_eq!(e.get_executable(2).unwrap().simulation_failures, 1);

    assert_eq!(e.resolve_build_outcome(100, 3, BuildOutcome::BuildFailed), None);
    assert_eq!(e.get_executable(3).unwrap().simulation_failures, 1);

    assert_eq!(
        e.resolve_build_outcome(100, 4, BuildOutcome::AlreadyExecuted),
        None
    );
    assert!(e.get_executable(4).is_none());
    assert_eq!(e.dropped_threads(), 0);

    assert_eq!(
        e.resolve_build_outcome(100, 1, BuildOutcome::Built(77)),
        Some((1, 77))
    );
    // Once that candidate is committed, building it again is a duplicate.
    e.commit_submitted_batch(100, &vec![(1, 77)]);
    assert_eq!(e.resolve_build_outcome(100, 1, BuildOutcome::Built(77)), None);
}

#[test]
fn built_duplicate_is_withheld() {
    let mut e = engine();
    e.index_due_threads(&vec![9], 200);
    e.commit_submitted_batch(200, &vec![(9, 555)]);
    e.process_retries(225, &vec![(9, SignatureStatus::Missing)]);
    // The requeued thread builds the same transaction again; a duplicate
    // needs a tracked submission, and after the requeue the history is
    // empty, so it passes.
    assert_eq!(
        e.resolve_build_outcome(200, 9, BuildOutcome::Built(555)),
        Some((9, 555))
    );
}

#[test]
fn rotation_single_attempt_within_window() {
    let mut e = engine();
    assert!(e.should_attempt_rotation(100));
    e.record_rotation(100, 77);
    let p = e.rotation_attempt().unwrap();
    assert_eq!(p.sent_slot, 100);
    assert_eq!(p.signature, 77);
    // ROTATION_CONFIRMATION_PERIOD = 16: no second attempt through slot 116.
    for slot in 100..=116u64 {
        assert!(!e.should_attempt_rotation(slot));
        assert_eq!(e.rotation_signature_to_check(slot), None);
    }
    assert!(e.should_attempt_rotation(117));
    assert_eq!(e.rotation_signature_to_check(117), Some(77));
}

#[test]
fn rotation_reconciliation_resolves_only_past_window() {
    let mut e = engine();
    e.record_rotation(100, 77);
    // Within the window a confirmed status changes nothing.
    e.reconcile_rotation(110, Some(SignatureStatus::Succeeded));
    assert!(e.rotation_attempt().is_some());
    // Past the window a missing signature or an unanswered query keeps the
    // attempt recorded; success or failure resolves it.
    e.reconcile_rotation(117, Some(SignatureStatus::Missing));
    assert!(e.rotation_attempt().is_some());
    e.reconcile_rotation(117, None);
    assert!(e.rotation_attempt().is_some());
    e.reconcile_rotation(117, Some(SignatureStatus::Succeeded));
    assert!(e.rotation_attempt().is_none());
    assert!(e.should_attempt_rotation(118));
}

#[test]
fn rotation_failure_resolves_past_window() {
    let mut e = engine();
    e.record_rotation(100, 77);
    e.reconcile_rotation(120, Some(SignatureStatus::Failed));
    assert!(e.rotation_attempt().is_none());
}

#[test]
fn thread_lifecycle_stays_in_one_store() {
    let mut e = engine();
    e.index_due_threads(&vec![6], 100);
    assert!(e.get_executable(6).is_some() && e.get_transaction(6).is_none());
    e.commit_submitted_batch(100, &vec![(6, 60)]);
    assert!(e.get_executable(6).is_none() && e.get_transaction(6).is_some());
    e.process_retries(125, &vec![(6, SignatureStatus::Missing)]);
    assert!(e.get_executable(6).is_some() && e.get_transaction(6).is_none());
    e.commit_submitted_batch(130, &vec![(6, 61)]);
    e.process_retries(155, &vec![(6, SignatureStatus::Succeeded)]);
    assert!(e.get_executable(6).is_none() && e.get_transaction(6).is_none());
}
