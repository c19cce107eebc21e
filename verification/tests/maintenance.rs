use freenet_core::contract::key::{ContractInstanceId, ContractKey};
use freenet_core::node::maintenance::{
    durable_operation_task, select_batch, wait_for_ring_connection, ConnectionWait,
    DurableOpKind, DurableOpRegistry, DurableOpRequest, DurableTaskAction, DurableTaskEvent,
    MaintenanceConfig, SeedingAction, SeedingResponse, SeedingStep, SeedingTask,
    VerificationAction, VerificationRead, VerificationStep, VerificationTask,
    MAX_CONTRACT_STATE_SIZE, MAX_DURABLE_RETRIES_PER_TICK, REPLICATION_HTL,
};
use freenet_core::node::pending::PendingPuts;
use freenet_core::time::{Duration, Instant};
use freenet_core::util::backoff::{ExponentialBackoff, TrackedBackoff};

fn at(secs: u64) -> Instant {
    Instant { nanos: secs as u128 * 1_000_000_000 }
}

fn key(b: u8) -> ContractKey {
    ContractKey::from_id_and_code(ContractInstanceId::new([b; 32]), [b; 32])
}

#[test]
fn test_maintenance_config_defaults() {
    let config = MaintenanceConfig::default();
    assert!(config.enabled);
    assert_eq!(config.seeding_interval_secs, 300);
    assert_eq!(config.seeding_batch_size, 20);
    assert_eq!(config.verification_interval_secs, 600);
    assert_eq!(config.max_durable_retries, 10);
}

#[test]
fn test_durable_registry_cancel_removes_op() {
    let id = ContractInstanceId::new([1u8; 32]);
    let mut registry = DurableOpRegistry::new(3);

    registry.handle(
        DurableOpRequest::Register {
            instance_id: id,
            kind: DurableOpKind::Get { fetch_contract: false },
            fallback: None,
        },
        at(0),
    );
    assert!(registry.ops.contains_key(&id));

    registry.handle(DurableOpRequest::Cancel { instance_id: id }, at(0));
    assert!(!registry.ops.contains_key(&id), "cancel should remove the op");
}

#[test]
fn test_durable_registry_complete_removes_op() {
    let id = ContractInstanceId::new([2u8; 32]);
    let mut registry = DurableOpRegistry::new(3);

    registry.handle(
        DurableOpRequest::Register {
            instance_id: id,
            kind: DurableOpKind::Subscribe { is_renewal: true },
            fallback: None,
        },
        at(0),
    );
    assert!(registry.ops.contains_key(&id));

    registry.handle(DurableOpRequest::Complete { instance_id: id }, at(0));
    assert!(!registry.ops.contains_key(&id), "complete should remove the op");
}

#[test]
fn test_durable_registry_no_duplicate_registration() {
    let id = ContractInstanceId::new([3u8; 32]);
    let mut registry = DurableOpRegistry::new(3);

    // First registration
    registry.handle(
        DurableOpRequest::Register {
            instance_id: id,
            kind: DurableOpKind::Get { fetch_contract: true },
            fallback: None,
        },
        at(0),
    );

    // Simulate some progress
    if let Some(op) = registry.ops.get_mut(&id) {
        op.attempts = 2;
    }

    // Second registration should not overwrite
    registry.handle(
        DurableOpRequest::Register {
            instance_id: id,
            kind: DurableOpKind::Subscribe { is_renewal: false },
            fallback: None,
        },
        at(0),
    );

    let op = registry.ops.get(&id).unwrap();
    assert_eq!(op.attempts, 2, "second registration should not reset attempts");
    assert!(
        matches!(op.kind, DurableOpKind::Get { .. }),
        "second registration should not overwrite kind"
    );
}

#[test]
fn test_durable_registry_fallback_transition() {
    let id = ContractInstanceId::new([4u8; 32]);
    let max_retries = 2u32;
    let mut registry = DurableOpRegistry::new(max_retries);

    registry.handle(
        DurableOpRequest::Register {
            instance_id: id,
            kind: DurableOpKind::Get { fetch_contract: false },
            fallback: Some(DurableOpKind::Subscribe { is_renewal: false }),
        },
        at(0),
    );

    // Manually transition to fallback (mirrors what sweep does on exhaustion)
    if let Some(op) = registry.ops.get_mut(&id) {
        op.attempts = max_retries;
        if let Some(fallback_kind) = op.fallback.take() {
            op.kind = fallback_kind;
            op.attempts = 0;
            op.retry_after = at(0);
        }
    }

    let op = registry.ops.get(&id).unwrap();
    assert!(
        matches!(op.kind, DurableOpKind::Subscribe { is_renewal: false }),
        "should have transitioned to fallback Subscribe"
    );
    assert_eq!(op.attempts, 0, "fallback should reset attempt count");
    assert!(op.fallback.is_none(), "fallback should be consumed");
}

#[test]
fn sweeps_retry_then_fall_back_then_give_up() {
    let id = ContractInstanceId::new([4u8; 32]);
    let mut registry = DurableOpRegistry::new(2);
    registry.handle(
        DurableOpRequest::Register {
            instance_id: id,
            kind: DurableOpKind::Get { fetch_contract: true },
            fallback: Some(DurableOpKind::Subscribe { is_renewal: false }),
        },
        at(100),
    );
    let out = registry.sweep(at(100));
    assert_eq!(out.dispatched.len(), 1);
    assert_eq!(out.dispatched[0].attempt, 1);
    assert_eq!(out.dispatched[0].kind, DurableOpKind::Get { fetch_contract: true });
    assert_eq!((out.exhausted, out.switched_to_fallback, out.pending), (0, 0, 1));
    let again = registry.ops.get(&id).unwrap().retry_after;
    assert!(again.nanos > at(100).nanos);
    assert!(registry.sweep(Instant { nanos: again.nanos - 1 }).dispatched.is_empty());
    let out = registry.sweep(again);
    assert_eq!(out.dispatched[0].attempt, 2);
    assert_eq!((out.exhausted, out.switched_to_fallback, out.pending), (0, 1, 1));
    let op = registry.ops.get(&id).unwrap();
    assert_eq!(op.kind, DurableOpKind::Subscribe { is_renewal: false });
    assert_eq!((op.attempts, op.fallback), (0, None));
    let out = registry.sweep(again);
    assert_eq!(out.dispatched[0].attempt, 1);
    assert_eq!(out.dispatched[0].kind, DurableOpKind::Subscribe { is_renewal: false });
    let later = registry.ops.get(&id).unwrap().retry_after;
    let out = registry.sweep(later);
    assert_eq!((out.exhausted, out.switched_to_fallback, out.pending), (1, 0, 0));
}

#[test]
fn sweeps_are_limited() {
    let mut registry = DurableOpRegistry::new(3);
    for b in 0..25 {
        let event = DurableTaskEvent::Request(DurableOpRequest::Register {
            instance_id: ContractInstanceId::new([b; 32]),
            kind: DurableOpKind::Get { fetch_contract: true },
            fallback: None,
        });
        assert!(matches!(
            durable_operation_task(&mut registry, event, at(1)),
            DurableTaskAction::Wait
        ));
    }
    for expected in [MAX_DURABLE_RETRIES_PER_TICK, 10, 5, 0] {
        match durable_operation_task(&mut registry, DurableTaskEvent::SweepTick, at(1)) {
            DurableTaskAction::Dispatch(out) => {
                assert_eq!(out.dispatched.len(), expected);
                assert_eq!(out.pending, 25);
            }
            _ => panic!("expected a dispatch"),
        }
    }
    assert!(matches!(
        durable_operation_task(&mut registry, DurableTaskEvent::ChannelClosed, at(1)),
        DurableTaskAction::Exit
    ));
}

#[test]
fn tasks_wait_five_minutes_at_most() {
    let zero = Duration::from_secs(0);
    assert_eq!(wait_for_ring_connection(1, zero), ConnectionWait::Connected);
    assert_eq!(wait_for_ring_connection(0, zero), ConnectionWait::Wait);
    assert_eq!(
        wait_for_ring_connection(0, Duration::from_millis(299_999)),
        ConnectionWait::Wait
    );
    assert_eq!(wait_for_ring_connection(0, Duration::from_secs(300)), ConnectionWait::TimedOut);
}

fn fetched(step: SeedingStep) -> Option<u8> {
    match step {
        SeedingStep::Fetch(k) => Some(k.id().bytes[0]),
        SeedingStep::Done => None,
    }
}

#[test]
fn seeding_puts_what_is_available() {
    let mut task = SeedingTask::new();
    let mut cycle = task.begin_cycle(vec![key(1), key(2), key(3), key(4)], 3, at(0));
    assert_eq!(cycle.batch.len(), 3);
    assert_eq!(fetched(task.next_step(&mut cycle, at(0))), Some(1));
    assert_eq!(
        task.on_response(&mut cycle, SeedingResponse::Available, at(0)),
        SeedingAction::Put { htl: REPLICATION_HTL }
    );
    assert_eq!(fetched(task.next_step(&mut cycle, at(0))), Some(2));
    assert_eq!(
        task.on_response(&mut cycle, SeedingResponse::Unavailable, at(0)),
        SeedingAction::Skip
    );
    assert_eq!(fetched(task.next_step(&mut cycle, at(0))), Some(3));
    assert_eq!(
        task.on_response(&mut cycle, SeedingResponse::HandlerError, at(0)),
        SeedingAction::Skip
    );
    assert_eq!(fetched(task.next_step(&mut cycle, at(0))), None);
    let r = cycle.report;
    assert_eq!((r.spawned, r.skipped_unavailable, r.handler_errors), (1, 1, 1));

    // the put is still under way, and the failure is backed off from
    let mut cycle = task.begin_cycle(vec![key(1), key(2), key(3), key(4)], 20, at(1));
    assert_eq!(fetched(task.next_step(&mut cycle, at(1))), Some(2));
    task.on_response(&mut cycle, SeedingResponse::Unavailable, at(1));
    assert_eq!(fetched(task.next_step(&mut cycle, at(1))), Some(4));
    assert_eq!(cycle.report.skipped_pending, 1);
    assert_eq!(cycle.report.skipped_backoff, 1);
    task.put_finished(&key(1));
    let mut cycle = task.begin_cycle(vec![key(1)], 20, at(2));
    assert_eq!(fetched(task.next_step(&mut cycle, at(2))), Some(1));
}

#[test]
fn seeding_is_deferred_without_connections() {
    assert!(SeedingTask::defers(0, 10, 10));
    assert!(!SeedingTask::defers(1, 10, 10));
    assert!(SeedingTask::defers(1, 1, 10));
    assert_eq!(select_batch(vec![key(1), key(2)], 1).len(), 1);
    assert_eq!(select_batch(vec![key(1), key(2)], 5).len(), 2);
}

fn read(task: &mut VerificationTask, r: VerificationRead, now: Instant) -> VerificationAction {
    let mut cycle = task.begin_cycle(vec![key(1)], 50, now);
    assert!(matches!(task.next_step(&mut cycle, now), VerificationStep::Read(_)));
    let action = task.on_read(&mut cycle, r, now);
    assert!(matches!(task.next_step(&mut cycle, now), VerificationStep::Done));
    action
}

#[test]
fn the_third_failure_evicts() {
    let mut task = VerificationTask::new();
    let hour = |n: u64| at(n * 10_000);
    for n in 0..2 {
        match read(&mut task, VerificationRead::Failed, hour(n)) {
            VerificationAction::Recover(id) => assert_eq!(id.bytes, [1u8; 32]),
            _ => panic!("expected a recovery"),
        }
    }
    assert!(matches!(
        read(&mut task, VerificationRead::State { size: 0 }, hour(2)),
        VerificationAction::Evict(_)
    ));
    assert_eq!(task.failure_counts.len(), 0);
}

#[test]
fn intact_states_clear_the_count() {
    let mut task = VerificationTask::new();
    let hour = |n: u64| at(n * 10_000);
    let big = VerificationRead::State { size: MAX_CONTRACT_STATE_SIZE + 1 };
    let full = VerificationRead::State { size: MAX_CONTRACT_STATE_SIZE };
    assert!(matches!(read(&mut task, big, hour(0)), VerificationAction::Recover(_)));
    assert!(matches!(read(&mut task, big, hour(1)), VerificationAction::Recover(_)));
    assert!(matches!(read(&mut task, full, hour(2)), VerificationAction::Healthy));
    assert!(matches!(read(&mut task, big, hour(3)), VerificationAction::Recover(_)));
}

#[test]
fn missing_states_are_recovered() {
    let mut task = VerificationTask::new();
    let hour = |n: u64| at(n * 10_000);
    let missing = VerificationRead::Missing;
    match read(&mut task, missing, hour(0)) {
        VerificationAction::Recover(id) => assert_eq!(id.bytes, [1u8; 32]),
        _ => panic!("expected a recovery"),
    }
    assert!(task.backoff.is_in_backoff(&key(1), hour(0)));
    assert_eq!(task.failure_counts.get(&key(1)), Some(&1));
    assert!(matches!(read(&mut task, missing, hour(1)), VerificationAction::Recover(_)));
    assert!(matches!(read(&mut task, missing, hour(2)), VerificationAction::Evict(_)));
}

#[test]
fn delays_double_up_to_a_limit() {
    let b = ExponentialBackoff::new(Duration::from_secs(5), Duration::from_secs(300));
    assert_eq!(b.delay(1), Duration::from_secs(5));
    assert_eq!(b.delay(2), Duration::from_secs(10));
    assert_eq!(b.delay(6), Duration::from_secs(160));
    assert_eq!(b.delay(7), Duration::from_secs(300));
    assert_eq!(b.delay(u32::MAX), Duration::from_secs(300));
    let d = ExponentialBackoff::default();
    assert_eq!((d.base, d.max), (b.base, b.max));
}

#[test]
fn failures_back_off_until_they_expire() {
    let b = ExponentialBackoff::new(Duration::from_secs(5), Duration::from_secs(300));
    let mut t: TrackedBackoff = TrackedBackoff::new(b, 2);
    t.record_failure(key(1), at(0));
    assert!(t.is_in_backoff(&key(1), at(4)));
    assert!(!t.is_in_backoff(&key(1), at(5)));
    t.record_failure(key(1), at(5));
    assert!(t.is_in_backoff(&key(1), at(14)));
    assert!(!t.is_in_backoff(&key(1), at(15)));
    assert!(!t.is_in_backoff(&key(2), at(5)));
    t.record_success(&key(1));
    assert!(!t.is_in_backoff(&key(1), at(6)));
    t.record_failure(key(1), at(10));
    t.record_failure(key(2), at(11));
    t.record_failure(key(3), at(12));
    assert!(!t.is_in_backoff(&key(1), at(12)));
    assert!(t.is_in_backoff(&key(2), at(12)));
    assert!(t.is_in_backoff(&key(3), at(12)));
    t.cleanup_expired(at(16));
    assert!(!t.is_in_backoff(&key(2), at(16)));
    assert!(t.is_in_backoff(&key(3), at(16)));
}

#[test]
fn pending_puts_hold_each_instance_once() {
    let mut p = PendingPuts::new();
    assert!(!p.contains(&key(1)));
    assert!(p.insert(&key(1)));
    assert!(!p.insert(&key(1)));
    assert!(p.contains(&key(1)));
    assert!(!p.contains(&key(2)));
    assert!(p.remove(&key(1)));
    assert!(!p.remove(&key(1)));
    assert!(!p.contains(&key(1)));
}
