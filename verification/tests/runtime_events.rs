use ores_sidecar::{
    RuntimeApplyOutcome, RuntimeEventError, RuntimeEventOperation, RuntimeEventOutcome,
    RuntimeEventState, RuntimeEventUpdate, RuntimeKeySet, RuntimeSnapshotUpdate, RuntimeUpdatePlan,
    RuntimeUpdateProvider, RuntimeUpdateRole, RuntimeValue, MAX_SAFE_REVISION, RUNTIME_CACHE_NAME,
    RUNTIME_EVENT_PROTOCOL, RUNTIME_UPDATE_PROTOCOL,
};
use std::path::PathBuf;

fn plan() -> RuntimeUpdatePlan {
    RuntimeUpdatePlan {
        sidecar: "chat".to_owned(),
        runtime_namespace: "ores-chat".to_owned(),
        provider: RuntimeUpdateProvider::OresRedisLruCache,
        lru_config_path: PathBuf::from(".ores-lru.toml"),
        role: RuntimeUpdateRole::Server,
        cache: RUNTIME_CACHE_NAME.to_owned(),
        allowed_keys: RuntimeKeySet::from_keys(vec![
            "PROVIDER_TIMEOUT_MS".to_owned(),
            "WORKER_BATCH_SIZE".to_owned(),
        ]),
    }
}

fn snapshot(revision: u64, values: Vec<RuntimeValue>) -> RuntimeSnapshotUpdate {
    RuntimeSnapshotUpdate {
        protocol: RUNTIME_UPDATE_PROTOCOL.to_owned(),
        sidecar: "chat".to_owned(),
        revision: revision.to_string(),
        values,
    }
}

fn event(
    revision: u64,
    operation: RuntimeEventOperation,
    values: Vec<RuntimeValue>,
    keys: Vec<String>,
) -> RuntimeEventUpdate {
    RuntimeEventUpdate {
        protocol: RUNTIME_EVENT_PROTOCOL.to_owned(),
        sidecar: "chat".to_owned(),
        revision: revision.to_string(),
        operation,
        values,
        keys,
    }
}

fn value(key: &str, value: &str) -> RuntimeValue {
    RuntimeValue {
        key: key.to_owned(),
        value: value.to_owned(),
    }
}

#[test]
fn pure_event_transition_preserves_source_and_matches_imperative_shell() {
    let source = RuntimeEventState::new(&plan())
        .transition_snapshot(snapshot(1, Vec::new()))
        .unwrap()
        .next;
    let update = event(
        2,
        RuntimeEventOperation::Upsert,
        vec![value("PROVIDER_TIMEOUT_MS", "2500")],
        Vec::new(),
    );
    let transition = source.transition_event(update.clone()).unwrap();

    assert_eq!(source.snapshot().revision, 1);
    assert!(source.snapshot().values.is_empty());
    assert_eq!(transition.next.snapshot().revision, 2);
    assert_eq!(
        transition.next.snapshot().values.get("PROVIDER_TIMEOUT_MS").map(String::as_str),
        Some("2500")
    );

    let mut applied = source.clone();
    let outcome = applied.apply_event(update).unwrap();
    assert_eq!(outcome, transition.outcome);
    assert_eq!(applied, transition.next);
}

#[test]
fn revision_gap_is_sticky_until_authoritative_snapshot_repair() {
    let seeded = RuntimeEventState::new(&plan())
        .transition_snapshot(snapshot(1, Vec::new()))
        .unwrap()
        .next;
    let gap = seeded
        .transition_event(event(
            3,
            RuntimeEventOperation::Upsert,
            vec![value("WORKER_BATCH_SIZE", "20")],
            Vec::new(),
        ))
        .unwrap();
    assert_eq!(
        gap.outcome,
        RuntimeEventOutcome::ReconcileRequired {
            current: 1,
            incoming: 3,
        }
    );
    assert!(gap.next.is_stale());
    assert_eq!(gap.next.snapshot().revision, 1);
    assert!(!seeded.is_stale());

    let fill = gap
        .next
        .transition_event(event(
            2,
            RuntimeEventOperation::Upsert,
            vec![value("WORKER_BATCH_SIZE", "15")],
            Vec::new(),
        ))
        .unwrap();
    assert!(fill.next.is_stale());
    assert_eq!(fill.next.snapshot().revision, 1);

    let repaired = fill
        .next
        .transition_snapshot(snapshot(3, vec![value("WORKER_BATCH_SIZE", "20")]))
        .unwrap();
    assert!(!repaired.next.is_stale());
    assert_eq!(repaired.next.snapshot().revision, 3);
    assert_eq!(
        repaired.next.snapshot().values.get("WORKER_BATCH_SIZE").map(String::as_str),
        Some("20")
    );
}

#[test]
fn equal_revision_snapshot_can_repair_stale_local_values() {
    let seeded = RuntimeEventState::new(&plan())
        .transition_snapshot(snapshot(2, vec![value("PROVIDER_TIMEOUT_MS", "old")]))
        .unwrap()
        .next;
    let stale = seeded
        .transition_event(event(4, RuntimeEventOperation::Invalidate, Vec::new(), Vec::new()))
        .unwrap()
        .next;
    assert!(stale.is_stale());

    let repaired = stale
        .transition_snapshot(snapshot(2, vec![value("PROVIDER_TIMEOUT_MS", "repaired")]))
        .unwrap();
    assert_eq!(
        repaired.outcome,
        RuntimeApplyOutcome::Applied {
            previous: 2,
            current: 2,
        }
    );
    assert!(!repaired.next.is_stale());
    assert_eq!(
        repaired.next.snapshot().values.get("PROVIDER_TIMEOUT_MS").map(String::as_str),
        Some("repaired")
    );
}

#[test]
fn delete_replace_invalidate_and_resync_remain_distinct() {
    let mut state = RuntimeEventState::new(&plan());
    state
        .apply_snapshot(snapshot(
            1,
            vec![
                value("PROVIDER_TIMEOUT_MS", "2500"),
                value("WORKER_BATCH_SIZE", "10"),
            ],
        ))
        .unwrap();

    state
        .apply_event(event(
            2,
            RuntimeEventOperation::Delete,
            Vec::new(),
            vec!["PROVIDER_TIMEOUT_MS".to_owned()],
        ))
        .unwrap();
    assert!(!state.snapshot().values.contains_key("PROVIDER_TIMEOUT_MS"));

    state
        .apply_event(event(
            3,
            RuntimeEventOperation::Replace,
            vec![value("PROVIDER_TIMEOUT_MS", "3000")],
            Vec::new(),
        ))
        .unwrap();
    assert_eq!(state.snapshot().values.len(), 1);
    assert!(!state.snapshot().values.contains_key("WORKER_BATCH_SIZE"));

    state
        .apply_event(event(4, RuntimeEventOperation::Invalidate, Vec::new(), Vec::new()))
        .unwrap();
    assert!(state.snapshot().values.is_empty());

    let resync = state
        .apply_event(event(5, RuntimeEventOperation::Resync, Vec::new(), Vec::new()))
        .unwrap();
    assert_eq!(
        resync,
        RuntimeEventOutcome::ReconcileRequired {
            current: 4,
            incoming: 5,
        }
    );
    assert!(state.is_stale());
    assert_eq!(state.snapshot().revision, 4);
}

#[test]
fn malformed_events_fail_before_duplicate_detection_and_never_mutate() {
    let state = RuntimeEventState::new(&plan())
        .transition_snapshot(snapshot(2, Vec::new()))
        .unwrap()
        .next;
    let malformed_duplicate = event(
        2,
        RuntimeEventOperation::Delete,
        vec![value("PROVIDER_TIMEOUT_MS", "ignored")],
        vec!["PROVIDER_TIMEOUT_MS".to_owned()],
    );
    assert!(matches!(
        state.transition_event(malformed_duplicate),
        Err(RuntimeEventError::InvalidEvent(_))
    ));
    assert_eq!(state.snapshot().revision, 2);
    assert!(!state.is_stale());
}

#[test]
fn invalid_allowlist_data_is_atomic_and_does_not_trip_the_stale_fence() {
    let state = RuntimeEventState::new(&plan())
        .transition_snapshot(snapshot(1, Vec::new()))
        .unwrap()
        .next;
    let invalid = state.transition_event(event(
        2,
        RuntimeEventOperation::Upsert,
        vec![
            value("WORKER_BATCH_SIZE", "10"),
            value("UNDECLARED_FLAG", "true"),
        ],
        Vec::new(),
    ));
    assert!(matches!(
        invalid,
        Err(RuntimeEventError::RuntimeKeyNotAllowed(key)) if key == "UNDECLARED_FLAG"
    ));
    assert_eq!(state.snapshot().revision, 1);
    assert!(state.snapshot().values.is_empty());
    assert!(!state.is_stale());
}

#[test]
fn duplicate_events_are_idempotent_and_preserve_stale_state() {
    let seeded = RuntimeEventState::new(&plan())
        .transition_snapshot(snapshot(2, Vec::new()))
        .unwrap()
        .next;
    let duplicate = seeded
        .transition_event(event(2, RuntimeEventOperation::Invalidate, Vec::new(), Vec::new()))
        .unwrap();
    assert_eq!(
        duplicate.outcome,
        RuntimeEventOutcome::Duplicate {
            current: 2,
            incoming: 2,
        }
    );
    assert_eq!(duplicate.next, seeded);

    let stale = seeded
        .transition_event(event(4, RuntimeEventOperation::Invalidate, Vec::new(), Vec::new()))
        .unwrap()
        .next;
    assert!(stale.is_stale());
    let old = stale
        .transition_event(event(2, RuntimeEventOperation::Invalidate, Vec::new(), Vec::new()))
        .unwrap();
    assert!(old.next.is_stale());
    assert_eq!(old.next.snapshot().revision, 2);
}

#[test]
fn event_revision_zero_and_unsafe_integer_bounds_fail_closed() {
    let state = RuntimeEventState::new(&plan());
    let mut zero = event(1, RuntimeEventOperation::Invalidate, Vec::new(), Vec::new());
    zero.revision = "0".to_owned();
    assert_eq!(
        state.transition_event(zero).unwrap_err(),
        RuntimeEventError::InvalidRevision
    );

    let mut oversized = event(1, RuntimeEventOperation::Invalidate, Vec::new(), Vec::new());
    oversized.revision = (MAX_SAFE_REVISION + 1).to_string();
    assert_eq!(
        state.transition_event(oversized).unwrap_err(),
        RuntimeEventError::InvalidRevision
    );
}
