use ores_sidecar::{
    RuntimeApplyOutcome, RuntimeEventError, RuntimeEventOperation, RuntimeEventOutcome,
    RuntimeEventState, RuntimeEventUpdate, RuntimeKeySet, RuntimeSnapshotUpdate, RuntimeUpdatePlan,
    RuntimeUpdateProvider, RuntimeUpdateRole, RuntimeValue, MAX_RUNTIME_KEYS,
    MAX_RUNTIME_VALUE_BYTES, MAX_SAFE_REVISION, RUNTIME_CACHE_NAME, RUNTIME_EVENT_PROTOCOL,
    RUNTIME_UPDATE_PROTOCOL,
};
use std::path::PathBuf;

fn state_with(allowed: Vec<String>) -> RuntimeEventState {
    RuntimeEventState::new(&RuntimeUpdatePlan {
        sidecar: "chat".to_owned(),
        runtime_namespace: "ores-chat".to_owned(),
        provider: RuntimeUpdateProvider::OresRedisLruCache,
        lru_config_path: PathBuf::from(".ores-lru.toml"),
        role: RuntimeUpdateRole::Server,
        cache: RUNTIME_CACHE_NAME.to_owned(),
        allowed_keys: RuntimeKeySet::from_keys(allowed),
    })
}

fn state() -> RuntimeEventState {
    state_with(vec!["WORKER_BATCH_SIZE".to_owned(), "PROVIDER_TIMEOUT_MS".to_owned()])
}

fn value(key: &str, value: &str) -> RuntimeValue {
    RuntimeValue { key: key.to_owned(), value: value.to_owned() }
}

fn snapshot(revision: &str, values: Vec<RuntimeValue>) -> RuntimeSnapshotUpdate {
    RuntimeSnapshotUpdate {
        protocol: RUNTIME_UPDATE_PROTOCOL.to_owned(),
        sidecar: "chat".to_owned(),
        revision: revision.to_owned(),
        values,
    }
}

fn event(revision: &str, operation: RuntimeEventOperation) -> RuntimeEventUpdate {
    RuntimeEventUpdate {
        protocol: RUNTIME_EVENT_PROTOCOL.to_owned(),
        sidecar: "chat".to_owned(),
        revision: revision.to_owned(),
        operation,
        values: Vec::new(),
        keys: Vec::new(),
    }
}

fn upsert(revision: &str, values: Vec<RuntimeValue>) -> RuntimeEventUpdate {
    RuntimeEventUpdate { values, ..event(revision, RuntimeEventOperation::Upsert) }
}

fn delete(revision: &str, keys: Vec<String>) -> RuntimeEventUpdate {
    RuntimeEventUpdate { keys, ..event(revision, RuntimeEventOperation::Delete) }
}

#[test]
fn protocol_names_are_the_wire_names() {
    assert_eq!(RUNTIME_UPDATE_PROTOCOL, "ores.sidecar-runtime.v1");
    assert_eq!(RUNTIME_EVENT_PROTOCOL, "ores.sidecar-runtime-event.v1");
    assert_eq!(RUNTIME_CACHE_NAME, "runtime-env");
    assert_eq!(MAX_SAFE_REVISION, 9007199254740991);
    assert_eq!(MAX_RUNTIME_VALUE_BYTES, 64 * 1024);
}

#[test]
fn wrong_protocol_is_refused_before_anything_else() {
    let mut foreign = event("x", RuntimeEventOperation::Upsert);
    foreign.protocol = RUNTIME_UPDATE_PROTOCOL.to_owned();
    foreign.sidecar = "other".to_owned();
    assert_eq!(
        state().transition_event(foreign).unwrap_err(),
        RuntimeEventError::InvalidEvent("unsupported runtime event protocol")
    );

    let mut foreign = snapshot("x", Vec::new());
    foreign.protocol = RUNTIME_EVENT_PROTOCOL.to_owned();
    assert_eq!(
        state().transition_snapshot(foreign).unwrap_err(),
        RuntimeEventError::InvalidSnapshot("unsupported runtime protocol")
    );
}

#[test]
fn wrong_target_names_both_sidecars() {
    let mut foreign = event("x", RuntimeEventOperation::Upsert);
    foreign.sidecar = "other".to_owned();
    let mismatch = RuntimeEventError::TargetMismatch {
        expected: "chat".to_owned(),
        actual: "other".to_owned(),
    };
    assert_eq!(state().transition_event(foreign).unwrap_err(), mismatch);
    assert_eq!(mismatch.message(), "runtime update targeted other, expected chat");

    let mut foreign = snapshot("x", Vec::new());
    foreign.sidecar = "other".to_owned();
    assert_eq!(state().transition_snapshot(foreign).unwrap_err(), mismatch);
}

#[test]
fn noncanonical_revisions_are_refused() {
    for revision in [
        "",
        "00",
        "01",
        "+1",
        "-1",
        " 1",
        "1 ",
        "1_000",
        "1e3",
        "\u{661}",
        "9007199254740992",
        "9999999999999999",
        "10000000000000000",
        "18446744073709551615",
    ] {
        let mut state = state();
        let before = state.clone();
        assert_eq!(
            state.apply_snapshot(snapshot(revision, Vec::new())),
            Err(RuntimeEventError::InvalidRevision)
        );
        assert_eq!(
            state.apply_event(event(revision, RuntimeEventOperation::Invalidate)),
            Err(RuntimeEventError::InvalidRevision)
        );
        assert_eq!(state, before);
    }
}

#[test]
fn bounds_of_the_revision_are_accepted() {
    let mut low = state();
    assert_eq!(
        low.apply_snapshot(snapshot("0", Vec::new())),
        Ok(RuntimeApplyOutcome::Applied { previous: 0, current: 0 })
    );
    let mut high = state();
    assert_eq!(
        high.apply_snapshot(snapshot("9007199254740990", Vec::new())),
        Ok(RuntimeApplyOutcome::Applied { previous: 0, current: 9007199254740990 })
    );
    assert_eq!(
        high.apply_event(event("9007199254740991", RuntimeEventOperation::Invalidate)),
        Ok(RuntimeEventOutcome::Applied {
            previous: 9007199254740990,
            current: MAX_SAFE_REVISION,
        })
    );
    assert_eq!(
        high.apply_event(event("9007199254740991", RuntimeEventOperation::Invalidate)),
        Ok(RuntimeEventOutcome::Duplicate {
            current: MAX_SAFE_REVISION,
            incoming: MAX_SAFE_REVISION,
        })
    );
}

#[test]
fn every_operation_refuses_what_it_does_not_carry() {
    let key = || vec!["WORKER_BATCH_SIZE".to_owned()];
    let entry = || vec![value("WORKER_BATCH_SIZE", "1")];
    let refused = RuntimeEventError::InvalidEvent("runtime event operation payload is invalid");
    for (operation, values, keys) in [
        (RuntimeEventOperation::Upsert, Vec::new(), Vec::new()),
        (RuntimeEventOperation::Upsert, entry(), key()),
        (RuntimeEventOperation::Delete, Vec::new(), Vec::new()),
        (RuntimeEventOperation::Delete, entry(), key()),
        (RuntimeEventOperation::Replace, entry(), key()),
        (RuntimeEventOperation::Invalidate, entry(), Vec::new()),
        (RuntimeEventOperation::Invalidate, Vec::new(), key()),
        (RuntimeEventOperation::Resync, entry(), Vec::new()),
        (RuntimeEventOperation::Resync, Vec::new(), key()),
    ] {
        let malformed = RuntimeEventUpdate { values, keys, ..event("1", operation) };
        assert_eq!(state().transition_event(malformed).unwrap_err(), refused);
    }
    assert_eq!(
        refused.message(),
        "runtime event is invalid: runtime event operation payload is invalid"
    );
}

#[test]
fn replace_with_nothing_clears_the_overlay() {
    let mut state = state();
    state.apply_snapshot(snapshot("1", vec![value("WORKER_BATCH_SIZE", "10")])).unwrap();
    state.apply_event(event("2", RuntimeEventOperation::Replace)).unwrap();
    assert!(state.snapshot().values.is_empty());
    assert_eq!(state.snapshot().revision, 2);
}

#[test]
fn first_fault_among_the_entries_is_reported() {
    let state = state();
    let refusal = |values: Vec<RuntimeValue>| state.transition_event(upsert("1", values)).unwrap_err();
    let big = "v".repeat(MAX_RUNTIME_VALUE_BYTES + 1);
    assert_eq!(
        refusal(vec![value("API_TOKEN", "x"), value("UNDECLARED_FLAG", "x")]),
        RuntimeEventError::InvalidRuntimeKey("API_TOKEN".to_owned())
    );
    assert_eq!(
        refusal(vec![value("UNDECLARED_FLAG", "x"), value("API_TOKEN", "x")]),
        RuntimeEventError::RuntimeKeyNotAllowed("UNDECLARED_FLAG".to_owned())
    );
    assert_eq!(
        refusal(vec![value("WORKER_BATCH_SIZE", &big), value("API_TOKEN", "x")]),
        RuntimeEventError::InvalidEvent("runtime value exceeds 64 KiB")
    );
    assert_eq!(
        refusal(vec![
            value("WORKER_BATCH_SIZE", "1"),
            value("PROVIDER_TIMEOUT_MS", "1"),
            value("WORKER_BATCH_SIZE", "2"),
        ]),
        RuntimeEventError::DuplicateRuntimeValue("WORKER_BATCH_SIZE".to_owned())
    );
    assert_eq!(
        refusal(vec![value("WORKER_BATCH_SIZE", "1"), value("WORKER_BATCH_SIZE", &big)]),
        RuntimeEventError::InvalidEvent("runtime value exceeds 64 KiB")
    );
}

#[test]
fn size_of_a_value_counts_bytes() {
    let mut state = state();
    let full = "v".repeat(MAX_RUNTIME_VALUE_BYTES);
    assert!(state.apply_event(upsert("1", vec![value("WORKER_BATCH_SIZE", &full)])).is_ok());
    let wide = "\u{e9}".repeat(MAX_RUNTIME_VALUE_BYTES / 2);
    assert!(state.apply_event(upsert("2", vec![value("WORKER_BATCH_SIZE", &wide)])).is_ok());
    let wider = "\u{e9}".repeat(MAX_RUNTIME_VALUE_BYTES / 2 + 1);
    assert_eq!(
        state.apply_event(upsert("3", vec![value("WORKER_BATCH_SIZE", &wider)])),
        Err(RuntimeEventError::InvalidEvent("runtime value exceeds 64 KiB"))
    );
    assert_eq!(state.snapshot().values.get("WORKER_BATCH_SIZE"), Some(&wide));
}

#[test]
fn number_of_entries_is_bounded() {
    let names: Vec<String> = (0..=MAX_RUNTIME_KEYS).map(|i| format!("KEY_{i}")).collect();
    let entries = |count: usize| -> Vec<RuntimeValue> {
        names.iter().take(count).map(|name| value(name, "1")).collect()
    };
    let mut state = state_with(names.clone());
    assert!(state.apply_event(upsert("1", entries(MAX_RUNTIME_KEYS))).is_ok());
    assert_eq!(state.snapshot().values.len(), MAX_RUNTIME_KEYS);
    let too_many = RuntimeEventError::InvalidEvent("runtime update contains too many values");
    assert_eq!(state.apply_event(upsert("2", entries(MAX_RUNTIME_KEYS + 1))), Err(too_many));
    let too_many = RuntimeEventError::InvalidEvent("runtime update contains too many values");
    assert_eq!(
        state.apply_snapshot(snapshot("2", entries(MAX_RUNTIME_KEYS + 1))),
        Err(too_many)
    );
    assert_eq!(
        state.apply_event(delete("2", names.clone())),
        Err(RuntimeEventError::InvalidEvent("runtime delete contains too many keys"))
    );
    let kept = names[..MAX_RUNTIME_KEYS].to_vec();
    assert!(state.apply_event(delete("2", kept)).is_ok());
    assert!(state.snapshot().values.is_empty());
}

#[test]
fn first_fault_among_the_keys_is_reported() {
    let state = state();
    let refusal = |keys: Vec<&str>| {
        let keys = keys.into_iter().map(str::to_owned).collect();
        state.transition_event(delete("1", keys)).unwrap_err()
    };
    assert_eq!(
        refusal(vec!["WORKER_BATCH_SIZE", "lower"]),
        RuntimeEventError::InvalidRuntimeKey("lower".to_owned())
    );
    assert_eq!(
        refusal(vec!["UNDECLARED_FLAG", "lower"]),
        RuntimeEventError::RuntimeKeyNotAllowed("UNDECLARED_FLAG".to_owned())
    );
    assert_eq!(
        refusal(vec!["WORKER_BATCH_SIZE", "WORKER_BATCH_SIZE"]),
        RuntimeEventError::DuplicateRuntimeValue("WORKER_BATCH_SIZE".to_owned())
    );
}

#[test]
fn delete_of_an_unset_key_applies() {
    let mut state = state();
    assert_eq!(
        state.apply_event(delete("1", vec!["WORKER_BATCH_SIZE".to_owned()])),
        Ok(RuntimeEventOutcome::Applied { previous: 0, current: 1 })
    );
    assert!(state.snapshot().values.is_empty());
}

#[test]
fn upsert_reads_back_and_leaves_the_rest() {
    let mut state = state();
    state
        .apply_snapshot(snapshot(
            "7",
            vec![value("PROVIDER_TIMEOUT_MS", "2500"), value("WORKER_BATCH_SIZE", "10")],
        ))
        .unwrap();
    state.apply_event(upsert("8", vec![value("WORKER_BATCH_SIZE", "20")])).unwrap();
    let values = &state.snapshot().values;
    assert_eq!(values.get("WORKER_BATCH_SIZE").map(String::as_str), Some("20"));
    assert_eq!(values.get("PROVIDER_TIMEOUT_MS").map(String::as_str), Some("2500"));
    assert_eq!(values.len(), 2);
}

#[test]
fn older_snapshot_is_ignored_with_whatever_it_carries() {
    let mut state = state();
    state.apply_snapshot(snapshot("5", vec![value("WORKER_BATCH_SIZE", "5")])).unwrap();
    state.apply_event(event("9", RuntimeEventOperation::Invalidate)).unwrap();
    let before = state.clone();
    assert_eq!(
        state.apply_snapshot(snapshot("4", vec![value("API_TOKEN", "x")])),
        Ok(RuntimeApplyOutcome::StaleIgnored { current: 5, incoming: 4 })
    );
    assert_eq!(state, before);
    assert!(state.is_stale());
    assert_eq!(
        state.apply_snapshot(snapshot("5", vec![value("API_TOKEN", "x")])),
        Err(RuntimeEventError::InvalidRuntimeKey("API_TOKEN".to_owned()))
    );
    assert_eq!(state, before);
}

#[test]
fn no_event_clears_the_fence() {
    let mut state = state();
    state.apply_event(event("1", RuntimeEventOperation::Resync)).unwrap();
    let fenced = state.clone();
    assert!(fenced.is_stale());
    for (revision, operation) in [
        ("1", RuntimeEventOperation::Invalidate),
        ("1", RuntimeEventOperation::Replace),
        ("2", RuntimeEventOperation::Resync),
        ("100", RuntimeEventOperation::Invalidate),
    ] {
        let outcome = state.apply_event(event(revision, operation)).unwrap();
        assert!(matches!(outcome, RuntimeEventOutcome::ReconcileRequired { current: 0, .. }));
        assert_eq!(state, fenced);
    }
}

#[test]
fn old_resync_is_only_a_duplicate() {
    let mut state = state();
    state.apply_snapshot(snapshot("3", Vec::new())).unwrap();
    assert_eq!(
        state.apply_event(event("3", RuntimeEventOperation::Resync)),
        Ok(RuntimeEventOutcome::Duplicate { current: 3, incoming: 3 })
    );
    assert!(!state.is_stale());
}

#[test]
fn updates_are_idempotent() {
    let mut state = state();
    let applied = upsert("1", vec![value("WORKER_BATCH_SIZE", "1")]);
    state.apply_event(applied.clone()).unwrap();
    let once = state.clone();
    assert_eq!(
        state.apply_event(applied),
        Ok(RuntimeEventOutcome::Duplicate { current: 1, incoming: 1 })
    );
    assert_eq!(state, once);

    let repair = snapshot("4", vec![value("PROVIDER_TIMEOUT_MS", "4")]);
    state.apply_snapshot(repair.clone()).unwrap();
    let once = state.clone();
    assert_eq!(
        state.apply_snapshot(repair),
        Ok(RuntimeApplyOutcome::Applied { previous: 4, current: 4 })
    );
    assert_eq!(state, once);
}

#[test]
fn replicas_converge_on_a_snapshot() {
    let mut one = state();
    let mut other = state();
    one.apply_event(upsert("1", vec![value("WORKER_BATCH_SIZE", "1")])).unwrap();
    other.apply_event(event("3", RuntimeEventOperation::Invalidate)).unwrap();
    assert_ne!(one, other);
    let repair = snapshot("3", vec![value("WORKER_BATCH_SIZE", "3"), value("PROVIDER_TIMEOUT_MS", "3")]);
    let mut reordered = repair.clone();
    reordered.values.reverse();
    one.apply_snapshot(repair).unwrap();
    other.apply_snapshot(reordered).unwrap();
    assert_eq!(one, other);
}

#[test]
fn sequential_log_applies_in_full() {
    let mut state = state();
    for revision in 1..=40u64 {
        let text = revision.to_string();
        assert_eq!(
            state.apply_event(upsert(&text, vec![value("WORKER_BATCH_SIZE", &text)])),
            Ok(RuntimeEventOutcome::Applied { previous: revision - 1, current: revision })
        );
    }
    assert_eq!(state.snapshot().revision, 40);
    assert_eq!(state.snapshot().values.get("WORKER_BATCH_SIZE").map(String::as_str), Some("40"));
    assert!(!state.is_stale());
}

#[test]
fn diagnostics_do_not_hold_rejected_values() {
    let state = state();
    let refusal = |text: &str| {
        state
            .transition_event(upsert(
                "1",
                vec![value("WORKER_BATCH_SIZE", text), value("UNDECLARED_FLAG", text)],
            ))
            .unwrap_err()
    };
    assert_eq!(refusal("hunter2"), refusal("other"));
    assert_eq!(
        refusal("hunter2").message(),
        "runtime key is not allowlisted by .ores-sidecar.toml: UNDECLARED_FLAG"
    );
}

#[test]
fn every_refusal_has_its_diagnostic() {
    assert_eq!(
        RuntimeEventError::InvalidSnapshot("unsupported runtime protocol").message(),
        "runtime snapshot is invalid: unsupported runtime protocol"
    );
    assert_eq!(
        RuntimeEventError::InvalidRevision.message(),
        "runtime revision must be canonical decimal within the cross-runtime safe integer bound"
    );
    assert_eq!(
        RuntimeEventError::InvalidRuntimeKey("API_TOKEN".to_owned()).message(),
        "invalid or secret-bearing runtime key: API_TOKEN"
    );
    assert_eq!(
        RuntimeEventError::DuplicateRuntimeValue("A".to_owned()).message(),
        "duplicate runtime value or key: A"
    );
}
