//! Ordered provider-event reconciliation.
//!
//! Incremental events are accepted only when they are exactly sequential. A valid revision gap or
//! an explicit `resync` makes the state sticky-stale; only an authoritative full snapshot can clear
//! that fence. The preferred functions are pure transitions that return an independent next state.
//! The imperative `apply_*` methods are shells around those transitions.

use crate::contract::{
    RuntimeApplyOutcome, RuntimeSnapshot, RuntimeSnapshotUpdate, RuntimeUpdatePlan,
    MAX_RUNTIME_KEYS, MAX_RUNTIME_VALUE_BYTES, RUNTIME_UPDATE_PROTOCOL,
};
use crate::error::ErrorModel;
use crate::key_set::RuntimeKeySet;
use crate::model::StateModel;
use crate::revision::parse_revision;
use crate::runtime_key::is_runtime_key_allowed;
use crate::text::same_text;
use crate::value_map::{RuntimeValue, RuntimeValueMap};
use vstd::prelude::*;

pub use crate::contract::RUNTIME_EVENT_PROTOCOL;
pub use crate::error::{RuntimeEventError, RuntimeEventResult};

verus! {

/// What an event does to the overlay.
#[derive(Clone, Copy, Debug, PartialEq, Eq, Structural)]
pub enum RuntimeEventOperation {
    Upsert,
    Delete,
    Replace,
    Invalidate,
    Resync,
}

/// Ordered provider event after the transport adapter has authenticated and decoded it.
#[derive(Debug, PartialEq, Eq)]
pub struct RuntimeEventUpdate {
    pub protocol: String,
    pub sidecar: String,
    /// Canonical positive decimal. Strings preserve the cross-runtime safe-integer boundary.
    pub revision: String,
    pub operation: RuntimeEventOperation,
    pub values: Vec<RuntimeValue>,
    pub keys: Vec<String>,
}

/// What an event did to the state.
#[derive(Clone, Copy, Debug, PartialEq, Eq, Structural)]
pub enum RuntimeEventOutcome {
    Applied { previous: u64, current: u64 },
    Duplicate { current: u64, incoming: u64 },
    ReconcileRequired { current: u64, incoming: u64 },
}

/// The state that an event leads to, and what the event did.
#[derive(Debug, PartialEq, Eq)]
pub struct RuntimeEventTransition {
    pub next: RuntimeEventState,
    pub outcome: RuntimeEventOutcome,
}

/// The state that a snapshot leads to, and what the snapshot did.
#[derive(Debug, PartialEq, Eq)]
pub struct RuntimeEventSnapshotTransition {
    pub next: RuntimeEventState,
    pub outcome: RuntimeApplyOutcome,
}

/// Event-aware runtime overlay state.
///
/// A revision gap or an explicit `resync` event makes this state sticky-stale. Incremental events
/// can never clear that state, even if the missing revision subsequently arrives. A full snapshot
/// at the current or a newer revision is required to repair it.
#[derive(Debug)]
pub struct RuntimeEventState {
    sidecar: String,
    allowed_keys: RuntimeKeySet,
    snapshot: RuntimeSnapshot,
    stale: bool,
}

impl View for RuntimeEventState {
    type V = StateModel;

    closed spec fn view(&self) -> StateModel {
        StateModel {
            sidecar: self.sidecar@,
            allowed_keys: self.allowed_keys@,
            revision: self.snapshot.revision,
            values: self.snapshot.values@,
            stale: self.stale,
        }
    }
}

impl RuntimeEventState {
    #[verifier::type_invariant]
    spec fn valid(&self) -> bool {
        self@.is_valid()
    }

    /// The state of a sidecar before any update.
    pub fn new(plan: &RuntimeUpdatePlan) -> (state: Self)
        ensures
            state@ == StateModel::initial(plan.sidecar@, plan.allowed_keys@),
            state@.sidecar == plan.sidecar@,
            state@.allowed_keys == plan.allowed_keys@,
            state@.revision == 0,
            state@.values == Map::<Seq<char>, Seq<char>>::empty(),
            !state@.stale,
    {
        RuntimeEventState {
            sidecar: plan.sidecar.clone(),
            allowed_keys: plan.allowed_keys.independent(),
            snapshot: RuntimeSnapshot { revision: 0, values: RuntimeValueMap::new() },
            stale: false,
        }
    }

    /// The overlay, with its revision.
    #[must_use]
    pub fn snapshot(&self) -> (snapshot: &RuntimeSnapshot)
        ensures
            snapshot.revision == self@.revision,
            snapshot.values@ == self@.values,
            self@.is_valid(),
    {
        proof {
            use_type_invariant(self);
        }
        &self.snapshot
    }

    /// Whether the overlay has to be repaired by a snapshot.
    #[must_use]
    pub fn is_stale(&self) -> (stale: bool)
        ensures
            stale == self@.stale,
    {
        self.stale
    }

    /// An equal state, in storage of its own.
    fn independent(&self) -> (copy: Self)
        ensures
            copy@ == self@,
    {
        proof {
            use_type_invariant(self);
        }
        RuntimeEventState {
            sidecar: self.sidecar.clone(),
            allowed_keys: self.allowed_keys.independent(),
            snapshot: RuntimeSnapshot {
                revision: self.snapshot.revision,
                values: self.snapshot.values.independent(),
            },
            stale: self.stale,
        }
    }

    /// Computes an authoritative snapshot repair and leaves `self` as it is.
    ///
    /// Equal revisions are accepted deliberately: reconciliation may need to repair divergent local
    /// values without inventing a provider revision. Older snapshots are ignored and do not clear a
    /// stale fence.
    pub fn transition_snapshot(&self, update: RuntimeSnapshotUpdate) -> (result: RuntimeEventResult<
        RuntimeEventSnapshotTransition,
    >)
        ensures
            result matches Ok(transition) ==> {
                &&& self@.snapshot_refusal(update@) is None
                &&& (transition.next@, transition.outcome) == self@.after_snapshot(update@)
            },
            result matches Err(error) ==> self@.snapshot_refusal(update@) == Some(error@),
    {
        proof {
            use_type_invariant(self);
        }
        if !same_text(update.protocol.as_str(), RUNTIME_UPDATE_PROTOCOL) {
            return Err(RuntimeEventError::InvalidSnapshot("unsupported runtime protocol"));
        }
        if !same_text(update.sidecar.as_str(), self.sidecar.as_str()) {
            return Err(
                RuntimeEventError::TargetMismatch {
                    expected: self.sidecar.clone(),
                    actual: update.sidecar,
                },
            );
        }
        let revision = match parse_revision(update.revision.as_str(), false) {
            Ok(revision) => revision,
            Err(error) => return Err(error),
        };
        if revision < self.snapshot.revision {
            return Ok(
                RuntimeEventSnapshotTransition {
                    next: self.independent(),
                    outcome: RuntimeApplyOutcome::StaleIgnored {
                        current: self.snapshot.revision,
                        incoming: revision,
                    },
                },
            );
        }
        let values = match validated_runtime_values(&self.allowed_keys, &update.values) {
            Ok(values) => values,
            Err(error) => return Err(error),
        };
        proof {
            crate::laws::snapshots_keep_the_state_valid(self@, update@);
        }
        Ok(
            RuntimeEventSnapshotTransition {
                next: RuntimeEventState {
                    sidecar: self.sidecar.clone(),
                    allowed_keys: self.allowed_keys.independent(),
                    snapshot: RuntimeSnapshot { revision, values },
                    stale: false,
                },
                outcome: RuntimeApplyOutcome::Applied {
                    previous: self.snapshot.revision,
                    current: revision,
                },
            },
        )
    }

    /// Imperative shell around [`Self::transition_snapshot`].
    pub fn apply_snapshot(&mut self, update: RuntimeSnapshotUpdate) -> (result: RuntimeEventResult<
        RuntimeApplyOutcome,
    >)
        ensures
            result matches Ok(outcome) ==> {
                &&& old(self)@.snapshot_refusal(update@) is None
                &&& (final(self)@, outcome) == old(self)@.after_snapshot(update@)
            },
            result matches Err(error) ==> {
                &&& old(self)@.snapshot_refusal(update@) == Some(error@)
                &&& *final(self) == *old(self)
            },
    {
        match self.transition_snapshot(update) {
            Ok(transition) => {
                let outcome = transition.outcome;
                *self = transition.next;
                Ok(outcome)
            },
            Err(error) => Err(error),
        }
    }

    /// Computes the next state for one ordered provider event and leaves `self` as it is.
    ///
    /// Validation is deliberately performed before duplicate detection, so that a malformed replay
    /// never becomes accepted evidence merely because its revision is old.
    pub fn transition_event(&self, update: RuntimeEventUpdate) -> (result: RuntimeEventResult<
        RuntimeEventTransition,
    >)
        ensures
            result matches Ok(transition) ==> {
                &&& self@.event_refusal(update@) is None
                &&& (transition.next@, transition.outcome) == self@.after_event(update@)
            },
            result matches Err(error) ==> self@.event_refusal(update@) == Some(error@),
    {
        proof {
            use_type_invariant(self);
        }
        if !same_text(update.protocol.as_str(), RUNTIME_EVENT_PROTOCOL) {
            return Err(RuntimeEventError::InvalidEvent("unsupported runtime event protocol"));
        }
        if !same_text(update.sidecar.as_str(), self.sidecar.as_str()) {
            return Err(
                RuntimeEventError::TargetMismatch {
                    expected: self.sidecar.clone(),
                    actual: update.sidecar,
                },
            );
        }
        let revision = match parse_revision(update.revision.as_str(), true) {
            Ok(revision) => revision,
            Err(error) => return Err(error),
        };
        match validate_event_shape(&update) {
            Ok(()) => {},
            Err(error) => return Err(error),
        }

        let validated_values = match update.operation {
            RuntimeEventOperation::Upsert | RuntimeEventOperation::Replace => {
                match validated_runtime_values(&self.allowed_keys, &update.values) {
                    Ok(values) => values,
                    Err(error) => return Err(error),
                }
            },
            _ => RuntimeValueMap::new(),
        };
        let validated_keys = if update.operation == RuntimeEventOperation::Delete {
            match validated_runtime_keys(&self.allowed_keys, &update.keys) {
                Ok(keys) => keys,
                Err(error) => return Err(error),
            }
        } else {
            Vec::new()
        };
        assert(self@.event_refusal(update@) is None);

        if revision <= self.snapshot.revision {
            return Ok(
                RuntimeEventTransition {
                    next: self.independent(),
                    outcome: RuntimeEventOutcome::Duplicate {
                        current: self.snapshot.revision,
                        incoming: revision,
                    },
                },
            );
        }
        if self.stale || revision != self.snapshot.revision.saturating_add(1) || update.operation
            == RuntimeEventOperation::Resync {
            let mut next = self.independent();
            next.stale = true;
            return Ok(
                RuntimeEventTransition {
                    next,
                    outcome: RuntimeEventOutcome::ReconcileRequired {
                        current: self.snapshot.revision,
                        incoming: revision,
                    },
                },
            );
        }
        let mut values = self.snapshot.values.independent();
        match update.operation {
            RuntimeEventOperation::Upsert => values.merge(validated_values),
            RuntimeEventOperation::Delete => values.remove_all(&validated_keys),
            RuntimeEventOperation::Replace => values = validated_values,
            RuntimeEventOperation::Invalidate => values = RuntimeValueMap::new(),
            RuntimeEventOperation::Resync => {},
        }
        proof {
            crate::laws::events_keep_the_state_valid(self@, update@);
        }
        Ok(
            RuntimeEventTransition {
                next: RuntimeEventState {
                    sidecar: self.sidecar.clone(),
                    allowed_keys: self.allowed_keys.independent(),
                    snapshot: RuntimeSnapshot { revision, values },
                    stale: false,
                },
                outcome: RuntimeEventOutcome::Applied {
                    previous: self.snapshot.revision,
                    current: revision,
                },
            },
        )
    }

    /// Imperative shell around [`Self::transition_event`].
    pub fn apply_event(&mut self, update: RuntimeEventUpdate) -> (result: RuntimeEventResult<
        RuntimeEventOutcome,
    >)
        ensures
            result matches Ok(outcome) ==> {
                &&& old(self)@.event_refusal(update@) is None
                &&& (final(self)@, outcome) == old(self)@.after_event(update@)
            },
            result matches Err(error) ==> {
                &&& old(self)@.event_refusal(update@) == Some(error@)
                &&& *final(self) == *old(self)
            },
    {
        match self.transition_event(update) {
            Ok(transition) => {
                let outcome = transition.outcome;
                *self = transition.next;
                Ok(outcome)
            },
            Err(error) => Err(error),
        }
    }
}

impl Clone for RuntimeEventState {
    fn clone(&self) -> (copy: Self)
        ensures
            copy@ == self@,
    {
        self.independent()
    }
}

impl PartialEq for RuntimeEventState {
    fn eq(&self, other: &Self) -> (same: bool)
        ensures
            same == (self@ == other@),
    {
        same_text(self.sidecar.as_str(), other.sidecar.as_str()) && self.allowed_keys
            == other.allowed_keys && self.snapshot == other.snapshot && self.stale == other.stale
    }
}

impl vstd::std_specs::cmp::PartialEqSpecImpl for RuntimeEventState {
    open spec fn obeys_eq_spec() -> bool {
        true
    }

    open spec fn eq_spec(&self, other: &Self) -> bool {
        self@ == other@
    }
}

impl Eq for RuntimeEventState {
}

impl Clone for RuntimeEventTransition {
    fn clone(&self) -> (copy: Self)
        ensures
            copy.next@ == self.next@,
            copy.outcome == self.outcome,
    {
        RuntimeEventTransition { next: self.next.independent(), outcome: self.outcome }
    }
}

impl Clone for RuntimeEventSnapshotTransition {
    fn clone(&self) -> (copy: Self)
        ensures
            copy.next@ == self.next@,
            copy.outcome == self.outcome,
    {
        RuntimeEventSnapshotTransition { next: self.next.independent(), outcome: self.outcome }
    }
}

impl Clone for RuntimeEventUpdate {
    fn clone(&self) -> (copy: Self)
        ensures
            copy@ == self@,
    {
        let copy = RuntimeEventUpdate {
            protocol: self.protocol.clone(),
            sidecar: self.sidecar.clone(),
            revision: self.revision.clone(),
            operation: self.operation,
            values: self.values.clone(),
            keys: self.keys.clone(),
        };
        assert(copy@.values =~= self@.values);
        assert(copy@.keys =~= self@.keys);
        copy
    }
}

/// Checks that an event carries what its operation calls for, and nothing else.
fn validate_event_shape(update: &RuntimeEventUpdate) -> (result: RuntimeEventResult<()>)
    ensures
        result is Ok <==> update@.is_well_shaped(),
        result matches Err(error) ==> error@ == ErrorModel::InvalidEvent(
            "runtime event operation payload is invalid"@,
        ),
{
    let valid = match update.operation {
        RuntimeEventOperation::Upsert => !update.values.is_empty() && update.keys.is_empty(),
        RuntimeEventOperation::Delete => update.values.is_empty() && !update.keys.is_empty(),
        RuntimeEventOperation::Replace => update.keys.is_empty(),
        RuntimeEventOperation::Invalidate | RuntimeEventOperation::Resync => {
            update.values.is_empty() && update.keys.is_empty()
        },
    };
    if valid {
        Ok(())
    } else {
        Err(RuntimeEventError::InvalidEvent("runtime event operation payload is invalid"))
    }
}

/// Checks the entries of an update, and makes the overlay that they describe.
pub fn validated_runtime_values(
    allowed_keys: &RuntimeKeySet,
    values: &Vec<RuntimeValue>,
) -> (result: RuntimeEventResult<RuntimeValueMap>)
    ensures
        result matches Ok(overlay) ==> {
            &&& crate::model::values_refusal(
                allowed_keys@,
                crate::value_map::entry_texts(values@),
            ) is None
            &&& overlay@ == crate::value_map::entries_map(crate::value_map::entry_texts(values@))
        },
        result matches Err(error) ==> crate::model::values_refusal(
            allowed_keys@,
            crate::value_map::entry_texts(values@),
        ) == Some(error@),
{
    if values.len() > MAX_RUNTIME_KEYS {
        return Err(RuntimeEventError::InvalidEvent("runtime update contains too many values"));
    }
    let ghost entries = crate::value_map::entry_texts(values@);
    let ghost verdicts = crate::model::entry_refusals(allowed_keys@, entries);
    let mut next = RuntimeValueMap::new();
    let mut at: usize = 0;
    assert(entries.take(0) =~= Seq::<crate::value_map::EntryModel>::empty());
    assert(verdicts.take(0) =~= Seq::<Option<ErrorModel>>::empty());
    while at < values.len()
        invariant
            at <= values.len() <= MAX_RUNTIME_KEYS,
            entries == crate::value_map::entry_texts(values@),
            verdicts == crate::model::entry_refusals(allowed_keys@, entries),
            crate::model::first_refusal(verdicts.take(at as int)) is None,
            next@ == crate::value_map::entries_map(entries.take(at as int)),
        decreases values.len() - at,
    {
        let entry = &values[at];
        proof {
            assert(entries[at as int] == entry@);
            crate::model::first_refusal_of_longer(verdicts, at as int);
            if verdicts[at as int] is Some {
                crate::model::first_refusal_of_prefix(verdicts, at + 1);
            }
            crate::value_map::entries_map_keys(entries.take(at as int));
            assert(entries.take(at + 1).drop_last() =~= entries.take(at as int));
        }
        match validate_runtime_key(entry.key.as_str()) {
            Ok(()) => {},
            Err(error) => return Err(error),
        }
        if !allowed_keys.contains(entry.key.as_str()) {
            return Err(RuntimeEventError::RuntimeKeyNotAllowed(entry.key.clone()));
        }
        if entry.value.as_str().as_bytes().len() > MAX_RUNTIME_VALUE_BYTES {
            return Err(RuntimeEventError::InvalidEvent("runtime value exceeds 64 KiB"));
        }
        if next.insert(entry.key.clone(), entry.value.clone()).is_some() {
            return Err(RuntimeEventError::DuplicateRuntimeValue(entry.key.clone()));
        }
        at += 1;
    }
    assert(entries.take(at as int) =~= entries);
    assert(verdicts.take(at as int) =~= verdicts);
    Ok(next)
}

/// Checks the keys to delete.
pub fn validated_runtime_keys(allowed_keys: &RuntimeKeySet, keys: &Vec<String>) -> (result:
    RuntimeEventResult<Vec<String>>)
    ensures
        result matches Ok(checked) ==> {
            &&& crate::model::keys_refusal(allowed_keys@, crate::key_set::texts(keys@)) is None
            &&& crate::key_set::texts(checked@) == crate::key_set::texts(keys@)
        },
        result matches Err(error) ==> crate::model::keys_refusal(
            allowed_keys@,
            crate::key_set::texts(keys@),
        ) == Some(error@),
{
    if keys.len() > MAX_RUNTIME_KEYS {
        return Err(RuntimeEventError::InvalidEvent("runtime delete contains too many keys"));
    }
    let ghost names = crate::key_set::texts(keys@);
    let ghost verdicts = crate::model::deletion_refusals(allowed_keys@, names);
    let mut unique = RuntimeKeySet::new();
    let mut checked: Vec<String> = Vec::new();
    let mut at: usize = 0;
    assert(names.take(0).to_set() =~= Set::<Seq<char>>::empty());
    assert(verdicts.take(0) =~= Seq::<Option<ErrorModel>>::empty());
    while at < keys.len()
        invariant
            at <= keys.len() <= MAX_RUNTIME_KEYS,
            names == crate::key_set::texts(keys@),
            verdicts == crate::model::deletion_refusals(allowed_keys@, names),
            crate::model::first_refusal(verdicts.take(at as int)) is None,
            unique@ == names.take(at as int).to_set(),
            checked@ == keys@.take(at as int),
        decreases keys.len() - at,
    {
        let key = &keys[at];
        proof {
            assert(names[at as int] == key@);
            crate::model::first_refusal_of_longer(verdicts, at as int);
            if verdicts[at as int] is Some {
                crate::model::first_refusal_of_prefix(verdicts, at + 1);
            }
            crate::key_set::to_set_of_longer(names, at as int);
        }
        match validate_runtime_key(key.as_str()) {
            Ok(()) => {},
            Err(error) => return Err(error),
        }
        if !allowed_keys.contains(key.as_str()) {
            return Err(RuntimeEventError::RuntimeKeyNotAllowed(key.clone()));
        }
        if !unique.insert(key.clone()) {
            return Err(RuntimeEventError::DuplicateRuntimeValue(key.clone()));
        }
        checked.push(key.clone());
        assert(checked@ =~= keys@.take(at + 1));
        at += 1;
    }
    assert(checked@ =~= keys@);
    assert(verdicts.take(at as int) =~= verdicts);
    Ok(checked)
}

/// Checks that a name may be a runtime key.
fn validate_runtime_key(key: &str) -> (result: RuntimeEventResult<()>)
    ensures
        result is Ok <==> crate::runtime_key::key_allowed(key@),
        result matches Err(error) ==> error@ == ErrorModel::InvalidRuntimeKey(key@),
{
    if is_runtime_key_allowed(key) {
        Ok(())
    } else {
        Err(RuntimeEventError::InvalidRuntimeKey(key.to_owned()))
    }
}

} // verus!
