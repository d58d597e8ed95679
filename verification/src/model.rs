//! What the runtime state machine does, on plain mathematical values.
//!
//! An update is either refused, and then nothing changes, or accepted, and then it leads to one
//! next state.

use crate::contract::{
    RuntimeApplyOutcome, RuntimeSnapshotUpdate, MAX_RUNTIME_KEYS, MAX_RUNTIME_VALUE_BYTES,
    RUNTIME_EVENT_PROTOCOL, RUNTIME_UPDATE_PROTOCOL,
};
use crate::error::ErrorModel;
use crate::revision::MAX_SAFE_REVISION;
use crate::runtime_events::{RuntimeEventOperation, RuntimeEventOutcome, RuntimeEventUpdate};
use crate::value_map::EntryModel;
use vstd::prelude::*;

verus! {

/// The first refusal of a sequence of verdicts, if there is any.
pub open spec fn first_refusal(verdicts: Seq<Option<ErrorModel>>) -> Option<ErrorModel>
    decreases verdicts.len(),
{
    if verdicts.len() == 0 {
        None
    } else if first_refusal(verdicts.drop_last()) is Some {
        first_refusal(verdicts.drop_last())
    } else {
        verdicts.last()
    }
}

/// A refusal that comes first among the first few verdicts comes first among all.
pub proof fn first_refusal_of_prefix(verdicts: Seq<Option<ErrorModel>>, count: int)
    requires
        0 <= count <= verdicts.len(),
        first_refusal(verdicts.take(count)) is Some,
    ensures
        first_refusal(verdicts) == first_refusal(verdicts.take(count)),
    decreases verdicts.len(),
{
    if count == verdicts.len() {
        assert(verdicts.take(count) =~= verdicts);
    } else {
        assert(verdicts.drop_last().take(count) =~= verdicts.take(count));
        first_refusal_of_prefix(verdicts.drop_last(), count);
    }
}

/// One verdict more: where none before it refuses, it decides.
pub proof fn first_refusal_of_longer(verdicts: Seq<Option<ErrorModel>>, count: int)
    requires
        0 <= count < verdicts.len(),
        first_refusal(verdicts.take(count)) is None,
    ensures
        first_refusal(verdicts.take(count + 1)) == verdicts[count],
{
    assert(verdicts.take(count + 1).drop_last() =~= verdicts.take(count));
}

/// There is no first refusal exactly where no verdict refuses.
pub proof fn no_first_refusal(verdicts: Seq<Option<ErrorModel>>)
    ensures
        first_refusal(verdicts) is None <==> forall|at: int|
            0 <= at < verdicts.len() ==> (#[trigger] verdicts[at]) is None,
    decreases verdicts.len(),
{
    if verdicts.len() > 0 {
        let shorter = verdicts.drop_last();
        no_first_refusal(shorter);
        if first_refusal(verdicts) is None {
            assert forall|at: int| 0 <= at < verdicts.len() implies (
            #[trigger] verdicts[at]) is None by {
                if at < shorter.len() {
                    assert(shorter[at] is None);
                }
            }
        } else if first_refusal(shorter) is Some {
            let at = choose|at: int| 0 <= at < shorter.len() && !(shorter[at] is None);
            assert(verdicts[at] is Some);
        } else {
            assert(verdicts[verdicts.len() - 1] is Some);
        }
    }
}

/// The first refusal is the verdict at the first place that refuses.
pub proof fn first_refusal_is_at_first_place(verdicts: Seq<Option<ErrorModel>>, at: int)
    requires
        0 <= at < verdicts.len(),
        verdicts[at] is Some,
        forall|earlier: int| 0 <= earlier < at ==> (#[trigger] verdicts[earlier]) is None,
    ensures
        first_refusal(verdicts) == verdicts[at],
{
    no_first_refusal(verdicts.take(at));
    first_refusal_of_longer(verdicts, at);
    first_refusal_of_prefix(verdicts, at + 1);
}

/// Entries that are not refused have distinct keys, all of them allowed, and no oversized value.
pub proof fn accepted_entries(allowed_keys: Set<Seq<char>>, entries: Seq<EntryModel>)
    requires
        values_refusal(allowed_keys, entries) is None,
    ensures
        entries.len() <= MAX_RUNTIME_KEYS,
        crate::value_map::entry_keys(entries).no_duplicates(),
        forall|at: int|
            0 <= at < entries.len() ==> {
                &&& key_refusal(allowed_keys, (#[trigger] entries[at]).key) is None
                &&& !is_oversized(entries[at].value)
            },
{
    let verdicts = entry_refusals(allowed_keys, entries);
    let keys = crate::value_map::entry_keys(entries);
    no_first_refusal(verdicts);
    assert forall|at: int| 0 <= at < entries.len() implies {
        &&& key_refusal(allowed_keys, (#[trigger] entries[at]).key) is None
        &&& !is_oversized(entries[at].value)
    } by {
        assert(verdicts[at] is None);
    }
    assert forall|i: int, j: int| 0 <= i < j < keys.len() implies keys[i] != keys[j] by {
        assert(verdicts[j] is None);
        assert(crate::value_map::entry_keys(entries.take(j))[i] == keys[i]);
    }
}

/// Keys to delete that are not refused are distinct, and all of them allowed.
pub proof fn accepted_deletions(allowed_keys: Set<Seq<char>>, keys: Seq<Seq<char>>)
    requires
        keys_refusal(allowed_keys, keys) is None,
    ensures
        keys.len() <= MAX_RUNTIME_KEYS,
        keys.no_duplicates(),
        forall|at: int|
            0 <= at < keys.len() ==> key_refusal(allowed_keys, #[trigger] keys[at]) is None,
{
    let verdicts = deletion_refusals(allowed_keys, keys);
    no_first_refusal(verdicts);
    assert forall|at: int| 0 <= at < keys.len() implies key_refusal(
        allowed_keys,
        #[trigger] keys[at],
    ) is None by {
        assert(verdicts[at] is None);
    }
    assert forall|i: int, j: int| 0 <= i < j < keys.len() implies keys[i] != keys[j] by {
        assert(verdicts[j] is None);
        assert(keys.take(j)[i] == keys[i]);
    }
}

/// What is wrong with a key as such.
pub open spec fn key_refusal(allowed_keys: Set<Seq<char>>, key: Seq<char>) -> Option<ErrorModel> {
    if !crate::runtime_key::key_allowed(key) {
        Some(ErrorModel::InvalidRuntimeKey(key))
    } else if !allowed_keys.contains(key) {
        Some(ErrorModel::RuntimeKeyNotAllowed(key))
    } else {
        None
    }
}

/// The value has more bytes than a runtime value may have.
pub open spec fn is_oversized(value: Seq<char>) -> bool {
    vstd::utf8::encode_utf8(value).len() > MAX_RUNTIME_VALUE_BYTES
}

/// What is wrong with the entry at a place, given the entries before it.
pub open spec fn entry_refusal(
    allowed_keys: Set<Seq<char>>,
    entries: Seq<EntryModel>,
    at: int,
) -> Option<ErrorModel> {
    let entry = entries[at];
    if key_refusal(allowed_keys, entry.key) is Some {
        key_refusal(allowed_keys, entry.key)
    } else if is_oversized(entry.value) {
        Some(ErrorModel::InvalidEvent("runtime value exceeds 64 KiB"@))
    } else if crate::value_map::entry_keys(entries.take(at)).contains(entry.key) {
        Some(ErrorModel::DuplicateRuntimeValue(entry.key))
    } else {
        None
    }
}

/// What is wrong with each of the entries.
pub open spec fn entry_refusals(
    allowed_keys: Set<Seq<char>>,
    entries: Seq<EntryModel>,
) -> Seq<Option<ErrorModel>> {
    Seq::new(entries.len(), |at: int| entry_refusal(allowed_keys, entries, at))
}

/// What is wrong with the entries of an update.
pub open spec fn values_refusal(
    allowed_keys: Set<Seq<char>>,
    entries: Seq<EntryModel>,
) -> Option<ErrorModel> {
    if entries.len() > MAX_RUNTIME_KEYS {
        Some(ErrorModel::InvalidEvent("runtime update contains too many values"@))
    } else {
        first_refusal(entry_refusals(allowed_keys, entries))
    }
}

/// What is wrong with the key to delete at a place, given those before it.
pub open spec fn deletion_refusal(
    allowed_keys: Set<Seq<char>>,
    keys: Seq<Seq<char>>,
    at: int,
) -> Option<ErrorModel> {
    if key_refusal(allowed_keys, keys[at]) is Some {
        key_refusal(allowed_keys, keys[at])
    } else if keys.take(at).contains(keys[at]) {
        Some(ErrorModel::DuplicateRuntimeValue(keys[at]))
    } else {
        None
    }
}

/// What is wrong with each of the keys to delete.
pub open spec fn deletion_refusals(
    allowed_keys: Set<Seq<char>>,
    keys: Seq<Seq<char>>,
) -> Seq<Option<ErrorModel>> {
    Seq::new(keys.len(), |at: int| deletion_refusal(allowed_keys, keys, at))
}

/// What is wrong with the keys to delete.
pub open spec fn keys_refusal(
    allowed_keys: Set<Seq<char>>,
    keys: Seq<Seq<char>>,
) -> Option<ErrorModel> {
    if keys.len() > MAX_RUNTIME_KEYS {
        Some(ErrorModel::InvalidEvent("runtime delete contains too many keys"@))
    } else {
        first_refusal(deletion_refusals(allowed_keys, keys))
    }
}

/// An ordered event.
#[verifier::ext_equal]
pub struct EventModel {
    pub protocol: Seq<char>,
    pub sidecar: Seq<char>,
    pub revision: Seq<char>,
    pub operation: RuntimeEventOperation,
    pub values: Seq<EntryModel>,
    pub keys: Seq<Seq<char>>,
}

impl View for RuntimeEventUpdate {
    type V = EventModel;

    open spec fn view(&self) -> EventModel {
        EventModel {
            protocol: self.protocol@,
            sidecar: self.sidecar@,
            revision: self.revision@,
            operation: self.operation,
            values: crate::value_map::entry_texts(self.values@),
            keys: crate::key_set::texts(self.keys@),
        }
    }
}

impl EventModel {
    /// The event carries what its operation calls for, and nothing else.
    pub open spec fn is_well_shaped(self) -> bool {
        match self.operation {
            RuntimeEventOperation::Upsert => self.values.len() > 0 && self.keys.len() == 0,
            RuntimeEventOperation::Delete => self.values.len() == 0 && self.keys.len() > 0,
            RuntimeEventOperation::Replace => self.keys.len() == 0,
            RuntimeEventOperation::Invalidate => self.values.len() == 0 && self.keys.len() == 0,
            RuntimeEventOperation::Resync => self.values.len() == 0 && self.keys.len() == 0,
        }
    }

    /// What is wrong with what the event carries.
    pub open spec fn payload_refusal(self, allowed_keys: Set<Seq<char>>) -> Option<ErrorModel> {
        match self.operation {
            RuntimeEventOperation::Upsert => values_refusal(allowed_keys, self.values),
            RuntimeEventOperation::Replace => values_refusal(allowed_keys, self.values),
            RuntimeEventOperation::Delete => keys_refusal(allowed_keys, self.keys),
            RuntimeEventOperation::Invalidate => None,
            RuntimeEventOperation::Resync => None,
        }
    }

    /// The overlay that the operation makes of an overlay.
    pub open spec fn overlay(
        self,
        values: Map<Seq<char>, Seq<char>>,
    ) -> Map<Seq<char>, Seq<char>> {
        match self.operation {
            RuntimeEventOperation::Upsert => values.union_prefer_right(
                crate::value_map::entries_map(self.values),
            ),
            RuntimeEventOperation::Delete => values.remove_keys(self.keys.to_set()),
            RuntimeEventOperation::Replace => crate::value_map::entries_map(self.values),
            RuntimeEventOperation::Invalidate => Map::empty(),
            RuntimeEventOperation::Resync => values,
        }
    }

    /// The revision that the event brings, where it writes one.
    pub open spec fn incoming(self) -> u64 {
        crate::revision::revision_of(self.revision, true)->0
    }
}

/// An authoritative snapshot.
#[verifier::ext_equal]
pub struct SnapshotModel {
    pub protocol: Seq<char>,
    pub sidecar: Seq<char>,
    pub revision: Seq<char>,
    pub values: Seq<EntryModel>,
}

impl View for RuntimeSnapshotUpdate {
    type V = SnapshotModel;

    open spec fn view(&self) -> SnapshotModel {
        SnapshotModel {
            protocol: self.protocol@,
            sidecar: self.sidecar@,
            revision: self.revision@,
            values: crate::value_map::entry_texts(self.values@),
        }
    }
}

impl SnapshotModel {
    /// The revision that the snapshot brings, where it writes one.
    pub open spec fn incoming(self) -> u64 {
        crate::revision::revision_of(self.revision, false)->0
    }
}

/// The event-aware state.
#[verifier::ext_equal]
pub struct StateModel {
    pub sidecar: Seq<char>,
    pub allowed_keys: Set<Seq<char>>,
    pub revision: u64,
    pub values: Map<Seq<char>, Seq<char>>,
    pub stale: bool,
}

impl StateModel {
    /// The state before any update.
    pub open spec fn initial(sidecar: Seq<char>, allowed_keys: Set<Seq<char>>) -> StateModel {
        StateModel { sidecar, allowed_keys, revision: 0, values: Map::empty(), stale: false }
    }

    /// What holds of every state: the revision is within its bound, and the overlay sets only keys
    /// that are allowed and name no secret, to values that are not oversized.
    pub open spec fn is_valid(self) -> bool {
        &&& self.revision <= MAX_SAFE_REVISION
        &&& forall|key: Seq<char>| #[trigger]
            self.values.contains_key(key) ==> {
                &&& self.allowed_keys.contains(key)
                &&& crate::runtime_key::key_allowed(key)
                &&& !is_oversized(self.values[key])
            }
    }

    /// Why the event is refused, if it is.
    pub open spec fn event_refusal(self, event: EventModel) -> Option<ErrorModel> {
        if event.protocol != RUNTIME_EVENT_PROTOCOL@ {
            Some(ErrorModel::InvalidEvent("unsupported runtime event protocol"@))
        } else if event.sidecar != self.sidecar {
            Some(ErrorModel::TargetMismatch { expected: self.sidecar, actual: event.sidecar })
        } else if crate::revision::revision_of(event.revision, true) is None {
            Some(ErrorModel::InvalidRevision)
        } else if !event.is_well_shaped() {
            Some(ErrorModel::InvalidEvent("runtime event operation payload is invalid"@))
        } else {
            event.payload_refusal(self.allowed_keys)
        }
    }

    /// What an accepted event leads to.
    ///
    /// An event that brings no new revision changes nothing. One that brings the next revision
    /// applies, unless the state is stale or the event asks for a resync. Every other event raises
    /// the stale fence, or finds it raised, and changes nothing else.
    pub open spec fn after_event(self, event: EventModel) -> (StateModel, RuntimeEventOutcome) {
        let incoming = event.incoming();
        if incoming <= self.revision {
            (self, RuntimeEventOutcome::Duplicate { current: self.revision, incoming })
        } else if self.stale || incoming != self.revision + 1 || event.operation
            == RuntimeEventOperation::Resync {
            (
                StateModel { stale: true, ..self },
                RuntimeEventOutcome::ReconcileRequired { current: self.revision, incoming },
            )
        } else {
            (
                StateModel { revision: incoming, values: event.overlay(self.values), ..self },
                RuntimeEventOutcome::Applied { previous: self.revision, current: incoming },
            )
        }
    }

    /// Why the snapshot is refused, if it is.
    ///
    /// The entries of a snapshot that is older than the state are not looked at.
    pub open spec fn snapshot_refusal(self, snapshot: SnapshotModel) -> Option<ErrorModel> {
        if snapshot.protocol != RUNTIME_UPDATE_PROTOCOL@ {
            Some(ErrorModel::InvalidSnapshot("unsupported runtime protocol"@))
        } else if snapshot.sidecar != self.sidecar {
            Some(ErrorModel::TargetMismatch { expected: self.sidecar, actual: snapshot.sidecar })
        } else if crate::revision::revision_of(snapshot.revision, false) is None {
            Some(ErrorModel::InvalidRevision)
        } else if snapshot.incoming() < self.revision {
            None
        } else {
            values_refusal(self.allowed_keys, snapshot.values)
        }
    }

    /// What an accepted snapshot leads to.
    ///
    /// An older snapshot changes nothing. One at the same or a newer revision becomes the overlay
    /// and lowers the stale fence.
    pub open spec fn after_snapshot(
        self,
        snapshot: SnapshotModel,
    ) -> (StateModel, RuntimeApplyOutcome) {
        let incoming = snapshot.incoming();
        if incoming < self.revision {
            (self, RuntimeApplyOutcome::StaleIgnored { current: self.revision, incoming })
        } else {
            (
                StateModel {
                    revision: incoming,
                    values: crate::value_map::entries_map(snapshot.values),
                    stale: false,
                    ..self
                },
                RuntimeApplyOutcome::Applied { previous: self.revision, current: incoming },
            )
        }
    }

    /// The state once an event was offered: a refused event changes nothing.
    pub open spec fn offered_event(self, event: EventModel) -> StateModel {
        if self.event_refusal(event) is None {
            self.after_event(event).0
        } else {
            self
        }
    }

    /// The state once a snapshot was offered: a refused snapshot changes nothing.
    pub open spec fn offered_snapshot(self, snapshot: SnapshotModel) -> StateModel {
        if self.snapshot_refusal(snapshot) is None {
            self.after_snapshot(snapshot).0
        } else {
            self
        }
    }

    /// The state once an update was offered.
    pub open spec fn offered(self, update: UpdateModel) -> StateModel {
        match update {
            UpdateModel::Event(event) => self.offered_event(event),
            UpdateModel::Snapshot(snapshot) => self.offered_snapshot(snapshot),
        }
    }

    /// The state once updates were offered one after another.
    pub open spec fn offered_all(self, updates: Seq<UpdateModel>) -> StateModel
        decreases updates.len(),
    {
        if updates.len() == 0 {
            self
        } else {
            self.offered_all(updates.drop_last()).offered(updates.last())
        }
    }
}

/// An update of either kind.
pub enum UpdateModel {
    Event(EventModel),
    Snapshot(SnapshotModel),
}

} // verus!
