//! What holds of the runtime state machine as a whole.

use crate::contract::{
    RuntimeApplyOutcome, MAX_RUNTIME_KEYS, RUNTIME_EVENT_PROTOCOL, RUNTIME_UPDATE_PROTOCOL,
};
use crate::error::ErrorModel;
use crate::model::{EventModel, SnapshotModel, StateModel, UpdateModel};
use crate::runtime_events::{RuntimeEventOperation, RuntimeEventOutcome};
use crate::value_map::EntryModel;
use vstd::prelude::*;

verus! {

/// The map of accepted entries sets only allowed keys, to values that are not oversized.
proof fn accepted_entries_make_a_valid_overlay(
    allowed_keys: Set<Seq<char>>,
    entries: Seq<EntryModel>,
    key: Seq<char>,
)
    requires
        crate::model::values_refusal(allowed_keys, entries) is None,
        crate::value_map::entries_map(entries).contains_key(key),
    ensures
        allowed_keys.contains(key),
        crate::runtime_key::key_allowed(key),
        !crate::model::is_oversized(crate::value_map::entries_map(entries)[key]),
{
    let keys = crate::value_map::entry_keys(entries);
    crate::model::accepted_entries(allowed_keys, entries);
    crate::value_map::entries_map_keys(entries);
    assert(keys.contains(key));
    let at = choose|at: int| 0 <= at < keys.len() && keys[at] == key;
    crate::value_map::entries_map_reads_back(entries, at);
    assert(crate::model::key_refusal(allowed_keys, entries[at].key) is None);
}

/// The state before any update is valid.
pub proof fn initial_state_is_valid(sidecar: Seq<char>, allowed_keys: Set<Seq<char>>)
    ensures
        StateModel::initial(sidecar, allowed_keys).is_valid(),
{
}

/// Every accepted event keeps the state valid.
pub proof fn events_keep_the_state_valid(state: StateModel, event: EventModel)
    requires
        state.is_valid(),
        state.event_refusal(event) is None,
    ensures
        state.after_event(event).0.is_valid(),
{
    let next = state.after_event(event).0;
    assert forall|key: Seq<char>| #[trigger] next.values.contains_key(key) implies {
        &&& next.allowed_keys.contains(key)
        &&& crate::runtime_key::key_allowed(key)
        &&& !crate::model::is_oversized(next.values[key])
    } by {
        let entries = crate::value_map::entries_map(event.values);
        if entries.contains_key(key) && crate::model::values_refusal(
            state.allowed_keys,
            event.values,
        ) is None {
            accepted_entries_make_a_valid_overlay(state.allowed_keys, event.values, key);
        }
        assert(state.values.contains_key(key) || entries.contains_key(key));
    }
}

/// Every accepted snapshot keeps the state valid.
pub proof fn snapshots_keep_the_state_valid(state: StateModel, snapshot: SnapshotModel)
    requires
        state.is_valid(),
        state.snapshot_refusal(snapshot) is None,
    ensures
        state.after_snapshot(snapshot).0.is_valid(),
{
    let next = state.after_snapshot(snapshot).0;
    if snapshot.incoming() >= state.revision {
        assert forall|key: Seq<char>| #[trigger] next.values.contains_key(key) implies {
            &&& next.allowed_keys.contains(key)
            &&& crate::runtime_key::key_allowed(key)
            &&& !crate::model::is_oversized(next.values[key])
        } by {
            accepted_entries_make_a_valid_overlay(state.allowed_keys, snapshot.values, key);
        }
    }
}

/// What entries have to be for an update with them to be accepted.
pub open spec fn entries_are_admissible(
    allowed_keys: Set<Seq<char>>,
    entries: Seq<EntryModel>,
) -> bool {
    &&& entries.len() <= MAX_RUNTIME_KEYS
    &&& crate::value_map::entry_keys(entries).no_duplicates()
    &&& forall|at: int|
        0 <= at < entries.len() ==> {
            &&& allowed_keys.contains((#[trigger] entries[at]).key)
            &&& crate::runtime_key::key_allowed(entries[at].key)
            &&& !crate::model::is_oversized(entries[at].value)
        }
}

/// What keys to delete have to be for an event with them to be accepted.
pub open spec fn keys_are_admissible(
    allowed_keys: Set<Seq<char>>,
    keys: Seq<Seq<char>>,
) -> bool {
    &&& keys.len() <= MAX_RUNTIME_KEYS
    &&& keys.no_duplicates()
    &&& forall|at: int|
        0 <= at < keys.len() ==> {
            &&& allowed_keys.contains(#[trigger] keys[at])
            &&& crate::runtime_key::key_allowed(keys[at])
        }
}

/// Entries are accepted exactly where they are few enough, their keys are distinct, allowlisted
/// and name no secret, and no value is oversized.
pub proof fn entries_are_accepted_exactly_where_admissible(
    allowed_keys: Set<Seq<char>>,
    entries: Seq<EntryModel>,
)
    ensures
        crate::model::values_refusal(allowed_keys, entries) is None <==> entries_are_admissible(
            allowed_keys,
            entries,
        ),
{
    let verdicts = crate::model::entry_refusals(allowed_keys, entries);
    let keys = crate::value_map::entry_keys(entries);
    if crate::model::values_refusal(allowed_keys, entries) is None {
        crate::model::accepted_entries(allowed_keys, entries);
    }
    if entries_are_admissible(allowed_keys, entries) {
        assert forall|at: int| 0 <= at < verdicts.len() implies (#[trigger] verdicts[at]) is None by {
            let earlier = crate::value_map::entry_keys(entries.take(at));
            if earlier.contains(entries[at].key) {
                let i = choose|i: int| 0 <= i < earlier.len() && earlier[i] == entries[at].key;
                assert(keys[i] == keys[at]);
            }
        }
        crate::model::no_first_refusal(verdicts);
    }
}

/// Keys to delete are accepted exactly where they are few enough, distinct and allowlisted, and
/// name no secret.
pub proof fn keys_are_accepted_exactly_where_admissible(
    allowed_keys: Set<Seq<char>>,
    keys: Seq<Seq<char>>,
)
    ensures
        crate::model::keys_refusal(allowed_keys, keys) is None <==> keys_are_admissible(
            allowed_keys,
            keys,
        ),
{
    let verdicts = crate::model::deletion_refusals(allowed_keys, keys);
    if crate::model::keys_refusal(allowed_keys, keys) is None {
        crate::model::accepted_deletions(allowed_keys, keys);
    }
    if keys_are_admissible(allowed_keys, keys) {
        assert forall|at: int| 0 <= at < verdicts.len() implies (#[trigger] verdicts[at]) is None by {
            if keys.take(at).contains(keys[at]) {
                let i = choose|i: int| 0 <= i < keys.take(at).len() && keys.take(at)[i] == keys[at];
                assert(keys[i] == keys[at]);
            }
        }
        crate::model::no_first_refusal(verdicts);
    }
}

/// An event is accepted exactly where it speaks the event protocol to this sidecar, brings a
/// positive canonical revision within the bound, carries what its operation calls for, and carries
/// nothing inadmissible.
pub proof fn events_are_accepted_exactly_where_admissible(state: StateModel, event: EventModel)
    ensures
        state.event_refusal(event) is None <==> {
            &&& event.protocol == RUNTIME_EVENT_PROTOCOL@
            &&& event.sidecar == state.sidecar
            &&& crate::revision::revision_of(event.revision, true) is Some
            &&& event.is_well_shaped()
            &&& entries_are_admissible(state.allowed_keys, event.values)
            &&& keys_are_admissible(state.allowed_keys, event.keys)
        },
{
    entries_are_accepted_exactly_where_admissible(state.allowed_keys, event.values);
    keys_are_accepted_exactly_where_admissible(state.allowed_keys, event.keys);
}

/// A snapshot is accepted exactly where it speaks the update protocol to this sidecar, brings a
/// canonical revision within the bound, and is older than the state or carries nothing
/// inadmissible.
pub proof fn snapshots_are_accepted_exactly_where_admissible(
    state: StateModel,
    snapshot: SnapshotModel,
)
    ensures
        state.snapshot_refusal(snapshot) is None <==> {
            &&& snapshot.protocol == RUNTIME_UPDATE_PROTOCOL@
            &&& snapshot.sidecar == state.sidecar
            &&& crate::revision::revision_of(snapshot.revision, false) is Some
            &&& snapshot.incoming() < state.revision || entries_are_admissible(
                state.allowed_keys,
                snapshot.values,
            )
        },
{
    entries_are_accepted_exactly_where_admissible(state.allowed_keys, snapshot.values);
}

/// Whether an event is refused, and why, does not depend on how far the state has come: neither on
/// its revision, nor on its overlay, nor on its stale fence. So a malformed replay is refused
/// however old its revision is.
pub proof fn refusal_of_an_event_ignores_progress(
    one: StateModel,
    other: StateModel,
    event: EventModel,
)
    requires
        one.sidecar == other.sidecar,
        one.allowed_keys == other.allowed_keys,
    ensures
        one.event_refusal(event) == other.event_refusal(event),
{
}

/// What a diagnostic says does not depend on the text of the values: two sequences of entries with
/// the same keys in the same places, and oversized values in the same places, are refused alike.
pub proof fn refusal_of_entries_ignores_value_text(
    allowed_keys: Set<Seq<char>>,
    one: Seq<EntryModel>,
    other: Seq<EntryModel>,
)
    requires
        crate::value_map::entry_keys(one) == crate::value_map::entry_keys(other),
        forall|at: int|
            0 <= at < one.len() ==> crate::model::is_oversized((#[trigger] one[at]).value)
                == crate::model::is_oversized(other[at].value),
    ensures
        crate::model::values_refusal(allowed_keys, one) == crate::model::values_refusal(
            allowed_keys,
            other,
        ),
{
    let keys = crate::value_map::entry_keys(one);
    assert(one.len() == keys.len());
    assert(other.len() == crate::value_map::entry_keys(other).len());
    assert forall|at: int| 0 <= at < one.len() implies crate::model::entry_refusal(
        allowed_keys,
        one,
        at,
    ) == crate::model::entry_refusal(allowed_keys, other, at) by {
        assert(crate::model::is_oversized(one[at].value) == crate::model::is_oversized(
            other[at].value,
        ));
        assert(one[at].key == keys[at]);
        assert(other[at].key == crate::value_map::entry_keys(other)[at]);
        assert(crate::value_map::entry_keys(one.take(at)) =~= keys.take(at));
        assert(crate::value_map::entry_keys(other.take(at)) =~= keys.take(at));
    }
    assert(crate::model::entry_refusals(allowed_keys, one) =~= crate::model::entry_refusals(
        allowed_keys,
        other,
    ));
}

/// The diagnostic for entries depends on the keys and on the sizes of the values alone: two
/// sequences with the same keys, and values of the same number of bytes, in the same places are
/// refused alike, or accepted alike.
pub proof fn refusal_of_entries_sees_only_value_sizes(
    allowed_keys: Set<Seq<char>>,
    one: Seq<EntryModel>,
    other: Seq<EntryModel>,
)
    requires
        one.len() == other.len(),
        forall|at: int|
            0 <= at < one.len() ==> {
                &&& (#[trigger] one[at]).key == other[at].key
                &&& vstd::utf8::encode_utf8(one[at].value).len() == vstd::utf8::encode_utf8(
                    other[at].value,
                ).len()
            },
    ensures
        crate::model::values_refusal(allowed_keys, one) == crate::model::values_refusal(
            allowed_keys,
            other,
        ),
{
    assert(crate::value_map::entry_keys(one) =~= crate::value_map::entry_keys(other));
    refusal_of_entries_ignores_value_text(allowed_keys, one, other);
}

/// The earliest bad entry decides: what is refused among the first few entries of an update is what
/// is refused of all of them. Only too many entries are refused for their number, whatever they
/// are.
pub proof fn earliest_bad_entry_decides(
    allowed_keys: Set<Seq<char>>,
    entries: Seq<EntryModel>,
    count: int,
)
    requires
        0 <= count <= entries.len(),
    ensures
        entries.len() <= MAX_RUNTIME_KEYS && crate::model::values_refusal(
            allowed_keys,
            entries.take(count),
        ) is Some ==> crate::model::values_refusal(allowed_keys, entries)
            == crate::model::values_refusal(allowed_keys, entries.take(count)),
        entries.len() > MAX_RUNTIME_KEYS ==> crate::model::values_refusal(allowed_keys, entries)
            == Some(ErrorModel::InvalidEvent("runtime update contains too many values"@)),
{
    let verdicts = crate::model::entry_refusals(allowed_keys, entries);
    let first = entries.take(count);
    let early = crate::model::entry_refusals(allowed_keys, first);
    assert forall|at: int| 0 <= at < count implies early[at] == verdicts[at] by {
        assert(first.take(at) =~= entries.take(at));
    }
    assert(early =~= verdicts.take(count));
    if crate::model::first_refusal(early) is Some {
        crate::model::first_refusal_of_prefix(verdicts, count);
    }
}

/// The earliest bad key decides: what is refused among the first few keys to delete is what is
/// refused of all of them. Only too many keys are refused for their number, whatever they are.
pub proof fn earliest_bad_key_decides(
    allowed_keys: Set<Seq<char>>,
    keys: Seq<Seq<char>>,
    count: int,
)
    requires
        0 <= count <= keys.len(),
    ensures
        keys.len() <= MAX_RUNTIME_KEYS && crate::model::keys_refusal(
            allowed_keys,
            keys.take(count),
        ) is Some ==> crate::model::keys_refusal(allowed_keys, keys) == crate::model::keys_refusal(
            allowed_keys,
            keys.take(count),
        ),
        keys.len() > MAX_RUNTIME_KEYS ==> crate::model::keys_refusal(allowed_keys, keys) == Some(
            ErrorModel::InvalidEvent("runtime delete contains too many keys"@),
        ),
{
    let verdicts = crate::model::deletion_refusals(allowed_keys, keys);
    let first = keys.take(count);
    let early = crate::model::deletion_refusals(allowed_keys, first);
    assert forall|at: int| 0 <= at < count implies early[at] == verdicts[at] by {
        assert(first.take(at) =~= keys.take(at));
    }
    assert(early =~= verdicts.take(count));
    if crate::model::first_refusal(early) is Some {
        crate::model::first_refusal_of_prefix(verdicts, count);
    }
}

/// A sequence and its reordering hold the same elements as often, so one is as long as the other,
/// and without repetition where the other is.
proof fn reordering_keeps_elements<A>(one: Seq<A>, other: Seq<A>)
    requires
        one.to_multiset() == other.to_multiset(),
    ensures
        one.len() == other.len(),
        forall|x: A| #[trigger] one.contains(x) == other.contains(x),
        one.no_duplicates() ==> other.no_duplicates(),
{
    one.to_multiset_ensures();
    other.to_multiset_ensures();
    assert forall|x: A| #[trigger] one.contains(x) == other.contains(x) by {
        vstd::seq_lib::to_multiset_contains(one, x);
        vstd::seq_lib::to_multiset_contains(other, x);
    }
    if one.no_duplicates() {
        one.lemma_multiset_has_no_duplicates();
        other.lemma_multiset_has_no_duplicates_conv();
    }
}

/// Reordering admissible entries leaves them admissible.
proof fn reordering_keeps_entries_admissible(
    allowed_keys: Set<Seq<char>>,
    one: Seq<EntryModel>,
    other: Seq<EntryModel>,
)
    requires
        one.to_multiset() == other.to_multiset(),
        entries_are_admissible(allowed_keys, one),
    ensures
        entries_are_admissible(allowed_keys, other),
{
    let (keys, other_keys) = (
        crate::value_map::entry_keys(one),
        crate::value_map::entry_keys(other),
    );
    assert forall|i: int, j: int| 0 <= i < one.len() && 0 <= j < one.len() && i != j implies one[i]
        != one[j] by {
        assert(keys[i] != keys[j]);
    }
    reordering_keeps_elements(one, other);
    assert forall|at: int| 0 <= at < other.len() implies one.contains(#[trigger] other[at]) by {
        assert(other.contains(other[at]));
    }
    assert forall|i: int, j: int|
        0 <= i < other_keys.len() && 0 <= j < other_keys.len() && i != j implies other_keys[i]
        != other_keys[j] by {
        let a = choose|a: int| 0 <= a < one.len() && one[a] == other[i];
        let b = choose|b: int| 0 <= b < one.len() && one[b] == other[j];
        assert(one.contains(other[i]) && one.contains(other[j]));
        assert(other[i] != other[j]);
        assert(keys[a] != keys[b]);
    }
    assert forall|at: int| 0 <= at < other.len() implies {
        &&& allowed_keys.contains((#[trigger] other[at]).key)
        &&& crate::runtime_key::key_allowed(other[at].key)
        &&& !crate::model::is_oversized(other[at].value)
    } by {
        assert(one.contains(other[at]));
        let a = choose|a: int| 0 <= a < one.len() && one[a] == other[at];
        assert(allowed_keys.contains(one[a].key));
    }
}

/// The order of the entries does not matter to whether they are accepted, nor to the overlay that
/// accepted entries describe.
pub proof fn order_of_entries_does_not_matter(
    allowed_keys: Set<Seq<char>>,
    one: Seq<EntryModel>,
    other: Seq<EntryModel>,
)
    requires
        one.to_multiset() == other.to_multiset(),
    ensures
        crate::model::values_refusal(allowed_keys, one) is None <==> crate::model::values_refusal(
            allowed_keys,
            other,
        ) is None,
        crate::model::values_refusal(allowed_keys, one) is None ==> crate::value_map::entries_map(
            one,
        ) == crate::value_map::entries_map(other),
{
    entries_are_accepted_exactly_where_admissible(allowed_keys, one);
    entries_are_accepted_exactly_where_admissible(allowed_keys, other);
    if entries_are_admissible(allowed_keys, one) {
        reordering_keeps_entries_admissible(allowed_keys, one, other);
    }
    if entries_are_admissible(allowed_keys, other) {
        reordering_keeps_entries_admissible(allowed_keys, other, one);
        let (left, right) = (
            crate::value_map::entries_map(one),
            crate::value_map::entries_map(other),
        );
        let (keys, other_keys) = (
            crate::value_map::entry_keys(one),
            crate::value_map::entry_keys(other),
        );
        reordering_keeps_elements(one, other);
        crate::value_map::entries_map_keys(one);
        crate::value_map::entries_map_keys(other);
        assert forall|key: Seq<char>|
            #![trigger left.dom().contains(key)]
            #![trigger right.dom().contains(key)]
            #![trigger left[key]]
            left.dom().contains(key) == right.dom().contains(key) && (left.dom().contains(key)
                ==> left[key] == right[key]) by {
            if keys.contains(key) {
                let a = choose|a: int| 0 <= a < keys.len() && keys[a] == key;
                assert(one.contains(one[a]));
                assert(other.contains(one[a]));
                let b = choose|b: int| 0 <= b < other.len() && other[b] == one[a];
                assert(other_keys[b] == key);
                crate::value_map::entries_map_reads_back(one, a);
                crate::value_map::entries_map_reads_back(other, b);
            }
            if other_keys.contains(key) {
                let b = choose|b: int| 0 <= b < other_keys.len() && other_keys[b] == key;
                assert(other.contains(other[b]));
                assert(one.contains(other[b]));
                let a = choose|a: int| 0 <= a < one.len() && one[a] == other[b];
                assert(keys[a] == key);
            }
        }
        assert(left =~= right);
    }
}

/// The diagnostic for a refused event does not depend on the text of its values.
pub proof fn event_diagnostics_ignore_value_text(
    state: StateModel,
    one: EventModel,
    other: EventModel,
)
    requires
        other == (EventModel { values: other.values, ..one }),
        crate::value_map::entry_keys(one.values) == crate::value_map::entry_keys(other.values),
        forall|at: int|
            0 <= at < one.values.len() ==> crate::model::is_oversized(
                (#[trigger] one.values[at]).value,
            ) == crate::model::is_oversized(other.values[at].value),
    ensures
        state.event_refusal(one) == state.event_refusal(other),
{
    assert(one.values.len() == crate::value_map::entry_keys(one.values).len());
    assert(other.values.len() == crate::value_map::entry_keys(other.values).len());
    refusal_of_entries_ignores_value_text(state.allowed_keys, one.values, other.values);
}

/// The diagnostic for a refused snapshot does not depend on the text of its values.
pub proof fn snapshot_diagnostics_ignore_value_text(
    state: StateModel,
    one: SnapshotModel,
    other: SnapshotModel,
)
    requires
        other == (SnapshotModel { values: other.values, ..one }),
        crate::value_map::entry_keys(one.values) == crate::value_map::entry_keys(other.values),
        forall|at: int|
            0 <= at < one.values.len() ==> crate::model::is_oversized(
                (#[trigger] one.values[at]).value,
            ) == crate::model::is_oversized(other.values[at].value),
    ensures
        state.snapshot_refusal(one) == state.snapshot_refusal(other),
{
    refusal_of_entries_ignores_value_text(state.allowed_keys, one.values, other.values);
}

/// Events advance the revision exactly one at a time: an accepted event applies exactly where the
/// state is not stale, the event brings the next revision and it does not ask for a resync. Only
/// then does the revision change, and only then does the overlay.
pub proof fn events_advance_one_revision_at_a_time(state: StateModel, event: EventModel)
    ensures
        ({
            let (next, outcome) = state.after_event(event);
            let applies = !state.stale && event.incoming() == state.revision + 1 && event.operation
                != RuntimeEventOperation::Resync;
            &&& applies <==> outcome is Applied
            &&& applies ==> next.revision == state.revision + 1 && next.values == event.overlay(
                state.values,
            ) && !next.stale
            &&& !applies ==> next.revision == state.revision && next.values == state.values
        }),
{
}

/// A revision gap, or a resync at the next revision, raises the stale fence and changes nothing
/// else.
pub proof fn gaps_and_resyncs_raise_the_fence(state: StateModel, event: EventModel)
    requires
        event.incoming() > state.revision + 1 || event.incoming() == state.revision + 1
            && event.operation == RuntimeEventOperation::Resync,
    ensures
        state.after_event(event) == (
            StateModel { stale: true, ..state },
            RuntimeEventOutcome::ReconcileRequired {
                current: state.revision,
                incoming: event.incoming(),
            },
        ),
{
}

/// An event that brings no new revision changes nothing, stale or not.
pub proof fn duplicates_change_nothing(state: StateModel, event: EventModel)
    requires
        event.incoming() <= state.revision,
    ensures
        state.after_event(event) == (
            state,
            RuntimeEventOutcome::Duplicate { current: state.revision, incoming: event.incoming() },
        ),
{
}

/// The stale fence is sticky: no number of events, of whatever kind and in whatever order, changes
/// anything of a stale state.
pub proof fn events_never_clear_the_fence(state: StateModel, events: Seq<EventModel>)
    requires
        state.stale,
    ensures
        state.offered_all(events.map_values(|event: EventModel| UpdateModel::Event(event)))
            == state,
    decreases events.len(),
{
    let updates = events.map_values(|event: EventModel| UpdateModel::Event(event));
    if events.len() > 0 {
        events_never_clear_the_fence(state, events.drop_last());
        assert(events.drop_last().map_values(|event: EventModel| UpdateModel::Event(event))
            =~= updates.drop_last());
        assert(updates.last() == UpdateModel::Event(events.last()));
        assert(state.offered_event(events.last()) =~= state);
    }
}

/// Only an accepted snapshot at the same or a newer revision lowers the stale fence.
pub proof fn only_snapshots_lower_the_fence(state: StateModel, update: UpdateModel)
    requires
        state.stale,
        !state.offered(update).stale,
    ensures
        update matches UpdateModel::Snapshot(snapshot) && state.snapshot_refusal(snapshot) is None
            && snapshot.incoming() >= state.revision,
{
}

/// An accepted snapshot at the same or a newer revision lowers the stale fence, sets the revision
/// to its own, and becomes the overlay: every entry reads back, and no other key is set.
pub proof fn snapshots_repair(state: StateModel, snapshot: SnapshotModel)
    requires
        state.snapshot_refusal(snapshot) is None,
        snapshot.incoming() >= state.revision,
    ensures
        ({
            let (next, outcome) = state.after_snapshot(snapshot);
            &&& !next.stale
            &&& next.revision == snapshot.incoming()
            &&& outcome == RuntimeApplyOutcome::Applied {
                previous: state.revision,
                current: snapshot.incoming(),
            }
            &&& next.values.dom() == crate::value_map::entry_keys(snapshot.values).to_set()
            &&& forall|at: int|
                0 <= at < snapshot.values.len() ==> next.values[(
                #[trigger] snapshot.values[at]).key] == snapshot.values[at].value
        }),
{
    let next = state.after_snapshot(snapshot).0;
    crate::model::accepted_entries(state.allowed_keys, snapshot.values);
    crate::value_map::entries_map_keys(snapshot.values);
    assert forall|at: int| 0 <= at < snapshot.values.len() implies next.values[(
    #[trigger] snapshot.values[at]).key] == snapshot.values[at].value by {
        crate::value_map::entries_map_reads_back(snapshot.values, at);
    }
}

/// An older snapshot is ignored: it changes nothing, the stale fence included.
pub proof fn older_snapshots_are_ignored(state: StateModel, snapshot: SnapshotModel)
    requires
        snapshot.incoming() < state.revision,
    ensures
        state.after_snapshot(snapshot) == (
            state,
            RuntimeApplyOutcome::StaleIgnored {
                current: state.revision,
                incoming: snapshot.incoming(),
            },
        ),
{
}

/// A snapshot that is not older makes all replicas of a sidecar equal, whatever they held before.
pub proof fn snapshots_make_replicas_converge(
    one: StateModel,
    other: StateModel,
    snapshot: SnapshotModel,
)
    requires
        one.sidecar == other.sidecar,
        one.allowed_keys == other.allowed_keys,
        one.revision <= snapshot.incoming(),
        other.revision <= snapshot.incoming(),
    ensures
        one.snapshot_refusal(snapshot) == other.snapshot_refusal(snapshot),
        one.after_snapshot(snapshot).0 == other.after_snapshot(snapshot).0,
{
}

/// Offering an event a second time changes nothing more.
pub proof fn events_are_idempotent(state: StateModel, event: EventModel)
    ensures
        state.offered_event(event).offered_event(event) == state.offered_event(event),
{
    let next = state.offered_event(event);
    refusal_of_an_event_ignores_progress(state, next, event);
    assert(next.offered_event(event) =~= next);
}

/// Offering a snapshot a second time changes nothing more.
pub proof fn snapshots_are_idempotent(state: StateModel, snapshot: SnapshotModel)
    ensures
        state.offered_snapshot(snapshot).offered_snapshot(snapshot) == state.offered_snapshot(
            snapshot,
        ),
{
    let next = state.offered_snapshot(snapshot);
    assert(next.offered_snapshot(snapshot) =~= next);
}

/// An applied upsert reads back every entry and leaves every other key as it was.
pub proof fn upserts_read_back(state: StateModel, event: EventModel)
    requires
        state.event_refusal(event) is None,
        event.operation == RuntimeEventOperation::Upsert,
        state.after_event(event).1 is Applied,
    ensures
        ({
            let next = state.after_event(event).0;
            let keys = crate::value_map::entry_keys(event.values);
            &&& next.values.dom() == state.values.dom().union(keys.to_set())
            &&& forall|at: int|
                0 <= at < event.values.len() ==> next.values[(#[trigger] event.values[at]).key]
                    == event.values[at].value
            &&& forall|key: Seq<char>|
                state.values.contains_key(key) && !keys.contains(key) ==> (
                #[trigger] next.values[key]) == state.values[key]
        }),
{
    let next = state.after_event(event).0;
    let keys = crate::value_map::entry_keys(event.values);
    crate::model::accepted_entries(state.allowed_keys, event.values);
    crate::value_map::entries_map_keys(event.values);
    assert(next.values.dom() =~= state.values.dom().union(keys.to_set()));
    assert forall|at: int| 0 <= at < event.values.len() implies next.values[(
    #[trigger] event.values[at]).key] == event.values[at].value by {
        crate::value_map::entries_map_reads_back(event.values, at);
    }
}

/// An applied delete takes exactly its keys out and leaves every other key as it was.
pub proof fn deletes_take_out_their_keys(state: StateModel, event: EventModel)
    requires
        event.operation == RuntimeEventOperation::Delete,
        state.after_event(event).1 is Applied,
    ensures
        ({
            let next = state.after_event(event).0;
            &&& next.values.dom() == state.values.dom().difference(event.keys.to_set())
            &&& forall|key: Seq<char>|
                next.values.contains_key(key) ==> (#[trigger] next.values[key])
                    == state.values[key]
        }),
{
    let next = state.after_event(event).0;
    assert(next.values.dom() =~= state.values.dom().difference(event.keys.to_set()));
}

/// An applied replace makes its entries the whole overlay: every entry reads back, and no other
/// key is set.
pub proof fn replaces_read_back(state: StateModel, event: EventModel)
    requires
        state.event_refusal(event) is None,
        event.operation == RuntimeEventOperation::Replace,
        state.after_event(event).1 is Applied,
    ensures
        ({
            let next = state.after_event(event).0;
            &&& next.values.dom() == crate::value_map::entry_keys(event.values).to_set()
            &&& forall|at: int|
                0 <= at < event.values.len() ==> next.values[(#[trigger] event.values[at]).key]
                    == event.values[at].value
        }),
{
    let next = state.after_event(event).0;
    crate::model::accepted_entries(state.allowed_keys, event.values);
    crate::value_map::entries_map_keys(event.values);
    assert forall|at: int| 0 <= at < event.values.len() implies next.values[(
    #[trigger] event.values[at]).key] == event.values[at].value by {
        crate::value_map::entries_map_reads_back(event.values, at);
    }
}

/// An applied invalidate clears the overlay.
pub proof fn invalidates_clear_the_overlay(state: StateModel, event: EventModel)
    requires
        event.operation == RuntimeEventOperation::Invalidate,
        state.after_event(event).1 is Applied,
    ensures
        state.after_event(event).0.values == Map::<Seq<char>, Seq<char>>::empty(),
{
}

/// Whatever updates are offered, in whatever order: the state stays valid, its sidecar and its
/// allowed keys stay what they were, and its revision never goes back.
pub proof fn every_history_keeps_the_invariants(state: StateModel, updates: Seq<UpdateModel>)
    requires
        state.is_valid(),
    ensures
        state.offered_all(updates).is_valid(),
        state.offered_all(updates).sidecar == state.sidecar,
        state.offered_all(updates).allowed_keys == state.allowed_keys,
        state.offered_all(updates).revision >= state.revision,
    decreases updates.len(),
{
    if updates.len() > 0 {
        let before = state.offered_all(updates.drop_last());
        every_history_keeps_the_invariants(state, updates.drop_last());
        match updates.last() {
            UpdateModel::Event(event) => {
                if before.event_refusal(event) is None {
                    events_keep_the_state_valid(before, event);
                }
            },
            UpdateModel::Snapshot(snapshot) => {
                if before.snapshot_refusal(snapshot) is None {
                    snapshots_keep_the_state_valid(before, snapshot);
                }
            },
        }
    }
}

/// A log of accepted events without a resync, each bringing the revision after the one before it,
/// is applied in full: the state ends as many revisions further as there are events, and is not
/// stale.
pub proof fn sequential_logs_apply_in_full(state: StateModel, events: Seq<EventModel>)
    requires
        !state.stale,
        forall|at: int|
            0 <= at < events.len() ==> {
                &&& state.event_refusal(#[trigger] events[at]) is None
                &&& events[at].incoming() == state.revision + 1 + at
                &&& events[at].operation != RuntimeEventOperation::Resync
            },
    ensures
        ({
            let end = state.offered_all(
                events.map_values(|event: EventModel| UpdateModel::Event(event)),
            );
            &&& end.revision == state.revision + events.len()
            &&& !end.stale
            &&& end.sidecar == state.sidecar
            &&& end.allowed_keys == state.allowed_keys
        }),
    decreases events.len(),
{
    let updates = events.map_values(|event: EventModel| UpdateModel::Event(event));
    if events.len() > 0 {
        let shorter = events.drop_last();
        assert forall|at: int| 0 <= at < shorter.len() implies {
            &&& state.event_refusal(#[trigger] shorter[at]) is None
            &&& shorter[at].incoming() == state.revision + 1 + at
            &&& shorter[at].operation != RuntimeEventOperation::Resync
        } by {
            assert(shorter[at] == events[at]);
        }
        sequential_logs_apply_in_full(state, shorter);
        assert(shorter.map_values(|event: EventModel| UpdateModel::Event(event))
            =~= updates.drop_last());
        assert(updates.last() == UpdateModel::Event(events.last()));
        let before = state.offered_all(updates.drop_last());
        assert(state.event_refusal(events[events.len() - 1]) is None);
        refusal_of_an_event_ignores_progress(state, before, events.last());
    }
}

} // verus!
