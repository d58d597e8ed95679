//! What callers may rely on, written out on plain values.
//!
//! Each statement speaks of what goes in and what comes out: of texts, of the places in a sequence,
//! of the keys of a map, and of the limits and words as they stand in the contracts.

use crate::contract::{RuntimeApplyOutcome, RuntimeSnapshot, RuntimeSnapshotUpdate};
use crate::error::{ErrorModel, RuntimeEventError};
use crate::key_set::RuntimeKeySet;
use crate::model::{EventModel, SnapshotModel, StateModel};
use crate::runtime_events::{
    RuntimeEventOperation, RuntimeEventOutcome, RuntimeEventState, RuntimeEventUpdate,
};
use crate::value_map::{EntryModel, RuntimeValue, RuntimeValueMap};
use vstd::prelude::*;

verus! {

// Runtime keys

/// Text around a word holds the word.
proof fn word_stands_in_text_around_it(before: Seq<char>, word: Seq<char>, after: Seq<char>)
    ensures
        crate::runtime_key::occurs_in(word, before + word + after),
{
    let whole = before + word + after;
    let at = before.len() as int;
    assert(whole.subrange(at, at + word.len()) =~= word);
    assert(crate::runtime_key::stands_at(word, whole, at));
}

/// Text that holds a word is the word with the text before it and the text after it.
proof fn text_splits_around_its_word(word: Seq<char>, whole: Seq<char>)
    requires
        crate::runtime_key::occurs_in(word, whole),
    ensures
        exists|before: Seq<char>, after: Seq<char>| whole == #[trigger] (before + word + after),
{
    let at = choose|at: int| crate::runtime_key::stands_at(word, whole, at);
    let before = whole.subrange(0, at);
    let after = whole.subrange(at + word.len(), whole.len() as int);
    assert(whole.subrange(at, at + word.len()) == word);
    assert forall|i: int| 0 <= i < whole.len() implies whole[i] == (before + word + after)[i] by {
        if at <= i < at + word.len() {
            assert(whole.subrange(at, at + word.len())[i - at] == whole[i]);
        }
    }
    assert(whole =~= before + word + after);
}

/// A name that holds the mark of a secret is no runtime key, whatever stands before the mark and
/// whatever after it.
pub proof fn names_with_the_mark_of_a_secret_are_no_keys(before: Seq<char>, after: Seq<char>)
    ensures
        !crate::runtime_key::key_allowed(before + "SECRET"@ + after),
        !crate::runtime_key::key_allowed(before + "TOKEN"@ + after),
        !crate::runtime_key::key_allowed(before + "PASSWORD"@ + after),
        !crate::runtime_key::key_allowed(before + "CREDENTIAL"@ + after),
        !crate::runtime_key::key_allowed(before + "PRIVATE_KEY"@ + after),
        !crate::runtime_key::key_allowed(before + "DATABASE_URL"@ + after),
{
    word_stands_in_text_around_it(before, "SECRET"@, after);
    word_stands_in_text_around_it(before, "TOKEN"@, after);
    word_stands_in_text_around_it(before, "PASSWORD"@, after);
    word_stands_in_text_around_it(before, "CREDENTIAL"@, after);
    word_stands_in_text_around_it(before, "PRIVATE_KEY"@, after);
    word_stands_in_text_around_it(before, "DATABASE_URL"@, after);
}

/// A runtime key is a name of uppercase letters, digits and underscores that does not begin with a
/// digit and that is not some text, the mark of a secret and some text. Every such name is one.
pub proof fn keys_are_uppercase_names_without_the_mark_of_a_secret(key: Seq<char>)
    ensures
        crate::runtime_key::key_allowed(key) <==> {
            &&& key.len() > 0
            &&& !('0' <= key[0] <= '9')
            &&& forall|i: int|
                0 <= i < key.len() ==> ('A' <= #[trigger] key[i] <= 'Z') || ('0' <= key[i] <= '9')
                    || key[i] == '_'
            &&& forall|before: Seq<char>, after: Seq<char>|
                key != #[trigger] (before + "SECRET"@ + after)
            &&& forall|before: Seq<char>, after: Seq<char>|
                key != #[trigger] (before + "TOKEN"@ + after)
            &&& forall|before: Seq<char>, after: Seq<char>|
                key != #[trigger] (before + "PASSWORD"@ + after)
            &&& forall|before: Seq<char>, after: Seq<char>|
                key != #[trigger] (before + "CREDENTIAL"@ + after)
            &&& forall|before: Seq<char>, after: Seq<char>|
                key != #[trigger] (before + "PRIVATE_KEY"@ + after)
            &&& forall|before: Seq<char>, after: Seq<char>|
                key != #[trigger] (before + "DATABASE_URL"@ + after)
        },
{
    if crate::runtime_key::key_allowed(key) {
        assert(crate::runtime_key::is_key_start(key[0]));
        assert forall|i: int| 0 <= i < key.len() implies ('A' <= #[trigger] key[i] <= 'Z') || ('0'
            <= key[i] <= '9') || key[i] == '_' by {
            assert(crate::runtime_key::is_key_char(key[i]));
        }
        assert forall|before: Seq<char>, after: Seq<char>|
            key != #[trigger] (before + "SECRET"@ + after) by {
            names_with_the_mark_of_a_secret_are_no_keys(before, after);
        }
        assert forall|before: Seq<char>, after: Seq<char>|
            key != #[trigger] (before + "TOKEN"@ + after) by {
            names_with_the_mark_of_a_secret_are_no_keys(before, after);
        }
        assert forall|before: Seq<char>, after: Seq<char>|
            key != #[trigger] (before + "PASSWORD"@ + after) by {
            names_with_the_mark_of_a_secret_are_no_keys(before, after);
        }
        assert forall|before: Seq<char>, after: Seq<char>|
            key != #[trigger] (before + "CREDENTIAL"@ + after) by {
            names_with_the_mark_of_a_secret_are_no_keys(before, after);
        }
        assert forall|before: Seq<char>, after: Seq<char>|
            key != #[trigger] (before + "PRIVATE_KEY"@ + after) by {
            names_with_the_mark_of_a_secret_are_no_keys(before, after);
        }
        assert forall|before: Seq<char>, after: Seq<char>|
            key != #[trigger] (before + "DATABASE_URL"@ + after) by {
            names_with_the_mark_of_a_secret_are_no_keys(before, after);
        }
    } else if crate::runtime_key::is_secret_bearing(key) {
        if crate::runtime_key::occurs_in("SECRET"@, key) {
            text_splits_around_its_word("SECRET"@, key);
        } else if crate::runtime_key::occurs_in("TOKEN"@, key) {
            text_splits_around_its_word("TOKEN"@, key);
        } else if crate::runtime_key::occurs_in("PASSWORD"@, key) {
            text_splits_around_its_word("PASSWORD"@, key);
        } else if crate::runtime_key::occurs_in("CREDENTIAL"@, key) {
            text_splits_around_its_word("CREDENTIAL"@, key);
        } else if crate::runtime_key::occurs_in("PRIVATE_KEY"@, key) {
            text_splits_around_its_word("PRIVATE_KEY"@, key);
        } else {
            text_splits_around_its_word("DATABASE_URL"@, key);
        }
    }
}

// Revisions

/// A single character writes a revision exactly where it is a decimal digit: its own number, and
/// zero only where the revision need not be positive. No text at all writes none.
pub proof fn one_digit_writes_its_number(c: char, positive: bool)
    ensures
        crate::revision::revision_of(Seq::empty(), positive) is None,
        '0' <= c <= '9' && !(positive && c == '0') ==> crate::revision::revision_of(
            seq![c],
            positive,
        ) == Some((c as int - 48) as u64),
        !('0' <= c <= '9') || (positive && c == '0') ==> crate::revision::revision_of(
            seq![c],
            positive,
        ) is None,
{
    let text = seq![c];
    assert(text.drop_last() =~= Seq::<char>::empty());
    assert(crate::revision::decimal_value(text.drop_last()) == 0);
    if crate::revision::is_canonical_decimal(text) {
        assert(crate::revision::is_digit(text[0]));
    }
}

/// One character more writes a revision exactly where the text before it writes a positive one,
/// the character is a decimal digit, and ten times the number with the digit is at most
/// 9007199254740991: it writes that number.
pub proof fn each_further_digit_shifts_the_number(text: Seq<char>, c: char, positive: bool)
    requires
        text.len() > 0,
    ensures
        match crate::revision::revision_of(text, true) {
            Some(number) => if '0' <= c <= '9' && number * 10 + (c as int - 48)
                <= 9007199254740991 {
                crate::revision::revision_of(text.push(c), positive) == Some(
                    (number * 10 + (c as int - 48)) as u64,
                )
            } else {
                crate::revision::revision_of(text.push(c), positive) is None
            },
            None => crate::revision::revision_of(text.push(c), positive) is None,
        },
{
    let longer = text.push(c);
    assert(longer.drop_last() =~= text);
    if crate::revision::is_canonical_decimal(longer) {
        assert forall|i: int| 0 <= i < text.len() implies crate::revision::is_digit(
            #[trigger] text[i],
        ) by {
            assert(longer[i] == text[i]);
        }
        assert(longer[0] == text[0]);
        assert(crate::revision::is_digit(longer[text.len() as int]));
        crate::revision::canonical_decimal_is_decimal_text(text);
    }
    if crate::revision::revision_of(text, true) is Some {
        if text[0] == '0' {
            assert(text.len() == 1);
            assert(text.drop_last() =~= Seq::<char>::empty());
            assert(crate::revision::decimal_value(text.drop_last()) == 0);
        }
        if '0' <= c <= '9' {
            assert forall|i: int| 0 <= i < longer.len() implies crate::revision::is_digit(
                #[trigger] longer[i],
            ) by {
                if i < text.len() {
                    assert(longer[i] == text[i]);
                }
            }
        }
    }
}

// Entries and keys of an update

/// Entries are accepted exactly where there are at most 256 of them, each key is a runtime key that
/// the allowlist has, no key comes twice, and the UTF-8 encoding of each value has at most 65536
/// bytes.
pub proof fn entries_are_accepted_by_number_keys_and_sizes(
    allowed_keys: Set<Seq<char>>,
    entries: Seq<EntryModel>,
)
    ensures
        crate::model::values_refusal(allowed_keys, entries) is None <==> {
            &&& entries.len() <= 256
            &&& forall|i: int|
                0 <= i < entries.len() ==> {
                    &&& crate::runtime_key::key_allowed((#[trigger] entries[i]).key)
                    &&& allowed_keys.contains(entries[i].key)
                    &&& vstd::utf8::encode_utf8(entries[i].value).len() <= 65536
                }
            &&& forall|i: int, j: int|
                0 <= i < j < entries.len() ==> (#[trigger] entries[i]).key != (
                #[trigger] entries[j]).key
        },
{
    let keys = crate::value_map::entry_keys(entries);
    crate::laws::entries_are_accepted_exactly_where_admissible(allowed_keys, entries);
    assert(keys.len() == entries.len());
    assert forall|i: int| 0 <= i < entries.len() implies #[trigger] keys[i] == entries[i].key by {}
    if keys.no_duplicates() {
        assert forall|i: int, j: int| 0 <= i < j < entries.len() implies (#[trigger] entries[i]).key
            != (#[trigger] entries[j]).key by {
            assert(keys[i] != keys[j]);
        }
    }
    if forall|i: int, j: int|
        0 <= i < j < entries.len() ==> (#[trigger] entries[i]).key != (#[trigger] entries[j]).key {
        assert forall|i: int, j: int|
            0 <= i < keys.len() && 0 <= j < keys.len() && i != j implies keys[i] != keys[j] by {
            assert(entries[i].key == keys[i] && entries[j].key == keys[j]);
        }
    }
}

/// Whatever the entries are, more than 256 of them are too many. Of no more, the first bad entry is
/// the one that is named: for a name that is no runtime key, and then for a key that is not on the
/// allowlist, and then for a value of more than 65536 bytes, and then for a key that came before.
pub proof fn first_bad_entry_is_named(
    allowed_keys: Set<Seq<char>>,
    entries: Seq<EntryModel>,
    at: int,
)
    requires
        0 <= at < entries.len(),
        forall|i: int|
            0 <= i < at ==> {
                &&& crate::runtime_key::key_allowed((#[trigger] entries[i]).key)
                &&& allowed_keys.contains(entries[i].key)
                &&& vstd::utf8::encode_utf8(entries[i].value).len() <= 65536
            },
        forall|i: int, j: int|
            0 <= i < j < at ==> (#[trigger] entries[i]).key != (#[trigger] entries[j]).key,
    ensures
        ({
            let key = entries[at].key;
            let fits = vstd::utf8::encode_utf8(entries[at].value).len() <= 65536;
            let refusal = crate::model::values_refusal(allowed_keys, entries);
            &&& entries.len() > 256 ==> refusal == Some(
                ErrorModel::InvalidEvent("runtime update contains too many values"@),
            )
            &&& entries.len() <= 256 ==> {
                &&& !crate::runtime_key::key_allowed(key) ==> refusal == Some(
                    ErrorModel::InvalidRuntimeKey(key),
                )
                &&& crate::runtime_key::key_allowed(key) && !allowed_keys.contains(key) ==> refusal
                    == Some(ErrorModel::RuntimeKeyNotAllowed(key))
                &&& crate::runtime_key::key_allowed(key) && allowed_keys.contains(key) && !fits
                    ==> refusal == Some(ErrorModel::InvalidEvent("runtime value exceeds 64 KiB"@))
                &&& crate::runtime_key::key_allowed(key) && allowed_keys.contains(key) && fits && (
                exists|i: int| 0 <= i < at && (#[trigger] entries[i]).key == key) ==> refusal
                    == Some(ErrorModel::DuplicateRuntimeValue(key))
            }
        }),
{
    let verdicts = crate::model::entry_refusals(allowed_keys, entries);
    assert forall|i: int| 0 <= i < at implies (#[trigger] verdicts[i]) is None by {
        let earlier = crate::value_map::entry_keys(entries.take(i));
        assert(crate::runtime_key::key_allowed(entries[i].key));
        if earlier.contains(entries[i].key) {
            let h = choose|h: int| 0 <= h < earlier.len() && earlier[h] == entries[i].key;
            assert(entries[h].key == entries[i].key);
        }
    }
    let earlier = crate::value_map::entry_keys(entries.take(at));
    if exists|i: int| 0 <= i < at && (#[trigger] entries[i]).key == entries[at].key {
        let i = choose|i: int| 0 <= i < at && (#[trigger] entries[i]).key == entries[at].key;
        assert(earlier[i] == entries[at].key);
    }
    if verdicts[at] is Some {
        crate::model::first_refusal_is_at_first_place(verdicts, at);
    }
}

/// Keys to delete are accepted exactly where there are at most 256 of them, each is a runtime key
/// that the allowlist has, and none comes twice.
pub proof fn deletions_are_accepted_by_number_and_keys(
    allowed_keys: Set<Seq<char>>,
    keys: Seq<Seq<char>>,
)
    ensures
        crate::model::keys_refusal(allowed_keys, keys) is None <==> {
            &&& keys.len() <= 256
            &&& forall|i: int|
                0 <= i < keys.len() ==> {
                    &&& crate::runtime_key::key_allowed(#[trigger] keys[i])
                    &&& allowed_keys.contains(keys[i])
                }
            &&& forall|i: int, j: int|
                0 <= i < j < keys.len() ==> #[trigger] keys[i] != #[trigger] keys[j]
        },
{
    crate::laws::keys_are_accepted_exactly_where_admissible(allowed_keys, keys);
}

/// Whatever the keys are, more than 256 of them are too many. Of no more, the first bad key is the
/// one that is named: for a name that is no runtime key, and then for a key that is not on the
/// allowlist, and then for a key that came before.
pub proof fn first_bad_deletion_is_named(
    allowed_keys: Set<Seq<char>>,
    keys: Seq<Seq<char>>,
    at: int,
)
    requires
        0 <= at < keys.len(),
        forall|i: int|
            0 <= i < at ==> {
                &&& crate::runtime_key::key_allowed(#[trigger] keys[i])
                &&& allowed_keys.contains(keys[i])
            },
        forall|i: int, j: int| 0 <= i < j < at ==> #[trigger] keys[i] != #[trigger] keys[j],
    ensures
        ({
            let key = keys[at];
            let refusal = crate::model::keys_refusal(allowed_keys, keys);
            &&& keys.len() > 256 ==> refusal == Some(
                ErrorModel::InvalidEvent("runtime delete contains too many keys"@),
            )
            &&& keys.len() <= 256 ==> {
                &&& !crate::runtime_key::key_allowed(key) ==> refusal == Some(
                    ErrorModel::InvalidRuntimeKey(key),
                )
                &&& crate::runtime_key::key_allowed(key) && !allowed_keys.contains(key) ==> refusal
                    == Some(ErrorModel::RuntimeKeyNotAllowed(key))
                &&& crate::runtime_key::key_allowed(key) && allowed_keys.contains(key) && (exists|
                    i: int,
                |
                    0 <= i < at && #[trigger] keys[i] == key) ==> refusal == Some(
                    ErrorModel::DuplicateRuntimeValue(key),
                )
            }
        }),
{
    let verdicts = crate::model::deletion_refusals(allowed_keys, keys);
    assert forall|i: int| 0 <= i < at implies (#[trigger] verdicts[i]) is None by {
        assert(crate::runtime_key::key_allowed(keys[i]));
        if keys.take(i).contains(keys[i]) {
            let h = choose|h: int| 0 <= h < i && keys.take(i)[h] == keys[i];
            assert(keys[h] == keys[i]);
        }
    }
    if exists|i: int| 0 <= i < at && #[trigger] keys[i] == keys[at] {
        let i = choose|i: int| 0 <= i < at && #[trigger] keys[i] == keys[at];
        assert(keys.take(at)[i] == keys[at]);
    }
    if verdicts[at] is Some {
        crate::model::first_refusal_is_at_first_place(verdicts, at);
    }
}

// Acceptance of an event

/// An event is accepted exactly where it speaks the event protocol to this sidecar, writes a
/// positive revision, has the payload of its operation, and has a good payload. An upsert has
/// entries and no keys; a delete has keys and no entries; a replace has no keys, and any number of
/// entries; an invalidate and a resync have neither.
pub proof fn events_are_accepted_by_header_and_payload(state: StateModel, event: EventModel)
    ensures
        state.event_refusal(event) is None <==> {
            &&& event.protocol == "ores.sidecar-runtime-event.v1"@
            &&& event.sidecar == state.sidecar
            &&& crate::revision::revision_of(event.revision, true) is Some
            &&& event.operation == RuntimeEventOperation::Upsert ==> event.values.len() > 0
                && event.keys.len() == 0
            &&& event.operation == RuntimeEventOperation::Delete ==> event.values.len() == 0
                && event.keys.len() > 0
            &&& event.operation == RuntimeEventOperation::Replace ==> event.keys.len() == 0
            &&& event.operation == RuntimeEventOperation::Invalidate ==> event.values.len() == 0
                && event.keys.len() == 0
            &&& event.operation == RuntimeEventOperation::Resync ==> event.values.len() == 0
                && event.keys.len() == 0
            &&& event.values.len() <= 256
            &&& forall|i: int|
                0 <= i < event.values.len() ==> {
                    &&& crate::runtime_key::key_allowed((#[trigger] event.values[i]).key)
                    &&& state.allowed_keys.contains(event.values[i].key)
                    &&& vstd::utf8::encode_utf8(event.values[i].value).len() <= 65536
                }
            &&& forall|i: int, j: int|
                0 <= i < j < event.values.len() ==> (#[trigger] event.values[i]).key != (
                #[trigger] event.values[j]).key
            &&& event.keys.len() <= 256
            &&& forall|i: int|
                0 <= i < event.keys.len() ==> {
                    &&& crate::runtime_key::key_allowed(#[trigger] event.keys[i])
                    &&& state.allowed_keys.contains(event.keys[i])
                }
            &&& forall|i: int, j: int|
                0 <= i < j < event.keys.len() ==> #[trigger] event.keys[i]
                    != #[trigger] event.keys[j]
        },
{
    entries_are_accepted_by_number_keys_and_sizes(state.allowed_keys, event.values);
    deletions_are_accepted_by_number_and_keys(state.allowed_keys, event.keys);
}

/// A replace that speaks the event protocol to this sidecar, writes a positive revision and has no
/// keys is refused for its entries alone: up to 256 good entries are accepted, none among them too.
pub proof fn replaces_take_any_number_of_good_entries(state: StateModel, event: EventModel)
    requires
        event.operation == RuntimeEventOperation::Replace,
        event.protocol == "ores.sidecar-runtime-event.v1"@,
        event.sidecar == state.sidecar,
        crate::revision::revision_of(event.revision, true) is Some,
        event.keys.len() == 0,
        event.values.len() <= 256,
        forall|i: int|
            0 <= i < event.values.len() ==> {
                &&& crate::runtime_key::key_allowed((#[trigger] event.values[i]).key)
                &&& state.allowed_keys.contains(event.values[i].key)
                &&& vstd::utf8::encode_utf8(event.values[i].value).len() <= 65536
            },
        forall|i: int, j: int|
            0 <= i < j < event.values.len() ==> (#[trigger] event.values[i]).key != (
            #[trigger] event.values[j]).key,
    ensures
        state.event_refusal(event) is None,
{
    events_are_accepted_by_header_and_payload(state, event);
}

/// What an event is refused for, in the order in which it is looked at: its protocol, its target,
/// its revision, whether it has the payload of its operation, and then the payload itself.
pub proof fn refused_events_are_told_why(state: StateModel, event: EventModel)
    ensures
        ({
            let refusal = state.event_refusal(event);
            let spoken = event.protocol == "ores.sidecar-runtime-event.v1"@;
            let aimed = event.sidecar == state.sidecar;
            let numbered = crate::revision::revision_of(event.revision, true) is Some;
            let shaped = match event.operation {
                RuntimeEventOperation::Upsert => event.values.len() != 0 && event.keys.len() == 0,
                RuntimeEventOperation::Delete => event.values.len() == 0 && event.keys.len() != 0,
                RuntimeEventOperation::Replace => event.keys.len() == 0,
                _ => event.values.len() == 0 && event.keys.len() == 0,
            };
            &&& !spoken ==> refusal == Some(
                ErrorModel::InvalidEvent("unsupported runtime event protocol"@),
            )
            &&& spoken && !aimed ==> refusal == Some(
                ErrorModel::TargetMismatch { expected: state.sidecar, actual: event.sidecar },
            )
            &&& spoken && aimed && !numbered ==> refusal == Some(ErrorModel::InvalidRevision)
            &&& spoken && aimed && numbered && !shaped ==> refusal == Some(
                ErrorModel::InvalidEvent("runtime event operation payload is invalid"@),
            )
            &&& spoken && aimed && numbered && shaped ==> {
                &&& event.operation == RuntimeEventOperation::Upsert ==> refusal
                    == crate::model::values_refusal(state.allowed_keys, event.values)
                &&& event.operation == RuntimeEventOperation::Replace ==> refusal
                    == crate::model::values_refusal(state.allowed_keys, event.values)
                &&& event.operation == RuntimeEventOperation::Delete ==> refusal
                    == crate::model::keys_refusal(state.allowed_keys, event.keys)
                &&& event.operation == RuntimeEventOperation::Invalidate ==> refusal is None
                &&& event.operation == RuntimeEventOperation::Resync ==> refusal is None
            }
        }),
{
}

// What an event does

/// What an accepted event at a revision does to a state, whatever its operation.
///
/// It is a duplicate exactly where its revision is not beyond that of the state, and then nothing
/// changes. Beyond it, a stale state asks for reconciliation and nothing changes. A state that is
/// not stale asks for reconciliation, and turns stale, on a gap and on a resync. It applies the
/// next revision of any other operation, and is not stale after it. The sidecar and the allowed
/// keys never change.
pub proof fn events_are_duplicates_or_gaps_or_applied(
    state: StateModel,
    event: EventModel,
    incoming: u64,
)
    requires
        crate::revision::revision_of(event.revision, true) == Some(incoming),
    ensures
        ({
            let (next, outcome) = state.after_event(event);
            let duplicate = RuntimeEventOutcome::Duplicate { current: state.revision, incoming };
            let reconcile = RuntimeEventOutcome::ReconcileRequired {
                current: state.revision,
                incoming,
            };
            &&& outcome is Duplicate <==> incoming <= state.revision
            &&& incoming <= state.revision ==> outcome == duplicate && next == state
            &&& incoming > state.revision && state.stale ==> outcome == reconcile && next == state
            &&& incoming > state.revision + 1 && !state.stale ==> outcome == reconcile && next.stale
                && next.revision == state.revision && next.values == state.values
            &&& incoming > state.revision && event.operation == RuntimeEventOperation::Resync
                ==> outcome == reconcile && next.stale && next.revision == state.revision
                && next.values == state.values
            &&& incoming == state.revision + 1 && !state.stale && event.operation
                != RuntimeEventOperation::Resync ==> outcome == (RuntimeEventOutcome::Applied {
                previous: state.revision,
                current: incoming,
            }) && next.revision == incoming && !next.stale
            &&& next.sidecar == state.sidecar
            &&& next.allowed_keys == state.allowed_keys
        }),
{
    if incoming > state.revision && state.stale {
        assert(state.after_event(event).0 =~= state);
    }
}

/// With distinct keys, the map of entries sets the key of each entry to its value, and no other
/// key.
proof fn distinct_entries_are_read_back(entries: Seq<EntryModel>)
    requires
        forall|i: int, j: int|
            0 <= i < j < entries.len() ==> (#[trigger] entries[i]).key != (
            #[trigger] entries[j]).key,
    ensures
        forall|i: int|
            0 <= i < entries.len() ==> {
                &&& crate::value_map::entries_map(entries).contains_key((#[trigger] entries[i]).key)
                &&& crate::value_map::entries_map(entries)[entries[i].key] == entries[i].value
            },
        forall|key: Seq<char>| #[trigger]
            crate::value_map::entries_map(entries).contains_key(key) ==> exists|i: int|
                0 <= i < entries.len() && (#[trigger] entries[i]).key == key,
{
    assert forall|i: int| 0 <= i < entries.len() implies {
        &&& crate::value_map::entries_map(entries).contains_key((#[trigger] entries[i]).key)
        &&& crate::value_map::entries_map(entries)[entries[i].key] == entries[i].value
    } by {
        later_entries_stand_for_earlier_ones(entries, i);
    }
    assert forall|key: Seq<char>| #[trigger]
        crate::value_map::entries_map(entries).contains_key(key) implies exists|i: int|
        0 <= i < entries.len() && (#[trigger] entries[i]).key == key by {
        entries_set_their_own_keys(entries, key);
    }
}

/// The map of entries has a key exactly where an entry has it.
pub proof fn entries_set_their_own_keys(entries: Seq<EntryModel>, key: Seq<char>)
    ensures
        crate::value_map::entries_map(entries).contains_key(key) <==> exists|i: int|
            0 <= i < entries.len() && (#[trigger] entries[i]).key == key,
{
    let keys = crate::value_map::entry_keys(entries);
    crate::value_map::entries_map_keys(entries);
    if keys.contains(key) {
        let i = choose|i: int| 0 <= i < keys.len() && keys[i] == key;
        assert(entries[i].key == key);
    }
    if exists|i: int| 0 <= i < entries.len() && (#[trigger] entries[i]).key == key {
        let i = choose|i: int| 0 <= i < entries.len() && (#[trigger] entries[i]).key == key;
        assert(keys[i] == key);
    }
}

/// The map of entries reads back each entry whose key does not come again.
pub proof fn later_entries_stand_for_earlier_ones(entries: Seq<EntryModel>, at: int)
    requires
        0 <= at < entries.len(),
        forall|i: int| at < i < entries.len() ==> (#[trigger] entries[i]).key != entries[at].key,
    ensures
        crate::value_map::entries_map(entries).contains_key(entries[at].key),
        crate::value_map::entries_map(entries)[entries[at].key] == entries[at].value,
    decreases entries.len(),
{
    let shorter = entries.drop_last();
    if at < shorter.len() {
        assert forall|i: int| at < i < shorter.len() implies (#[trigger] shorter[i]).key
            != shorter[at].key by {
            assert(shorter[i] == entries[i]);
        }
        later_entries_stand_for_earlier_ones(shorter, at);
        assert(entries[entries.len() - 1].key != entries[at].key);
    }
}

/// What an applied event makes of the overlay, key by key.
///
/// An upsert sets the keys of its entries to their values and leaves every other key as it was. A
/// delete takes its keys out and leaves every other key as it was. A replace sets the keys of its
/// entries to their values, and no other key. An invalidate leaves no key.
pub proof fn applied_events_change_the_overlay_by_key(state: StateModel, event: EventModel)
    requires
        state.event_refusal(event) is None,
        state.after_event(event).1 is Applied,
    ensures
        ({
            let before = state.values;
            let after = state.after_event(event).0.values;
            &&& event.operation == RuntimeEventOperation::Upsert || event.operation
                == RuntimeEventOperation::Replace ==> forall|i: int|
                0 <= i < event.values.len() ==> {
                    &&& after.contains_key((#[trigger] event.values[i]).key)
                    &&& after[event.values[i].key] == event.values[i].value
                }
            &&& event.operation == RuntimeEventOperation::Upsert ==> forall|key: Seq<char>|
                (forall|i: int|
                    0 <= i < event.values.len() ==> (#[trigger] event.values[i]).key != key)
                    ==> (#[trigger] after.contains_key(key) <==> before.contains_key(key)) && (
                before.contains_key(key) ==> after[key] == before[key])
            &&& event.operation == RuntimeEventOperation::Replace ==> forall|key: Seq<char>|
                (forall|i: int|
                    0 <= i < event.values.len() ==> (#[trigger] event.values[i]).key != key)
                    ==> !(#[trigger] after.contains_key(key))
            &&& event.operation == RuntimeEventOperation::Delete ==> forall|i: int|
                0 <= i < event.keys.len() ==> !after.contains_key(#[trigger] event.keys[i])
            &&& event.operation == RuntimeEventOperation::Delete ==> forall|key: Seq<char>|
                (forall|i: int| 0 <= i < event.keys.len() ==> #[trigger] event.keys[i] != key) ==> (
                #[trigger] after.contains_key(key) <==> before.contains_key(key)) && (
                before.contains_key(key) ==> after[key] == before[key])
            &&& event.operation == RuntimeEventOperation::Invalidate ==> forall|key: Seq<char>|
                !(#[trigger] after.contains_key(key))
        }),
{
    events_are_accepted_by_header_and_payload(state, event);
    distinct_entries_are_read_back(event.values);
    let after = state.after_event(event).0.values;
    if event.operation == RuntimeEventOperation::Delete {
        assert forall|i: int| 0 <= i < event.keys.len() implies !after.contains_key(
            #[trigger] event.keys[i],
        ) by {
            assert(event.keys.to_set().contains(event.keys[i]));
        }
        assert forall|key: Seq<char>|
            (forall|i: int|
                0 <= i < event.keys.len() ==> #[trigger] event.keys[i] != key) implies (
        #[trigger] after.contains_key(key) <==> state.values.contains_key(key)) && (
        state.values.contains_key(key) ==> after[key] == state.values[key]) by {
            assert(!event.keys.contains(key));
        }
    }
}

// Snapshots

/// A snapshot is accepted exactly where it speaks the update protocol to this sidecar, writes a
/// revision, and either is older than the state or has at most 256 entries with distinct runtime
/// keys of the allowlist and values of at most 65536 bytes.
pub proof fn snapshots_are_accepted_by_header_and_entries(
    state: StateModel,
    snapshot: SnapshotModel,
)
    ensures
        state.snapshot_refusal(snapshot) is None <==> {
            &&& snapshot.protocol == "ores.sidecar-runtime.v1"@
            &&& snapshot.sidecar == state.sidecar
            &&& crate::revision::revision_of(snapshot.revision, false) is Some
            &&& {
                ||| crate::revision::revision_of(snapshot.revision, false)->0 < state.revision
                ||| {
                    &&& snapshot.values.len() <= 256
                    &&& forall|i: int|
                        0 <= i < snapshot.values.len() ==> {
                            &&& crate::runtime_key::key_allowed((#[trigger] snapshot.values[i]).key)
                            &&& state.allowed_keys.contains(snapshot.values[i].key)
                            &&& vstd::utf8::encode_utf8(snapshot.values[i].value).len() <= 65536
                        }
                    &&& forall|i: int, j: int|
                        0 <= i < j < snapshot.values.len() ==> (#[trigger] snapshot.values[i]).key
                            != (#[trigger] snapshot.values[j]).key
                }
            }
        },
{
    entries_are_accepted_by_number_keys_and_sizes(state.allowed_keys, snapshot.values);
}

/// What a snapshot is refused for, in the order in which it is looked at: its protocol, its target,
/// its revision, and then its entries, unless it is older than the state.
pub proof fn refused_snapshots_are_told_why(state: StateModel, snapshot: SnapshotModel)
    ensures
        ({
            let refusal = state.snapshot_refusal(snapshot);
            let spoken = snapshot.protocol == "ores.sidecar-runtime.v1"@;
            let aimed = snapshot.sidecar == state.sidecar;
            &&& !spoken ==> refusal == Some(
                ErrorModel::InvalidSnapshot("unsupported runtime protocol"@),
            )
            &&& spoken && !aimed ==> refusal == Some(
                ErrorModel::TargetMismatch { expected: state.sidecar, actual: snapshot.sidecar },
            )
            &&& spoken && aimed ==> match crate::revision::revision_of(snapshot.revision, false) {
                None => refusal == Some(ErrorModel::InvalidRevision),
                Some(incoming) => if incoming < state.revision {
                    refusal is None
                } else {
                    refusal == crate::model::values_refusal(state.allowed_keys, snapshot.values)
                },
            }
        }),
{
}

/// What an accepted snapshot at a revision does to a state, stale or not.
///
/// It is ignored exactly where its revision is below that of the state, and then nothing changes.
/// Otherwise the state takes its revision and is not stale, and the overlay sets the keys of its
/// entries to their values, and no other key. The sidecar and the allowed keys never change.
pub proof fn snapshots_are_ignored_or_applied(
    state: StateModel,
    snapshot: SnapshotModel,
    incoming: u64,
)
    requires
        state.snapshot_refusal(snapshot) is None,
        crate::revision::revision_of(snapshot.revision, false) == Some(incoming),
    ensures
        ({
            let (next, outcome) = state.after_snapshot(snapshot);
            &&& outcome is StaleIgnored <==> incoming < state.revision
            &&& incoming < state.revision ==> next == state && outcome == (
            RuntimeApplyOutcome::StaleIgnored { current: state.revision, incoming })
            &&& incoming >= state.revision ==> {
                &&& outcome == RuntimeApplyOutcome::Applied {
                    previous: state.revision,
                    current: incoming,
                }
                &&& next.revision == incoming
                &&& !next.stale
                &&& next.sidecar == state.sidecar
                &&& next.allowed_keys == state.allowed_keys
                &&& forall|i: int|
                    0 <= i < snapshot.values.len() ==> {
                        &&& next.values.contains_key((#[trigger] snapshot.values[i]).key)
                        &&& next.values[snapshot.values[i].key] == snapshot.values[i].value
                    }
                &&& forall|key: Seq<char>|
                    (forall|i: int|
                        0 <= i < snapshot.values.len() ==> (#[trigger] snapshot.values[i]).key
                            != key) ==> !(#[trigger] next.values.contains_key(key))
            }
        }),
{
    if incoming >= state.revision {
        snapshots_are_accepted_by_header_and_entries(state, snapshot);
        distinct_entries_are_read_back(snapshot.values);
    }
}

// States

/// A new state of a sidecar has the sidecar and the allowed keys that it was made for. It is at
/// revision zero, sets no key and is not stale, whatever they are.
pub proof fn new_states_are_empty_and_not_stale(sidecar: Seq<char>, allowed_keys: Set<Seq<char>>)
    ensures
        ({
            let state = StateModel::initial(sidecar, allowed_keys);
            &&& state.sidecar == sidecar
            &&& state.allowed_keys == allowed_keys
            &&& state.revision == 0
            &&& !state.stale
            &&& forall|key: Seq<char>| !(#[trigger] state.values.contains_key(key))
        }),
{
}

/// Every accepted event at revision one applies to a new state, unless it asks for a resync. An
/// accepted event at any other revision, or a resync, asks for reconciliation.
pub proof fn new_states_apply_the_first_revision(
    sidecar: Seq<char>,
    allowed_keys: Set<Seq<char>>,
    event: EventModel,
    incoming: u64,
)
    requires
        StateModel::initial(sidecar, allowed_keys).event_refusal(event) is None,
        crate::revision::revision_of(event.revision, true) == Some(incoming),
    ensures
        ({
            let (next, outcome) = StateModel::initial(sidecar, allowed_keys).after_event(event);
            if incoming == 1 && event.operation != RuntimeEventOperation::Resync {
                &&& outcome == RuntimeEventOutcome::Applied { previous: 0, current: 1 }
                &&& next.revision == 1
                &&& !next.stale
            } else {
                &&& outcome == RuntimeEventOutcome::ReconcileRequired { current: 0, incoming }
                &&& next.revision == 0
                &&& next.stale
            }
        }),
{
    crate::revision::revisions_are_canonical(event.revision, true);
    events_are_duplicates_or_gaps_or_applied(
        StateModel::initial(sidecar, allowed_keys),
        event,
        incoming,
    );
}

/// A valid state is at a revision of at most 9007199254740991, and sets only runtime keys of its
/// allowlist, to values of at most 65536 bytes. Every such state is valid.
pub proof fn valid_states_are_within_their_bounds(state: StateModel)
    ensures
        state.is_valid() <==> {
            &&& state.revision <= 9007199254740991
            &&& forall|key: Seq<char>| #[trigger]
                state.values.contains_key(key) ==> state.allowed_keys.contains(key)
            &&& forall|key: Seq<char>| #[trigger]
                state.values.contains_key(key) ==> crate::runtime_key::key_allowed(key)
            &&& forall|key: Seq<char>| #[trigger]
                state.values.contains_key(key) ==> vstd::utf8::encode_utf8(state.values[key]).len()
                    <= 65536
        },
{
}

// What the models hold of the values

/// The model of an event holds each field of the event, and each entry and each key in its place.
pub proof fn events_are_modelled_field_by_field(update: RuntimeEventUpdate)
    ensures
        update@.protocol == update.protocol@,
        update@.sidecar == update.sidecar@,
        update@.revision == update.revision@,
        update@.operation == update.operation,
        update@.values.len() == update.values@.len(),
        forall|i: int|
            0 <= i < update.values@.len() ==> (#[trigger] update@.values[i]).key
                == update.values@[i].key@ && update@.values[i].value == update.values@[i].value@,
        update@.keys.len() == update.keys@.len(),
        forall|i: int|
            0 <= i < update.keys@.len() ==> #[trigger] update@.keys[i] == update.keys@[i]@,
{
}

/// The model of a snapshot holds each field of the snapshot, and each entry in its place.
pub proof fn snapshots_are_modelled_field_by_field(update: RuntimeSnapshotUpdate)
    ensures
        update@.protocol == update.protocol@,
        update@.sidecar == update.sidecar@,
        update@.revision == update.revision@,
        update@.values.len() == update.values@.len(),
        forall|i: int|
            0 <= i < update.values@.len() ==> (#[trigger] update@.values[i]).key
                == update.values@[i].key@ && update@.values[i].value == update.values@[i].value@,
{
}

/// The text of a sequence of entries holds the key and the value of each entry in its place.
pub proof fn entries_are_modelled_in_place(entries: Seq<RuntimeValue>)
    ensures
        crate::value_map::entry_texts(entries).len() == entries.len(),
        forall|i: int|
            0 <= i < entries.len() ==> {
                &&& (#[trigger] crate::value_map::entry_texts(entries)[i]).key == entries[i].key@
                &&& crate::value_map::entry_texts(entries)[i].value == entries[i].value@
            },
        crate::value_map::entry_keys(crate::value_map::entry_texts(entries)).len()
            == entries.len(),
        forall|i: int|
            0 <= i < entries.len() ==> #[trigger] crate::value_map::entry_keys(
                crate::value_map::entry_texts(entries),
            )[i] == entries[i].key@,
{
}

/// The text of a sequence of strings holds the text of each string in its place.
pub proof fn names_are_modelled_in_place(names: Seq<String>)
    ensures
        crate::key_set::texts(names).len() == names.len(),
        forall|i: int|
            0 <= i < names.len() ==> #[trigger] crate::key_set::texts(names)[i] == names[i]@,
{
}

/// Snapshots, states, sets of keys and maps of values compare equal exactly where all that can be
/// read from them is the same.
pub proof fn equal_values_read_the_same(
    snapshots: (RuntimeSnapshot, RuntimeSnapshot),
    states: (RuntimeEventState, RuntimeEventState),
    sets: (RuntimeKeySet, RuntimeKeySet),
    maps: (RuntimeValueMap, RuntimeValueMap),
)
    ensures
        vstd::std_specs::cmp::PartialEqSpec::eq_spec(&snapshots.0, &snapshots.1) <==> {
            &&& snapshots.0.revision == snapshots.1.revision
            &&& snapshots.0.values@ == snapshots.1.values@
        },
        vstd::std_specs::cmp::PartialEqSpec::eq_spec(&states.0, &states.1) <==> {
            &&& states.0@.sidecar == states.1@.sidecar
            &&& states.0@.allowed_keys == states.1@.allowed_keys
            &&& states.0@.revision == states.1@.revision
            &&& states.0@.values == states.1@.values
            &&& states.0@.stale == states.1@.stale
        },
        vstd::std_specs::cmp::PartialEqSpec::eq_spec(&sets.0, &sets.1) <==> forall|
            key: Seq<char>,
        | #[trigger]
            sets.0@.contains(key) == sets.1@.contains(key),
        vstd::std_specs::cmp::PartialEqSpec::eq_spec(&maps.0, &maps.1) <==> forall|
            key: Seq<char>,
        |
            #![trigger maps.0@.dom().contains(key)]
            #![trigger maps.1@.dom().contains(key)]
            maps.0@.dom().contains(key) == maps.1@.dom().contains(key) && (maps.0@.dom().contains(
                key,
            ) ==> maps.0@[key] == maps.1@[key]),
{
    if forall|key: Seq<char>| #[trigger] sets.0@.contains(key) == sets.1@.contains(key) {
        assert(sets.0@ =~= sets.1@);
    }
    if forall|key: Seq<char>|
        #![trigger maps.0@.dom().contains(key)]
        #![trigger maps.1@.dom().contains(key)]
        maps.0@.dom().contains(key) == maps.1@.dom().contains(key) && (maps.0@.dom().contains(key)
            ==> maps.0@[key] == maps.1@[key]) {
        assert(maps.0@ =~= maps.1@);
    }
    assert(states.0@ == states.1@ <==> states.0@ =~= states.1@);
}

// Diagnostics

/// What the diagnostic for each refusal says: the fixed words for its kind, and the reason, key or
/// sidecars that it is about, as they are.
pub proof fn diagnostics_say_what_was_refused(text: Seq<char>, other: Seq<char>)
    ensures
        ErrorModel::InvalidEvent(text).message() == "runtime event is invalid: "@ + text,
        ErrorModel::InvalidSnapshot(text).message() == "runtime snapshot is invalid: "@ + text,
        ErrorModel::InvalidRevision.message()
            == "runtime revision must be canonical decimal within the cross-runtime safe integer bound"@,
        (ErrorModel::TargetMismatch { expected: text, actual: other }).message()
            == "runtime update targeted "@ + other + ", expected "@ + text,
        ErrorModel::InvalidRuntimeKey(text).message() == "invalid or secret-bearing runtime key: "@
            + text,
        ErrorModel::RuntimeKeyNotAllowed(text).message()
            == "runtime key is not allowlisted by .ores-sidecar.toml: "@ + text,
        ErrorModel::DuplicateRuntimeValue(text).message() == "duplicate runtime value or key: "@
            + text,
{
}

/// The model of a refusal is of the same kind and holds the same text.
pub proof fn refusals_are_modelled_by_kind_and_text(
    reason: &'static str,
    text: String,
    other: String,
)
    ensures
        RuntimeEventError::InvalidEvent(reason)@ == ErrorModel::InvalidEvent(reason@),
        RuntimeEventError::InvalidSnapshot(reason)@ == ErrorModel::InvalidSnapshot(reason@),
        RuntimeEventError::InvalidRevision@ == ErrorModel::InvalidRevision,
        (RuntimeEventError::TargetMismatch { expected: text, actual: other })@ == (
        ErrorModel::TargetMismatch { expected: text@, actual: other@ }),
        RuntimeEventError::InvalidRuntimeKey(text)@ == ErrorModel::InvalidRuntimeKey(text@),
        RuntimeEventError::RuntimeKeyNotAllowed(text)@ == ErrorModel::RuntimeKeyNotAllowed(text@),
        RuntimeEventError::DuplicateRuntimeValue(text)@ == ErrorModel::DuplicateRuntimeValue(text@),
{
}

// The order of text

/// Text comes before longer text that begins with its bytes.
pub proof fn text_comes_before_its_extensions(a: Seq<char>, b: Seq<char>, rest: Seq<u8>)
    requires
        vstd::utf8::encode_utf8(b) == vstd::utf8::encode_utf8(a) + rest,
        rest.len() > 0,
    ensures
        crate::text::text_before(a, b),
        !crate::text::text_before(b, a),
{
    let (x, y) = (vstd::utf8::encode_utf8(a), vstd::utf8::encode_utf8(b));
    assert(crate::text::splits_at(x, y, x.len() as int));
    one_order_at_most(a, b);
}

/// Where the bytes of two texts first differ, the text with the smaller byte comes before.
pub proof fn the_first_different_byte_decides(
    a: Seq<char>,
    b: Seq<char>,
    common: Seq<u8>,
    low: u8,
    high: u8,
    after: Seq<u8>,
    beyond: Seq<u8>,
)
    requires
        vstd::utf8::encode_utf8(a) == common.push(low) + after,
        vstd::utf8::encode_utf8(b) == common.push(high) + beyond,
        low < high,
    ensures
        crate::text::text_before(a, b),
        !crate::text::text_before(b, a),
{
    let (x, y) = (vstd::utf8::encode_utf8(a), vstd::utf8::encode_utf8(b));
    let at = common.len() as int;
    assert(x[at] == low && y[at] == high);
    assert forall|i: int| #![trigger x[i]] #![trigger y[i]] 0 <= i < at implies x[i] == y[i] by {
        assert(x[i] == common[i] && y[i] == common[i]);
    }
    assert(crate::text::splits_at(x, y, at));
    one_order_at_most(a, b);
}

/// Of two texts, not each comes before the other.
proof fn one_order_at_most(a: Seq<char>, b: Seq<char>)
    ensures
        !(crate::text::text_before(a, b) && crate::text::text_before(b, a)),
{
    crate::text::text_before_irreflexive(a);
    if crate::text::text_before(a, b) && crate::text::text_before(b, a) {
        crate::text::text_before_transitive(a, b, a);
    }
}

/// A sequence is ascending exactly where each of its texts comes before each later one.
pub proof fn ascending_sequences_are_in_order(names: Seq<Seq<char>>)
    ensures
        crate::key_set::ascending(names) <==> forall|i: int, j: int|
            0 <= i < j < names.len() ==> crate::text::text_before(
                #[trigger] names[i],
                #[trigger] names[j],
            ),
{
}

} // verus!
