//! A map from runtime keys to runtime values, kept in ascending order of the keys.

use crate::key_set::RuntimeKeySet;
use crate::text::same_text;
use vstd::prelude::*;

verus! {

/// One runtime key with its value.
#[derive(Debug, PartialEq, Eq)]
pub struct RuntimeValue {
    pub key: String,
    pub value: String,
}

impl Clone for RuntimeValue {
    fn clone(&self) -> (copy: Self)
        ensures
            copy@ == self@,
    {
        RuntimeValue { key: self.key.clone(), value: self.value.clone() }
    }
}

/// The text of a runtime key and of its value.
#[verifier::ext_equal]
pub struct EntryModel {
    pub key: Seq<char>,
    pub value: Seq<char>,
}

impl View for RuntimeValue {
    type V = EntryModel;

    open spec fn view(&self) -> EntryModel {
        EntryModel { key: self.key@, value: self.value@ }
    }
}

/// The text of each of a sequence of entries.
pub open spec fn entry_texts(entries: Seq<RuntimeValue>) -> Seq<EntryModel> {
    entries.map_values(|entry: RuntimeValue| entry@)
}

/// The keys of a sequence of entries.
pub open spec fn entry_keys(entries: Seq<EntryModel>) -> Seq<Seq<char>> {
    entries.map_values(|entry: EntryModel| entry.key)
}

/// The map of a sequence of entries. A later entry for the same key stands for an earlier one.
pub open spec fn entries_map(entries: Seq<EntryModel>) -> Map<Seq<char>, Seq<char>>
    decreases entries.len(),
{
    if entries.len() == 0 {
        Map::empty()
    } else {
        entries_map(entries.drop_last()).insert(entries.last().key, entries.last().value)
    }
}

/// The map of a sequence of entries has the keys of the entries.
pub proof fn entries_map_keys(entries: Seq<EntryModel>)
    ensures
        entries_map(entries).dom() == entry_keys(entries).to_set(),
    decreases entries.len(),
{
    let keys = entry_keys(entries);
    if entries.len() == 0 {
        assert(entries_map(entries).dom() =~= keys.to_set());
    } else {
        let count = entries.len() - 1;
        entries_map_keys(entries.drop_last());
        assert(entry_keys(entries.drop_last()) =~= keys.take(count));
        assert(keys.take(count + 1) =~= keys);
        crate::key_set::to_set_of_longer(keys, count);
        assert(entries_map(entries).dom() =~= keys.to_set());
    }
}

/// With distinct keys, the map of a sequence of entries reads every entry back.
pub proof fn entries_map_reads_back(entries: Seq<EntryModel>, at: int)
    requires
        entry_keys(entries).no_duplicates(),
        0 <= at < entries.len(),
    ensures
        entries_map(entries).contains_key(entries[at].key),
        entries_map(entries)[entries[at].key] == entries[at].value,
    decreases entries.len(),
{
    let shorter = entries.drop_last();
    if at < shorter.len() {
        assert(entry_keys(shorter) =~= entry_keys(entries).drop_last());
        entries_map_reads_back(shorter, at);
        assert(entry_keys(entries)[at] != entry_keys(entries)[entries.len() - 1]);
    }
}

/// The map that takes the key at each place to the value at that place.
pub open spec fn paired(keys: Seq<Seq<char>>, values: Seq<Seq<char>>) -> Map<Seq<char>, Seq<char>> {
    Map::new(|key: Seq<char>| keys.contains(key), |key: Seq<char>| values[keys.index_of(key)])
}

/// With distinct keys, the key at a place is paired with the value at that place.
proof fn paired_at(keys: Seq<Seq<char>>, values: Seq<Seq<char>>, at: int)
    requires
        keys.no_duplicates(),
        0 <= at < keys.len(),
    ensures
        paired(keys, values).contains_key(keys[at]),
        paired(keys, values)[keys[at]] == values[at],
{
    assert(keys.contains(keys[at]));
}

/// Putting a new key and its value at the same place adds one pair.
proof fn paired_insert(
    keys: Seq<Seq<char>>,
    values: Seq<Seq<char>>,
    at: int,
    key: Seq<char>,
    value: Seq<char>,
)
    requires
        keys.no_duplicates(),
        keys.len() == values.len(),
        !keys.contains(key),
        0 <= at <= keys.len(),
    ensures
        paired(keys.insert(at, key), values.insert(at, value)) == paired(keys, values).insert(
            key,
            value,
        ),
{
    let (more_keys, more_values) = (keys.insert(at, key), values.insert(at, value));
    assert(more_keys.no_duplicates()) by {
        assert forall|i: int, j: int|
            0 <= i < more_keys.len() && 0 <= j < more_keys.len() && i != j implies more_keys[i]
            != more_keys[j] by {
            let x = if i < at { i } else { i - 1 };
            let y = if j < at { j } else { j - 1 };
            if i == at {
                assert(keys.contains(keys[y]));
            } else if j == at {
                assert(keys.contains(keys[x]));
            } else {
                assert(keys[x] != keys[y]);
            }
        }
    }
    let (left, right) = (
        paired(more_keys, more_values),
        paired(keys, values).insert(key, value),
    );
    assert forall|k: Seq<char>|
        #![trigger left.dom().contains(k)]
        #![trigger right.dom().contains(k)]
        #![trigger left[k]]
        left.dom().contains(k) == right.dom().contains(k) && (left.dom().contains(k) ==> left[k]
            == right[k]) by {
        if more_keys.contains(k) {
            let i = choose|i: int| 0 <= i < more_keys.len() && more_keys[i] == k;
            paired_at(more_keys, more_values, i);
            if i != at {
                let x = if i < at { i } else { i - 1 };
                assert(keys[x] == k);
                paired_at(keys, values, x);
            }
        }
        if keys.contains(k) {
            let i = choose|i: int| 0 <= i < keys.len() && keys[i] == k;
            assert(more_keys[if i < at { i } else { i + 1 }] == k);
        }
        assert(more_keys[at] == key);
    }
    assert(left =~= right);
}

/// Pairing one place more adds the pair at that place.
proof fn paired_of_longer(keys: Seq<Seq<char>>, values: Seq<Seq<char>>, count: int)
    requires
        keys.no_duplicates(),
        keys.len() == values.len(),
        0 <= count < keys.len(),
    ensures
        paired(keys.take(count + 1), values.take(count + 1)) == paired(
            keys.take(count),
            values.take(count),
        ).insert(keys[count], values[count]),
{
    let (k, v) = (keys.take(count), values.take(count));
    assert(!k.contains(keys[count]));
    paired_insert(k, v, count, keys[count], values[count]);
    assert(k.insert(count, keys[count]) =~= keys.take(count + 1));
    assert(v.insert(count, values[count]) =~= values.take(count + 1));
}

/// Taking the key and the value at the same place out takes one pair out.
proof fn paired_remove(keys: Seq<Seq<char>>, values: Seq<Seq<char>>, at: int)
    requires
        keys.no_duplicates(),
        keys.len() == values.len(),
        0 <= at < keys.len(),
    ensures
        paired(keys.remove(at), values.remove(at)) == paired(keys, values).remove(keys[at]),
{
    let (less_keys, less_values) = (keys.remove(at), values.remove(at));
    assert(less_keys.no_duplicates());
    let (left, right) = (paired(less_keys, less_values), paired(keys, values).remove(keys[at]));
    assert forall|k: Seq<char>|
        #![trigger left.dom().contains(k)]
        #![trigger right.dom().contains(k)]
        #![trigger left[k]]
        left.dom().contains(k) == right.dom().contains(k) && (left.dom().contains(k) ==> left[k]
            == right[k]) by {
        if less_keys.contains(k) {
            let i = choose|i: int| 0 <= i < less_keys.len() && less_keys[i] == k;
            paired_at(less_keys, less_values, i);
            let x = if i < at { i } else { i + 1 };
            assert(keys[x] == k);
            paired_at(keys, values, x);
        }
        if keys.contains(k) && k != keys[at] {
            let i = choose|i: int| 0 <= i < keys.len() && keys[i] == k;
            assert(less_keys[if i < at { i } else { i - 1 }] == k);
        }
    }
    assert(left =~= right);
}

/// Changing the value at one place changes one pair.
proof fn paired_update(keys: Seq<Seq<char>>, values: Seq<Seq<char>>, at: int, value: Seq<char>)
    requires
        keys.no_duplicates(),
        keys.len() == values.len(),
        0 <= at < keys.len(),
    ensures
        paired(keys, values.update(at, value)) == paired(keys, values).insert(keys[at], value),
{
    let (left, right) = (
        paired(keys, values.update(at, value)),
        paired(keys, values).insert(keys[at], value),
    );
    assert forall|k: Seq<char>|
        #![trigger left.dom().contains(k)]
        #![trigger right.dom().contains(k)]
        #![trigger left[k]]
        left.dom().contains(k) == right.dom().contains(k) && (left.dom().contains(k) ==> left[k]
            == right[k]) by {
        assert(keys.contains(keys[at]));
        if keys.contains(k) {
            let i = choose|i: int| 0 <= i < keys.len() && keys[i] == k;
            paired_at(keys, values.update(at, value), i);
            paired_at(keys, values, i);
        }
    }
    assert(left =~= right);
}

/// A map from runtime keys to runtime values.
///
/// The keys are held in ascending order of their bytes, and each value at the place of its key.
#[derive(Debug)]
pub struct RuntimeValueMap {
    keys: RuntimeKeySet,
    values: Vec<String>,
}

impl RuntimeValueMap {
    /// The keys in ascending order.
    pub closed spec fn ordered_keys(&self) -> Seq<Seq<char>> {
        self.keys.ordered()
    }

    /// The values in ascending order of their keys.
    pub closed spec fn ordered_values(&self) -> Seq<Seq<char>> {
        crate::key_set::texts(self.values@)
    }

    #[verifier::type_invariant]
    spec fn matched(&self) -> bool {
        &&& crate::key_set::ascending(self.ordered_keys())
        &&& self.ordered_keys().len() == self.ordered_values().len()
    }
}

impl View for RuntimeValueMap {
    type V = Map<Seq<char>, Seq<char>>;

    open spec fn view(&self) -> Map<Seq<char>, Seq<char>> {
        paired(self.ordered_keys(), self.ordered_values())
    }
}

impl RuntimeValueMap {
    /// The empty map.
    pub fn new() -> (map: Self)
        ensures
            map@ == Map::<Seq<char>, Seq<char>>::empty(),
    {
        let map = RuntimeValueMap { keys: RuntimeKeySet::new(), values: Vec::new() };
        assert(map@ =~= Map::<Seq<char>, Seq<char>>::empty());
        map
    }

    /// The number of keys.
    pub fn len(&self) -> (count: usize)
        ensures
            count == self@.len(),
            self@.dom().finite(),
    {
        proof {
            assert(self@.dom() =~= self.keys@);
        }
        self.keys.len()
    }

    /// Whether the map has no key.
    pub fn is_empty(&self) -> (empty: bool)
        ensures
            empty == (self@ == Map::<Seq<char>, Seq<char>>::empty()),
    {
        proof {
            assert(self@.dom() =~= self.keys@);
            if self.keys@ == Set::<Seq<char>>::empty() {
                assert(self@ =~= Map::<Seq<char>, Seq<char>>::empty());
            }
        }
        self.keys.is_empty()
    }

    /// The value of `key`, if the map has it.
    pub fn get(&self, key: &str) -> (value: Option<&String>)
        ensures
            value is Some <==> self@.contains_key(key@),
            value matches Some(text) ==> text@ == self@[key@],
    {
        proof {
            use_type_invariant(self);
        }
        let (found, at) = self.keys.locate(key);
        if found {
            proof {
                crate::key_set::ascending_is_distinct(self.ordered_keys());
                paired_at(self.ordered_keys(), self.ordered_values(), at as int);
            }
            Some(&self.values[at])
        } else {
            None
        }
    }

    /// Whether the map has `key`.
    pub fn contains_key(&self, key: &str) -> (found: bool)
        ensures
            found == self@.contains_key(key@),
    {
        self.keys.contains(key)
    }

    /// Gives `key` the value `value`. Returns the value that it had before, if any.
    pub fn insert(&mut self, key: String, value: String) -> (former: Option<String>)
        ensures
            final(self)@ == old(self)@.insert(key@, value@),
            former is Some <==> old(self)@.contains_key(key@),
            former matches Some(text) ==> text@ == old(self)@[key@],
    {
        let mut taken = RuntimeValueMap::new();
        std::mem::swap(self, &mut taken);
        proof {
            use_type_invariant(&taken);
            crate::key_set::ascending_is_distinct(taken.ordered_keys());
        }
        let ghost (old_keys, old_values) = (taken.ordered_keys(), taken.ordered_values());
        let ghost (new_key, new_value) = (key@, value@);
        let RuntimeValueMap { mut keys, mut values } = taken;
        let (found, at) = keys.locate(key.as_str());
        if found {
            let former = values[at].clone();
            values.set(at, value);
            assert(crate::key_set::texts(values@) =~= old_values.update(at as int, new_value));
            proof {
                paired_update(old_keys, old_values, at as int, new_value);
                paired_at(old_keys, old_values, at as int);
            }
            *self = RuntimeValueMap { keys, values };
            Some(former)
        } else {
            keys.insert_at(at, key);
            values.insert(at, value);
            assert(crate::key_set::texts(values@) =~= old_values.insert(at as int, new_value));
            proof {
                paired_insert(old_keys, old_values, at as int, new_key, new_value);
            }
            *self = RuntimeValueMap { keys, values };
            None
        }
    }

    /// Takes `key` out. Returns the value that it had, if any.
    pub fn remove(&mut self, key: &str) -> (former: Option<String>)
        ensures
            final(self)@ == old(self)@.remove(key@),
            former is Some <==> old(self)@.contains_key(key@),
            former matches Some(text) ==> text@ == old(self)@[key@],
    {
        let mut taken = RuntimeValueMap::new();
        std::mem::swap(self, &mut taken);
        proof {
            use_type_invariant(&taken);
            crate::key_set::ascending_is_distinct(taken.ordered_keys());
        }
        let ghost (old_keys, old_values) = (taken.ordered_keys(), taken.ordered_values());
        let RuntimeValueMap { mut keys, mut values } = taken;
        let (found, at) = keys.locate(key);
        if found {
            keys.remove_at(at);
            let former = values.remove(at);
            assert(crate::key_set::texts(values@) =~= old_values.remove(at as int));
            proof {
                paired_remove(old_keys, old_values, at as int);
                paired_at(old_keys, old_values, at as int);
            }
            *self = RuntimeValueMap { keys, values };
            Some(former)
        } else {
            assert(paired(old_keys, old_values).remove(key@) =~= paired(old_keys, old_values));
            *self = RuntimeValueMap { keys, values };
            None
        }
    }

    /// Gives every key of `newer` the value that it has there.
    pub fn merge(&mut self, newer: RuntimeValueMap)
        ensures
            final(self)@ == old(self)@.union_prefer_right(newer@),
    {
        proof {
            use_type_invariant(&newer);
            crate::key_set::ascending_is_distinct(newer.ordered_keys());
        }
        let ghost base = self@;
        let ghost (all_keys, all_values) = (newer.ordered_keys(), newer.ordered_values());
        let names = newer.keys.keys();
        let mut at: usize = 0;
        assert(base.union_prefer_right(paired(all_keys.take(0), all_values.take(0))) =~= base);
        while at < names.len()
            invariant
                at <= names.len(),
                all_keys == crate::key_set::texts(names@),
                all_values == crate::key_set::texts(newer.values@),
                all_keys.len() == all_values.len(),
                all_keys.no_duplicates(),
                self@ == base.union_prefer_right(
                    paired(all_keys.take(at as int), all_values.take(at as int)),
                ),
            decreases names.len() - at,
        {
            let _ = self.insert(names[at].clone(), newer.values[at].clone());
            proof {
                paired_of_longer(all_keys, all_values, at as int);
                assert(self@ =~= base.union_prefer_right(
                    paired(all_keys.take(at + 1), all_values.take(at + 1)),
                ));
            }
            at += 1;
        }
        assert(all_keys.take(at as int) =~= all_keys);
        assert(all_values.take(at as int) =~= all_values);
    }

    /// Takes every one of the given keys out.
    pub fn remove_all(&mut self, names: &Vec<String>)
        ensures
            final(self)@ == old(self)@.remove_keys(crate::key_set::texts(names@).to_set()),
    {
        let ghost base = self@;
        let ghost all = crate::key_set::texts(names@);
        let mut at: usize = 0;
        assert(base.remove_keys(all.take(0).to_set()) =~= base);
        while at < names.len()
            invariant
                at <= names.len(),
                all == crate::key_set::texts(names@),
                self@ == base.remove_keys(all.take(at as int).to_set()),
            decreases names.len() - at,
        {
            let _ = self.remove(names[at].as_str());
            proof {
                crate::key_set::to_set_of_longer(all, at as int);
                assert(self@ =~= base.remove_keys(all.take(at + 1).to_set()));
            }
            at += 1;
        }
        assert(all.take(at as int) =~= all);
    }

    /// The entries, in ascending order of their keys.
    pub fn entries(&self) -> (entries: Vec<RuntimeValue>)
        ensures
            entries@.len() == self@.len(),
            entries_map(entry_texts(entries@)) == self@,
            crate::key_set::ascending(entry_keys(entry_texts(entries@))),
    {
        proof {
            use_type_invariant(self);
            crate::key_set::ascending_is_distinct(self.ordered_keys());
            self.ordered_keys().unique_seq_to_set();
            assert(self@.dom() =~= self.ordered_keys().to_set());
        }
        let ghost (all_keys, all_values) = (self.ordered_keys(), self.ordered_values());
        let mut entries: Vec<RuntimeValue> = Vec::new();
        let names = self.keys.keys();
        let mut at: usize = 0;
        assert(entries_map(entry_texts(entries@)) =~= paired(all_keys.take(0), all_values.take(0)));
        while at < names.len()
            invariant
                at <= names.len(),
                at == entries@.len(),
                all_keys == crate::key_set::texts(names@),
                all_values == crate::key_set::texts(self.values@),
                all_keys.len() == all_values.len(),
                all_keys.no_duplicates(),
                entry_keys(entry_texts(entries@)) == all_keys.take(at as int),
                entries_map(entry_texts(entries@)) == paired(
                    all_keys.take(at as int),
                    all_values.take(at as int),
                ),
            decreases names.len() - at,
        {
            let ghost before = entry_texts(entries@);
            entries.push(
                RuntimeValue { key: names[at].clone(), value: self.values[at].clone() },
            );
            proof {
                let after = entry_texts(entries@);
                assert(after.drop_last() =~= before);
                paired_of_longer(all_keys, all_values, at as int);
                assert(entry_keys(after) =~= entry_keys(before).push(all_keys[at as int]));
                assert(entry_keys(after) =~= all_keys.take(at + 1));
            }
            at += 1;
        }
        assert(all_keys.take(at as int) =~= all_keys);
        assert(all_values.take(at as int) =~= all_values);
        entries
    }

    /// A map with the same entries, in storage of its own.
    pub fn independent(&self) -> (copy: Self)
        ensures
            copy@ == self@,
    {
        proof {
            use_type_invariant(self);
        }
        let mut values: Vec<String> = Vec::new();
        let mut at: usize = 0;
        while at < self.values.len()
            invariant
                at <= self.values.len(),
                values@ == self.values@.take(at as int),
            decreases self.values.len() - at,
        {
            values.push(self.values[at].clone());
            assert(values@ =~= self.values@.take(at + 1));
            at += 1;
        }
        assert(values@ =~= self.values@);
        RuntimeValueMap { keys: self.keys.independent(), values }
    }
}

impl Clone for RuntimeValueMap {
    fn clone(&self) -> (copy: Self)
        ensures
            copy@ == self@,
    {
        self.independent()
    }
}

impl PartialEq for RuntimeValueMap {
    fn eq(&self, other: &Self) -> (same: bool)
        ensures
            same == (self@ == other@),
    {
        let ghost (keys, values) = (self.ordered_keys(), self.ordered_values());
        let ghost (other_keys, other_values) = (other.ordered_keys(), other.ordered_values());
        proof {
            use_type_invariant(self);
            use_type_invariant(other);
            crate::key_set::ascending_is_distinct(keys);
            assert(self@.dom() =~= self.keys@);
            assert(other@.dom() =~= other.keys@);
            if self.keys@ == other.keys@ {
                crate::key_set::ascending_is_canonical(keys, other_keys);
            }
        }
        if self.keys != other.keys {
            return false;
        }
        let mut at: usize = 0;
        while at < self.values.len()
            invariant
                at <= self.values.len(),
                self.values.len() == other.values.len(),
                keys.len() == self.values.len(),
                keys == other_keys,
                keys.no_duplicates(),
                self@ == paired(keys, values),
                other@ == paired(other_keys, other_values),
                values == crate::key_set::texts(self.values@),
                other_values == crate::key_set::texts(other.values@),
                forall|i: int| 0 <= i < at ==> values[i] == other_values[i],
            decreases self.values.len() - at,
        {
            if !same_text(self.values[at].as_str(), other.values[at].as_str()) {
                proof {
                    paired_at(keys, values, at as int);
                    paired_at(other_keys, other_values, at as int);
                }
                return false;
            }
            at += 1;
        }
        assert(values =~= other_values);
        true
    }
}

impl vstd::std_specs::cmp::PartialEqSpecImpl for RuntimeValueMap {
    open spec fn obeys_eq_spec() -> bool {
        true
    }

    open spec fn eq_spec(&self, other: &Self) -> bool {
        self@ == other@
    }
}

impl Eq for RuntimeValueMap {
}

} // verus!
