//! A set of runtime keys, kept in ascending order.

use crate::text::{compare_text, same_text, TextOrder};
use vstd::prelude::*;

verus! {

/// Ascending, without repetition.
pub open spec fn ascending(names: Seq<Seq<char>>) -> bool {
    forall|i: int, j: int|
        #![trigger names[i], names[j]]
        0 <= i < j < names.len() ==> crate::text::text_before(names[i], names[j])
}

/// The text of each of a sequence of strings.
pub open spec fn texts(names: Seq<String>) -> Seq<Seq<char>> {
    names.map_values(|name: String| name@)
}

/// An ascending sequence holds nothing twice.
pub proof fn ascending_is_distinct(names: Seq<Seq<char>>)
    requires
        ascending(names),
    ensures
        names.no_duplicates(),
{
    assert forall|i: int, j: int| 0 <= i < names.len() && 0 <= j < names.len() && i != j implies
        names[i] != names[j] by {
        crate::text::text_before_irreflexive(names[i]);
        if i < j {
            assert(crate::text::text_before(names[i], names[j]));
        } else {
            assert(crate::text::text_before(names[j], names[i]));
        }
    }
}

/// Taking one element more of a sequence adds that element to the set of those taken.
pub proof fn to_set_of_longer(all: Seq<Seq<char>>, count: int)
    requires
        0 <= count < all.len(),
    ensures
        all.take(count + 1).to_set() == all.take(count).to_set().insert(all[count]),
{
    let (short, long) = (all.take(count), all.take(count + 1));
    assert forall|x: Seq<char>|
        long.to_set().contains(x) == short.to_set().insert(all[count]).contains(x) by {
        if long.contains(x) {
            let i = choose|i: int| 0 <= i < long.len() && long[i] == x;
            if i < count {
                assert(short[i] == x);
            }
        }
        if short.contains(x) {
            let i = choose|i: int| 0 <= i < short.len() && short[i] == x;
            assert(long[i] == x);
        }
        assert(long[count] == all[count]);
    }
    assert(long.to_set() =~= short.to_set().insert(all[count]));
}

/// A set has one ascending sequence: two ascending sequences with the same elements are equal.
pub proof fn ascending_is_canonical(a: Seq<Seq<char>>, b: Seq<Seq<char>>)
    requires
        ascending(a),
        ascending(b),
        a.to_set() == b.to_set(),
    ensures
        a == b,
    decreases a.len(),
{
    if a.len() == 0 {
        if b.len() > 0 {
            assert(b.to_set().contains(b[0]));
            assert(a.to_set().contains(b[0]));
        }
        assert(a =~= b);
    } else {
        assert(a.to_set().contains(a[0]));
        assert(b.to_set().contains(a[0]));
        assert(b.to_set().contains(b[0]));
        assert(a.to_set().contains(b[0]));
        let i = choose|i: int| 0 <= i < a.len() && a[i] == b[0];
        let j = choose|j: int| 0 <= j < b.len() && b[j] == a[0];
        if i > 0 && j > 0 {
            assert(crate::text::text_before(a[0], a[i]));
            assert(crate::text::text_before(b[0], b[j]));
            crate::text::text_before_transitive(a[0], b[0], a[0]);
            crate::text::text_before_irreflexive(a[0]);
        }
        assert(a[0] == b[0]);
        let (p, q) = (a.drop_first(), b.drop_first());
        assert forall|x: Seq<char>| p.to_set().contains(x) == q.to_set().contains(x) by {
            ascending_is_distinct(a);
            ascending_is_distinct(b);
            if p.to_set().contains(x) {
                let k = choose|k: int| 0 <= k < p.len() && p[k] == x;
                assert(a[k + 1] == x);
                assert(a.to_set().contains(x));
                assert(b.to_set().contains(x));
                let m = choose|m: int| 0 <= m < b.len() && b[m] == x;
                assert(q[m - 1] == x);
            }
            if q.to_set().contains(x) {
                let k = choose|k: int| 0 <= k < q.len() && q[k] == x;
                assert(b[k + 1] == x);
                assert(b.to_set().contains(x));
                assert(a.to_set().contains(x));
                let m = choose|m: int| 0 <= m < a.len() && a[m] == x;
                assert(p[m - 1] == x);
            }
        }
        assert(p.to_set() =~= q.to_set());
        ascending_is_canonical(p, q);
        assert(a =~= seq![a[0]] + p);
        assert(b =~= seq![b[0]] + q);
    }
}

/// A set of runtime keys.
///
/// The keys are held in ascending order of their bytes, each once.
#[derive(Debug)]
pub struct RuntimeKeySet {
    names: Vec<String>,
}

impl RuntimeKeySet {
    /// The keys in ascending order.
    pub closed spec fn ordered(&self) -> Seq<Seq<char>> {
        texts(self.names@)
    }

    #[verifier::type_invariant]
    spec fn ascending_names(&self) -> bool {
        ascending(self.ordered())
    }
}

impl View for RuntimeKeySet {
    type V = Set<Seq<char>>;

    open spec fn view(&self) -> Set<Seq<char>> {
        self.ordered().to_set()
    }
}

impl RuntimeKeySet {
    /// The empty set.
    pub fn new() -> (set: Self)
        ensures
            set@ == Set::<Seq<char>>::empty(),
            set.ordered() == Seq::<Seq<char>>::empty(),
    {
        let set = RuntimeKeySet { names: Vec::new() };
        assert(set.ordered() =~= Seq::<Seq<char>>::empty());
        assert(set@ =~= Set::<Seq<char>>::empty());
        set
    }

    /// The number of keys.
    pub fn len(&self) -> (count: usize)
        ensures
            count == self@.len(),
            count == self.ordered().len(),
            ascending(self.ordered()),
            self@.finite(),
    {
        proof {
            use_type_invariant(self);
            ascending_is_distinct(self.ordered());
            self.ordered().unique_seq_to_set();
        }
        self.names.len()
    }

    /// Whether the set has no key.
    pub fn is_empty(&self) -> (empty: bool)
        ensures
            empty == (self@ == Set::<Seq<char>>::empty()),
    {
        proof {
            if self.names@.len() == 0 {
                assert(self@ =~= Set::<Seq<char>>::empty());
            } else {
                assert(self@.contains(self.ordered()[0]));
            }
        }
        self.names.len() == 0
    }

    /// The keys, in ascending order.
    pub fn keys(&self) -> (names: &Vec<String>)
        ensures
            texts(names@) == self.ordered(),
            texts(names@).to_set() == self@,
            ascending(self.ordered()),
    {
        proof {
            use_type_invariant(self);
        }
        &self.names
    }

    /// Where `key` stands: whether the set has it, and the number of keys before it.
    pub(crate) fn locate(&self, key: &str) -> (place: (bool, usize))
        ensures
            place.0 == self@.contains(key@),
            place.1 <= self.ordered().len(),
            place.0 ==> place.1 < self.ordered().len() && self.ordered()[place.1 as int] == key@,
            forall|i: int|
                0 <= i < place.1 ==> crate::text::text_before(#[trigger] self.ordered()[i], key@),
            forall|i: int|
                place.1 <= i < self.ordered().len() && !place.0 ==> crate::text::text_before(
                    key@,
                    #[trigger] self.ordered()[i],
                ),
            ascending(self.ordered()),
    {
        proof {
            use_type_invariant(self);
        }
        let ghost all = self.ordered();
        let mut low: usize = 0;
        let mut high: usize = self.names.len();
        while low < high
            invariant
                all == self.ordered(),
                all == texts(self.names@),
                ascending(all),
                low <= high <= all.len(),
                all.len() == self.names@.len(),
                forall|i: int| 0 <= i < low ==> crate::text::text_before(#[trigger] all[i], key@),
                forall|i: int|
                    high <= i < all.len() ==> crate::text::text_before(key@, #[trigger] all[i]),
            decreases high - low,
        {
            let middle: usize = low + (high - low) / 2;
            match compare_text(self.names[middle].as_str(), key) {
                TextOrder::Same => {
                    assert(all[middle as int] == key@);
                    return (true, middle);
                },
                TextOrder::Before => {
                    assert forall|i: int| 0 <= i < middle + 1 implies crate::text::text_before(
                        #[trigger] all[i],
                        key@,
                    ) by {
                        if i < middle {
                            crate::text::text_before_transitive(all[i], all[middle as int], key@);
                        }
                    }
                    low = middle + 1;
                },
                TextOrder::After => {
                    assert forall|i: int| middle <= i < all.len() implies crate::text::text_before(
                        key@,
                        #[trigger] all[i],
                    ) by {
                        if i > middle {
                            crate::text::text_before_transitive(key@, all[middle as int], all[i]);
                        }
                    }
                    high = middle;
                },
            }
        }
        proof {
            if self@.contains(key@) {
                let i = choose|i: int| 0 <= i < all.len() && all[i] == key@;
                crate::text::text_before_irreflexive(key@);
                assert(crate::text::text_before(all[i], key@) || crate::text::text_before(
                    key@,
                    all[i],
                ));
            }
        }
        (false, low)
    }

    /// Whether the set has `key`.
    pub fn contains(&self, key: &str) -> (found: bool)
        ensures
            found == self@.contains(key@),
    {
        self.locate(key).0
    }

    /// Puts `key` at the place that `locate` gave for it, when the set does not have it.
    pub(crate) fn insert_at(&mut self, at: usize, key: String)
        requires
            at <= old(self).ordered().len(),
            forall|i: int|
                0 <= i < at ==> crate::text::text_before(#[trigger] old(self).ordered()[i], key@),
            forall|i: int|
                at <= i < old(self).ordered().len() ==> crate::text::text_before(
                    key@,
                    #[trigger] old(self).ordered()[i],
                ),
        ensures
            final(self).ordered() == old(self).ordered().insert(at as int, key@),
            final(self)@ == old(self)@.insert(key@),
            ascending(final(self).ordered()),
    {
        proof {
            use_type_invariant(&*self);
        }
        let ghost before = self.ordered();
        let ghost added = key@;
        let mut names: Vec<String> = Vec::new();
        std::mem::swap(&mut self.names, &mut names);
        names.insert(at, key);
        let ghost after = before.insert(at as int, added);
        assert(texts(names@) =~= after);
        assert(ascending(after)) by {
            assert forall|i: int, j: int| #![trigger after[i], after[j]]
                0 <= i < j < after.len() implies crate::text::text_before(after[i], after[j]) by {
                let x = if i < at { i } else { i - 1 };
                let y = if j < at { j } else { j - 1 };
                if i != at && j != at {
                    assert(crate::text::text_before(before[x], before[y]));
                }
            }
        }
        self.names = names;
        proof {
            let at = at as int;
            assert forall|x: Seq<char>|
                after.to_set().contains(x) == before.to_set().insert(added).contains(x) by {
                if before.contains(x) {
                    let i = choose|i: int| 0 <= i < before.len() && before[i] == x;
                    assert(after[if i < at { i } else { i + 1 }] == x);
                }
                if after.contains(x) {
                    let i = choose|i: int| 0 <= i < after.len() && after[i] == x;
                    if i != at {
                        assert(before[if i < at { i } else { i - 1 }] == x);
                    }
                }
                assert(after[at] == added);
            }
            assert(after.to_set() =~= before.to_set().insert(added));
        }
    }

    /// Takes the key at a place out of the set.
    pub(crate) fn remove_at(&mut self, at: usize)
        requires
            at < old(self).ordered().len(),
        ensures
            final(self).ordered() == old(self).ordered().remove(at as int),
            final(self)@ == old(self)@.remove(old(self).ordered()[at as int]),
            ascending(final(self).ordered()),
    {
        proof {
            use_type_invariant(&*self);
        }
        let ghost before = self.ordered();
        let mut names: Vec<String> = Vec::new();
        std::mem::swap(&mut self.names, &mut names);
        let _ = names.remove(at);
        let ghost after = before.remove(at as int);
        assert(texts(names@) =~= after);
        assert(ascending(after)) by {
            assert forall|i: int, j: int| #![trigger after[i], after[j]]
                0 <= i < j < after.len() implies crate::text::text_before(after[i], after[j]) by {
                let x = if i < at { i } else { i + 1 };
                let y = if j < at { j } else { j + 1 };
                assert(crate::text::text_before(before[x], before[y]));
            }
        }
        self.names = names;
        proof {
            let at = at as int;
            ascending_is_distinct(before);
            assert forall|x: Seq<char>|
                after.to_set().contains(x) == before.to_set().remove(before[at]).contains(x) by {
                if before.contains(x) && x != before[at] {
                    let i = choose|i: int| 0 <= i < before.len() && before[i] == x;
                    assert(after[if i < at { i } else { i - 1 }] == x);
                }
                if after.contains(x) {
                    let i = choose|i: int| 0 <= i < after.len() && after[i] == x;
                    assert(before[if i < at { i } else { i + 1 }] == x);
                }
            }
            assert(after.to_set() =~= before.to_set().remove(before[at]));
        }
    }

    /// Adds `key`. Returns whether the set did not have it.
    pub fn insert(&mut self, key: String) -> (added: bool)
        ensures
            final(self)@ == old(self)@.insert(key@),
            added == !old(self)@.contains(key@),
    {
        let (found, at) = self.locate(key.as_str());
        if found {
            assert(self@ =~= self@.insert(key@));
            false
        } else {
            self.insert_at(at, key);
            true
        }
    }

    /// The set of the given keys. A key that is given more than once is in the set once.
    pub fn from_keys(names: Vec<String>) -> (set: Self)
        ensures
            set@ == texts(names@).to_set(),
    {
        let mut set = RuntimeKeySet::new();
        let mut taken: usize = 0;
        let ghost all = texts(names@);
        assert(all.take(0).to_set() =~= Set::<Seq<char>>::empty());
        while taken < names.len()
            invariant
                taken <= names.len(),
                all == texts(names@),
                set@ == all.take(taken as int).to_set(),
            decreases names.len() - taken,
        {
            let _ = set.insert(names[taken].clone());
            proof {
                to_set_of_longer(all, taken as int);
            }
            taken += 1;
        }
        assert(all.take(names.len() as int) =~= all);
        set
    }

    /// A set with the same keys, in storage of its own.
    pub fn independent(&self) -> (copy: Self)
        ensures
            copy@ == self@,
            copy.ordered() == self.ordered(),
    {
        proof {
            use_type_invariant(self);
        }
        let mut names: Vec<String> = Vec::new();
        let mut taken: usize = 0;
        while taken < self.names.len()
            invariant
                taken <= self.names.len(),
                names@ == self.names@.take(taken as int),
            decreases self.names.len() - taken,
        {
            names.push(self.names[taken].clone());
            assert(names@ =~= self.names@.take(taken + 1));
            taken += 1;
        }
        assert(names@ =~= self.names@);
        RuntimeKeySet { names }
    }
}

impl Clone for RuntimeKeySet {
    fn clone(&self) -> (copy: Self)
        ensures
            copy@ == self@,
    {
        self.independent()
    }
}

impl PartialEq for RuntimeKeySet {
    fn eq(&self, other: &Self) -> (same: bool)
        ensures
            same == (self@ == other@),
    {
        proof {
            use_type_invariant(self);
            use_type_invariant(other);
            if self@ == other@ {
                ascending_is_canonical(self.ordered(), other.ordered());
            }
        }
        if self.names.len() != other.names.len() {
            assert(self.ordered().len() != other.ordered().len());
            return false;
        }
        let mut at: usize = 0;
        while at < self.names.len()
            invariant
                at <= self.names.len(),
                self.names.len() == other.names.len(),
                self@ == other@ ==> self.ordered() == other.ordered(),
                forall|i: int| 0 <= i < at ==> self.ordered()[i] == other.ordered()[i],
            decreases self.names.len() - at,
        {
            if !same_text(self.names[at].as_str(), other.names[at].as_str()) {
                assert(self.ordered()[at as int] != other.ordered()[at as int]);
                return false;
            }
            assert(self.ordered()[at as int] == other.ordered()[at as int]);
            at += 1;
        }
        assert(self.ordered() =~= other.ordered());
        true
    }
}

impl vstd::std_specs::cmp::PartialEqSpecImpl for RuntimeKeySet {
    open spec fn obeys_eq_spec() -> bool {
        true
    }

    open spec fn eq_spec(&self, other: &Self) -> bool {
        self@ == other@
    }
}

impl Eq for RuntimeKeySet {
}

} // verus!
