//! A small map from names to values that keeps its entries in the order in
//! which they were added.

use vstd::prelude::*;

verus! {

/// One name with the value stored under it.
#[derive(Debug)]
struct Entry<V> {
    name: String,
    value: V,
}

/// The names of a run of entries, in order.
spec fn names_of<V>(entries: Seq<Entry<V>>) -> Seq<Seq<char>> {
    Seq::new(entries.len(), |i: int| entries[i].name@)
}

/// Whether `name` is one of the first `upto` names of `names`.
pub open spec fn seen(names: Seq<Seq<char>>, upto: int, name: Seq<char>) -> bool {
    exists|j: int| 0 <= j < upto && j < names.len() && names[j] == name
}

/// Looking at one more name adds exactly that name to those seen.
pub proof fn lemma_seen_next(names: Seq<Seq<char>>, upto: int)
    requires
        0 <= upto < names.len(),
    ensures
        forall|name: Seq<char>|
            seen(names, upto + 1, name) <==> (seen(names, upto, name) || name == names[upto]),
{
    assert forall|name: Seq<char>|
        seen(names, upto + 1, name) <==> (seen(names, upto, name) || name == names[upto]) by {
        if seen(names, upto + 1, name) {
            let j = choose|j: int| 0 <= j < upto + 1 && j < names.len() && names[j] == name;
            if j < upto {
                assert(seen(names, upto, name));
            }
        }
        if seen(names, upto, name) {
            let j = choose|j: int| 0 <= j < upto && j < names.len() && names[j] == name;
            assert(0 <= j < upto + 1 && names[j] == name);
        }
        if name == names[upto] {
            assert(0 <= upto < upto + 1 && names[upto] == name);
        }
    }
}

/// Where no name occurs twice, a name was not seen before its own place.
pub proof fn lemma_not_seen_before(names: Seq<Seq<char>>, at: int)
    requires
        names.no_duplicates(),
        0 <= at < names.len(),
    ensures
        !seen(names, at, names[at]),
{
    if seen(names, at, names[at]) {
        let j = choose|j: int| 0 <= j < at && j < names.len() && names[j] == names[at];
        assert(names[j] == names[at]);
    }
}

/// Once every name was looked at, the names seen are those that occur.
pub proof fn lemma_seen_all(names: Seq<Seq<char>>)
    ensures
        forall|name: Seq<char>| seen(names, names.len() as int, name) <==> names.contains(name),
        forall|name: Seq<char>| !seen(names, 0, name),
{
    assert forall|name: Seq<char>| seen(names, names.len() as int, name) <==> names.contains(
        name,
    ) by {
        if names.contains(name) {
            let j = choose|j: int| 0 <= j < names.len() && names[j] == name;
            assert(0 <= j < names.len() && j < names.len() && names[j] == name);
        }
    }
}

/// A finite map keyed by name. No name occurs twice.
#[derive(Debug)]
pub struct NameMap<V> {
    entries: Vec<Entry<V>>,
}

impl<V> View for NameMap<V> {
    type V = Map<Seq<char>, V>;

    /// The map from each stored name to its value.
    closed spec fn view(&self) -> Map<Seq<char>, V> {
        Map::new(
            |name: Seq<char>| self.keys().contains(name),
            |name: Seq<char>| self.entries@[self.keys().index_of(name)].value,
        )
    }
}

impl<V> NameMap<V> {
    /// The stored names, in the order of the entries.
    pub closed spec fn keys(&self) -> Seq<Seq<char>> {
        names_of(self.entries@)
    }

    #[verifier::type_invariant]
    spec fn well_formed(&self) -> bool {
        self.keys().no_duplicates()
    }

    /// The names of the map are exactly the names in `keys`.
    pub proof fn lemma_keys_are_domain(&self)
        ensures
            forall|name: Seq<char>| self@.contains_key(name) <==> self.keys().contains(name),
            self@.dom() =~= self.keys().to_set(),
            self@.dom().finite(),
    {
        assert forall|name: Seq<char>| self@.contains_key(name) <==> self.keys().contains(
            name,
        ) by {}
        assert(self@.dom() =~= self.keys().to_set());
    }

    /// An empty map.
    pub fn new() -> (made: Self)
        ensures
            made@ == Map::<Seq<char>, V>::empty(),
            made.keys() == Seq::<Seq<char>>::empty(),
    {
        let made = NameMap { entries: Vec::new() };
        assert(made.keys() =~= Seq::<Seq<char>>::empty());
        assert(made@ =~= Map::<Seq<char>, V>::empty());
        made
    }

    /// The number of entries.
    pub fn len(&self) -> (n: usize)
        ensures
            n == self.keys().len(),
            n == self@.dom().len(),
            self.keys().no_duplicates(),
    {
        proof {
            use_type_invariant(self);
            self.lemma_keys_are_domain();
            self.keys().unique_seq_to_set();
        }
        self.entries.len()
    }

    /// The name of entry `i`.
    pub fn key(&self, i: usize) -> (name: &String)
        requires
            i < self.keys().len(),
        ensures
            name@ == self.keys()[i as int],
            self@.contains_key(name@),
    {
        assert(self.keys().contains(self.keys()[i as int]));
        &self.entries[i].name
    }

    /// The value of entry `i`.
    pub fn value(&self, i: usize) -> (value: &V)
        requires
            i < self.keys().len(),
        ensures
            self@.contains_key(self.keys()[i as int]),
            *value == self@[self.keys()[i as int]],
    {
        proof {
            use_type_invariant(self);
            let name = self.keys()[i as int];
            assert(self.keys().contains(name));
            self.keys().index_of_first_ensures(name);
        }
        &self.entries[i].value
    }

    /// Where `name` is stored, if it is.
    pub fn position(&self, name: &str) -> (found: Option<usize>)
        ensures
            match found {
                Some(i) => i < self.keys().len() && self.keys()[i as int] == name@,
                None => !self@.contains_key(name@),
            },
            found is Some <==> self@.contains_key(name@),
    {
        let wanted = name.to_owned();
        let n = self.entries.len();
        let mut i: usize = 0;
        while i < n
            invariant
                n == self.entries@.len(),
                i <= n,
                wanted@ == name@,
                forall|j: int| 0 <= j < i ==> self.keys()[j] != name@,
            decreases n - i,
        {
            if self.entries[i].name == wanted {
                assert(self.keys().contains(self.keys()[i as int]));
                return Some(i);
            }
            i += 1;
        }
        None
    }

    /// Whether a value is stored under `name`.
    pub fn contains_key(&self, name: &str) -> (found: bool)
        ensures
            found == self@.contains_key(name@),
    {
        self.position(name).is_some()
    }

    /// The value stored under `name`, if there is one.
    pub fn get(&self, name: &str) -> (found: Option<&V>)
        ensures
            found is Some <==> self@.contains_key(name@),
            found is Some ==> *found->0 == self@[name@],
    {
        match self.position(name) {
            Some(i) => Some(self.value(i)),
            None => None,
        }
    }

    /// Stores `value` under `name`. A value that was stored under that name
    /// is replaced and keeps its place; a new name goes to the end.
    pub fn insert(&mut self, name: String, value: V)
        ensures
            final(self)@ == old(self)@.insert(name@, value),
            old(self)@.contains_key(name@) ==> final(self).keys() == old(self).keys(),
            !old(self)@.contains_key(name@) ==> final(self).keys() == old(self).keys().push(name@),
    {
        proof {
            use_type_invariant(&*self);
        }
        let ghost before = *self;
        let found = self.position(name.as_str());
        let mut entries: Vec<Entry<V>> = Vec::new();
        std::mem::swap(&mut entries, &mut self.entries);
        match found {
            Some(i) => {
                entries.set(i, Entry { name, value });
            },
            None => {
                entries.push(Entry { name, value });
            },
        }
        proof {
            let names = names_of(entries@);
            match found {
                Some(i) => {
                    assert(names =~= before.keys());
                },
                None => {
                    assert(names =~= before.keys().push(name@));
                    assert forall|a: int, b: int|
                        0 <= a < names.len() && 0 <= b < names.len() && a != b implies names[a]
                        != names[b] by {
                        if a < before.keys().len() {
                            assert(before.keys().contains(names[a]));
                        }
                        if b < before.keys().len() {
                            assert(before.keys().contains(names[b]));
                        }
                    }
                },
            }
        }
        self.entries = entries;
        proof {
            let after = *self;
            match found {
                Some(i) => {
                    assert(after.keys() =~= before.keys());
                    assert forall|k: Seq<char>| after@.contains_key(k) implies #[trigger] after@[k]
                        == before@.insert(name@, value)[k] by {
                        before.keys().index_of_first_ensures(k);
                        if k == name@ {
                            assert(before.keys().index_of(k) == i);
                        }
                    }
                },
                None => {
                    assert(after.keys() =~= before.keys().push(name@));
                    assert forall|k: Seq<char>| after.keys().contains(k) <==> (k == name@
                        || before.keys().contains(k)) by {
                        if after.keys().contains(k) {
                            let j = choose|j: int|
                                0 <= j < after.keys().len() && after.keys()[j] == k;
                            if j < before.keys().len() {
                                assert(before.keys()[j] == k);
                            }
                        }
                        if before.keys().contains(k) {
                            let j = choose|j: int|
                                0 <= j < before.keys().len() && before.keys()[j] == k;
                            assert(after.keys()[j] == k);
                        }
                        if k == name@ {
                            assert(after.keys()[before.keys().len() as int] == k);
                        }
                    }
                    assert forall|k: Seq<char>| after@.contains_key(k) implies #[trigger] after@[k]
                        == before@.insert(name@, value)[k] by {
                        after.keys().index_of_first_ensures(k);
                        if k != name@ {
                            before.keys().index_of_first_ensures(k);
                            let j = before.keys().index_of(k);
                            assert(after.keys()[j] == k);
                        }
                    }
                },
            }
            assert(after@ =~= before@.insert(name@, value));
        }
    }
}

impl<V: Copy> Clone for NameMap<V> {
    /// A map with the same entries in the same order.
    fn clone(&self) -> (copy: Self)
        ensures
            copy@ == self@,
            copy.keys() == self.keys(),
    {
        proof {
            use_type_invariant(self);
        }
        let n = self.entries.len();
        let mut entries: Vec<Entry<V>> = Vec::new();
        let mut i: usize = 0;
        while i < n
            invariant
                n == self.entries@.len(),
                i <= n,
                entries@.len() == i,
                forall|j: int|
                    0 <= j < i ==> (#[trigger] entries@[j]).name@ == self.entries@[j].name@
                        && entries@[j].value == self.entries@[j].value,
            decreases n - i,
        {
            let entry = &self.entries[i];
            entries.push(Entry { name: entry.name.clone(), value: entry.value });
            i += 1;
        }
        proof {
            assert(names_of(entries@) =~= names_of(self.entries@));
        }
        let copy = NameMap { entries };
        proof {
            assert(copy.keys() == self.keys());
            assert forall|name: Seq<char>| copy@.contains_key(name) implies #[trigger] copy@[name]
                == self@[name] by {
                let at = copy.keys().index_of(name);
                copy.keys().index_of_first_ensures(name);
                assert(copy.entries@[at].value == self.entries@[at].value);
            }
            assert(copy@ =~= self@);
        }
        copy
    }
}

} // verus!
