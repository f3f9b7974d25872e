//! A map from names to values that remembers the order in which the names
//! were first inserted.

use vstd::prelude::*;
use vstd::std_specs::cmp::PartialEqSpecImpl;

use super::results::{collected, lemma_collected_stops};

verus! {

/// An insertion-ordered map keyed by strings.
///
/// No name occurs twice; a name keeps the position of its first insertion.
#[derive(Debug)]
pub struct NameMap<V> {
    entries: Vec<(String, V)>,
}

/// The names held by a sequence of entries, in order.
pub open spec fn entry_names<V>(entries: Seq<(String, V)>) -> Seq<Seq<char>> {
    Seq::new(entries.len(), |i: int| entries[i].0@)
}

/// The values held by a sequence of entries, in order.
pub open spec fn entry_values<V>(entries: Seq<(String, V)>) -> Seq<V> {
    Seq::new(entries.len(), |i: int| entries[i].1)
}

/// The names after `name` has been inserted: as before where it was there,
/// else with `name` at the end.
pub open spec fn names_with(names: Seq<Seq<char>>, name: Seq<char>) -> Seq<Seq<char>> {
    if names.contains(name) {
        names
    } else {
        names.push(name)
    }
}

/// The values after `value` has been inserted under `name`: replaced at the
/// place of `name` where it was there, else with `value` at the end.
pub open spec fn values_with<V>(names: Seq<Seq<char>>, values: Seq<V>, name: Seq<char>, value: V) -> Seq<V> {
    if names.contains(name) {
        values.update(names.index_of(name), value)
    } else {
        values.push(value)
    }
}

/// The map that binds each name to the value at the name's position.
pub open spec fn bindings<V>(names: Seq<Seq<char>>, values: Seq<V>) -> Map<Seq<char>, V> {
    Map::new(
        |name: Seq<char>| names.contains(name),
        |name: Seq<char>| values[names.index_of(name)],
    )
}

impl<V> View for NameMap<V> {
    type V = Map<Seq<char>, V>;

    /// The map as a mathematical map from names to values.
    open spec fn view(&self) -> Map<Seq<char>, V> {
        bindings(self.names(), self.values())
    }
}

impl<V> NameMap<V> {
    #[verifier::type_invariant]
    spec fn distinct_names(self) -> bool {
        entry_names(self.entries@).no_duplicates()
    }

    /// The entries in insertion order.
    pub closed spec fn entries(&self) -> Seq<(String, V)> {
        self.entries@
    }

    /// The names in insertion order.
    pub open spec fn names(&self) -> Seq<Seq<char>> {
        entry_names(self.entries())
    }

    /// The values, each at the position of its name.
    pub open spec fn values(&self) -> Seq<V> {
        entry_values(self.entries())
    }

    /// An empty map.
    pub fn new() -> (map: Self)
        ensures
            map.entries() == Seq::<(String, V)>::empty(),
            map.names() == Seq::<Seq<char>>::empty(),
            map@ == Map::<Seq<char>, V>::empty(),
    {
        let map = NameMap { entries: Vec::new() };
        proof {
            assert(map.names() =~= Seq::<Seq<char>>::empty());
            assert(map@ =~= Map::<Seq<char>, V>::empty());
        }
        map
    }

    /// The number of names; no two of them are equal.
    pub fn len(&self) -> (n: usize)
        ensures
            n == self.names().len(),
            self.names().no_duplicates(),
    {
        proof {
            use_type_invariant(self);
        }
        self.entries.len()
    }

    /// Whether the map holds no name.
    pub fn is_empty(&self) -> (empty: bool)
        ensures
            empty == (self.names().len() == 0),
    {
        self.entries.len() == 0
    }

    /// The position of `name`, if the map holds it.
    pub fn position(&self, name: &str) -> (found: Option<usize>)
        ensures
            self.names().no_duplicates(),
            match found {
                Some(i) => i < self.names().len() && self.names()[i as int] == name@,
                None => !self.names().contains(name@),
            },
    {
        proof {
            use_type_invariant(self);
        }
        let wanted = name.to_owned();
        let mut i: usize = 0;
        while i < self.entries.len()
            invariant
                i <= self.entries@.len(),
                wanted@ == name@,
                self.names().no_duplicates(),
                forall|j: int| 0 <= j < i ==> self.names()[j] != name@,
            decreases self.entries@.len() - i,
        {
            if self.entries[i].0 == wanted {
                return Some(i);
            }
            i += 1;
        }
        None
    }

    /// Whether the map holds `name`.
    pub fn contains_key(&self, name: &str) -> (found: bool)
        ensures
            found == self@.contains_key(name@),
    {
        self.position(name).is_some()
    }

    /// The value stored under `name`.
    pub fn get(&self, name: &str) -> (found: Option<&V>)
        ensures
            match found {
                Some(value) => self@.contains_key(name@) && *value == self@[name@],
                None => !self@.contains_key(name@),
            },
    {
        match self.position(name) {
            Some(i) => {
                proof {
                    lemma_index_is_position(self.names(), i as int);
                }
                Some(&self.entries[i].1)
            },
            None => None,
        }
    }

    /// The name at position `i`.
    pub fn name_at(&self, i: usize) -> (name: &String)
        requires
            i < self.names().len(),
        ensures
            name@ == self.names()[i as int],
    {
        &self.entries[i].0
    }

    /// The value at position `i`.
    pub fn value_at(&self, i: usize) -> (value: &V)
        requires
            i < self.names().len(),
        ensures
            *value == self.values()[i as int],
            self.names().no_duplicates(),
            *value == self@[self.names()[i as int]],
    {
        proof {
            use_type_invariant(self);
            lemma_index_is_position(self.names(), i as int);
        }
        &self.entries[i].1
    }

    /// Stores `value` under `name`. A name that is already present keeps its
    /// position and has its value replaced, and the previous value is
    /// returned; a new name goes to the end.
    pub fn insert(&mut self, name: String, value: V) -> (previous: Option<V>)
        ensures
            final(self)@ == old(self)@.insert(name@, value),
            previous == if old(self)@.contains_key(name@) {
                Some(old(self)@[name@])
            } else {
                None::<V>
            },
            final(self).names() == names_with(old(self).names(), name@),
            final(self).values() == values_with(old(self).names(), old(self).values(), name@, value),
    {
        proof {
            use_type_invariant(&*self);
        }
        let found = self.position(name.as_str());
        let mut taken: NameMap<V> = NameMap::new();
        core::mem::swap(self, &mut taken);
        let mut entries = taken.entries;
        let ghost before = entries@;
        let previous = match found {
            Some(i) => {
                let (_, old_value) = entries.remove(i);
                entries.insert(i, (name, value));
                proof {
                    lemma_index_is_position(entry_names(before), i as int);
                    assert(entry_names(entries@) =~= entry_names(before));
                    assert(entry_values(entries@) =~= entry_values(before).update(i as int, value));
                    lemma_bindings_update(entry_names(before), entry_values(before), i as int, value);
                }
                Some(old_value)
            },
            None => {
                entries.push((name, value));
                proof {
                    assert(entry_names(entries@) =~= entry_names(before).push(name@));
                    assert(entry_values(entries@) =~= entry_values(before).push(value));
                    lemma_push_fresh(entry_names(before), name@);
                    lemma_bindings_push(entry_names(before), entry_values(before), name@, value);
                }
                None
            },
        };
        *self = NameMap { entries };
        previous
    }

    /// Replaces the value at position `i` and returns the previous one.
    pub fn replace_at(&mut self, i: usize, value: V) -> (previous: V)
        requires
            i < old(self).names().len(),
        ensures
            previous == old(self).values()[i as int],
            final(self).names() == old(self).names(),
            final(self).values() == old(self).values().update(i as int, value),
            final(self)@ == old(self)@.insert(old(self).names()[i as int], value),
    {
        proof {
            use_type_invariant(&*self);
        }
        let mut taken: NameMap<V> = NameMap::new();
        core::mem::swap(self, &mut taken);
        let mut entries = taken.entries;
        let ghost before = entries@;
        let (name, previous) = entries.remove(i);
        entries.insert(i, (name, value));
        proof {
            assert(entry_names(entries@) =~= entry_names(before));
            assert(entry_values(entries@) =~= entry_values(before).update(i as int, value));
        }
        proof {
            lemma_bindings_update(entry_names(before), entry_values(before), i as int, value);
        }
        *self = NameMap { entries };
        previous
    }

    /// The entries as a vector, in insertion order.
    pub fn into_entries(self) -> (entries: Vec<(String, V)>)
        ensures
            entries@ == self.entries(),
            self.names().no_duplicates(),
    {
        proof {
            use_type_invariant(&self);
        }
        self.entries
    }
}

impl<V: Clone> Clone for NameMap<V> {
    fn clone(&self) -> (copy: Self)
        ensures
            copy.names() == self.names(),
            copy.values().len() == self.values().len(),
            forall|i: int|
                0 <= i < self.values().len() ==> cloned::<V>(
                    #[trigger] self.values()[i],
                    copy.values()[i],
                ),
    {
        proof {
            use_type_invariant(self);
        }
        let mut entries: Vec<(String, V)> = Vec::new();
        let mut i: usize = 0;
        while i < self.entries.len()
            invariant
                i <= self.entries@.len(),
                entries@.len() == i,
                entry_names(entries@) == entry_names(self.entries@).take(i as int),
                forall|j: int|
                    0 <= j < i ==> cloned::<V>(
                        #[trigger] entry_values(self.entries@)[j],
                        entry_values(entries@)[j],
                    ),
            decreases self.entries@.len() - i,
        {
            let name = self.entries[i].0.clone();
            let value = self.entries[i].1.clone();
            let ghost before = entries@;
            entries.push((name, value));
            proof {
                assert(entry_names(entries@) =~= entry_names(self.entries@).take(i + 1));
                assert forall|j: int| 0 <= j < i + 1 implies cloned::<V>(
                    #[trigger] entry_values(self.entries@)[j],
                    entry_values(entries@)[j],
                ) by {
                    if j < i {
                        assert(entry_values(entries@)[j] == entry_values(before)[j]);
                    }
                }
            }
            i += 1;
        }
        proof {
            assert(entry_names(self.entries@).take(i as int) =~= entry_names(self.entries@));
        }
        NameMap { entries }
    }
}

impl<V: PartialEq> PartialEq for NameMap<V> {
    /// Two maps are equal where they hold the same names and, under each
    /// name, values that are equal, whatever the order of the names.
    fn eq(&self, other: &Self) -> (same: bool) {
        if self.entries.len() != other.entries.len() {
            return false;
        }
        let mut i: usize = 0;
        while i < self.entries.len()
            invariant
                i <= self.entries@.len(),
            decreases self.entries@.len() - i,
        {
            match other.get(self.entries[i].0.as_str()) {
                Some(value) => {
                    if !(self.entries[i].1 == *value) {
                        return false;
                    }
                },
                None => {
                    return false;
                },
            }
            i += 1;
        }
        true
    }
}

impl<V: PartialEq> PartialEqSpecImpl for NameMap<V> {
    /// Nothing is stated of `==` on maps.
    open spec fn obeys_eq_spec() -> bool {
        false
    }

    open spec fn eq_spec(&self, other: &Self) -> bool {
        arbitrary()
    }
}

impl<T> NameMap<Vec<T>> {
    /// Appends `item` to the list at position `i`.
    pub fn push_at(&mut self, i: usize, item: T)
        requires
            i < old(self).names().len(),
        ensures
            final(self).names() == old(self).names(),
            final(self).values().len() == old(self).values().len(),
            final(self).values()[i as int]@ == old(self).values()[i as int]@.push(item),
            forall|j: int|
                0 <= j < old(self).values().len() && j != i ==> #[trigger] final(self).values()[j]
                    == old(self).values()[j],
    {
        proof {
            use_type_invariant(&*self);
        }
        let mut taken: NameMap<Vec<T>> = NameMap::new();
        core::mem::swap(self, &mut taken);
        let mut entries = taken.entries;
        let ghost before = entries@;
        let (name, mut list) = entries.remove(i);
        list.push(item);
        entries.insert(i, (name, list));
        proof {
            assert(entry_names(entries@) =~= entry_names(before));
        }
        *self = NameMap { entries };
    }
}

/// Turns a map of results into the map of their successes, under the same
/// names in the same order; or into the first error, in the order of the
/// names.
pub fn flatten_map<V, E>(map: NameMap<Result<V, E>>) -> (outcome: Result<NameMap<V>, E>)
    ensures
        match collected(map.values()) {
            Ok(values) => outcome is Ok && outcome->Ok_0.names() == map.names()
                && outcome->Ok_0.values() == values,
            Err(error) => outcome == Err::<NameMap<V>, E>(error),
        },
{
    let ghost names = map.names();
    let ghost values = map.values();
    let entries = map.into_entries();
    let ghost items = entries@;
    let mut flat: Vec<(String, V)> = Vec::new();
    proof {
        assert(values.take(0) =~= Seq::<Result<V, E>>::empty());
        assert(entry_values(flat@) =~= Seq::<V>::empty());
        assert(entry_names(flat@) =~= names.take(0));
    }
    for entry in it: entries.into_iter()
        invariant
            it.seq() == items,
            items == map.entries(),
            names == map.names(),
            values == map.values(),
            names.no_duplicates(),
            entry_names(flat@) == names.take(it.index() as int),
            collected(values.take(it.index() as int)) == Ok::<Seq<V>, E>(entry_values(flat@)),
    {
        let ghost at = it.index() as int;
        let (name, value) = entry;
        proof {
            assert(items[at] == (name, value));
            assert(names[at] == name@);
            assert(values[at] == value);
            assert(values.take(at + 1).drop_last() =~= values.take(at));
            assert(values.take(at + 1).last() == value);
        }
        match value {
            Ok(item) => {
                let ghost before = flat@;
                flat.push((name, item));
                proof {
                    assert(entry_names(flat@) =~= entry_names(before).push(name@));
                    assert(names.take(at + 1) =~= names.take(at).push(names[at]));
                    assert(entry_values(flat@) =~= entry_values(before).push(item));
                }
            },
            Err(error) => {
                proof {
                    lemma_collected_stops(values, at + 1);
                }
                return Err(error);
            },
        }
    }
    proof {
        assert(values.take(values.len() as int) =~= values);
        assert(names.take(names.len() as int) =~= names);
    }
    Ok(NameMap { entries: flat })
}

/// In a sequence without duplicates, the position found for an element is
/// the position where it stands.
pub proof fn lemma_index_is_position(names: Seq<Seq<char>>, i: int)
    requires
        names.no_duplicates(),
        0 <= i < names.len(),
    ensures
        names.contains(names[i]),
        names.index_of(names[i]) == i,
{
    assert(names.contains(names[i]));
}

/// Appending a name that is not yet present keeps the names distinct.
pub proof fn lemma_push_fresh(names: Seq<Seq<char>>, name: Seq<char>)
    requires
        names.no_duplicates(),
        !names.contains(name),
    ensures
        names.push(name).no_duplicates(),
{
    let extended = names.push(name);
    assert forall|i: int, j: int| 0 <= i < extended.len() && 0 <= j < extended.len() && i != j
        implies extended[i] != extended[j] by {
        if i < names.len() {
            assert(names.contains(names[i]));
        }
        if j < names.len() {
            assert(names.contains(names[j]));
        }
    }
}

/// Replacing the value at one position rebinds that position's name and
/// nothing else.
pub proof fn lemma_bindings_update<V>(names: Seq<Seq<char>>, values: Seq<V>, i: int, value: V)
    requires
        names.no_duplicates(),
        names.len() == values.len(),
        0 <= i < names.len(),
    ensures
        bindings(names, values.update(i, value)) == bindings(names, values).insert(names[i], value),
{
    lemma_index_is_position(names, i);
    assert(bindings(names, values.update(i, value)) =~= bindings(names, values).insert(
        names[i],
        value,
    ));
}

/// Appending a fresh name with its value adds that one binding.
pub proof fn lemma_bindings_push<V>(names: Seq<Seq<char>>, values: Seq<V>, name: Seq<char>, value: V)
    requires
        names.no_duplicates(),
        names.len() == values.len(),
        !names.contains(name),
    ensures
        bindings(names.push(name), values.push(value)) == bindings(names, values).insert(name, value),
{
    lemma_push_fresh(names, name);
    let new_names = names.push(name);
    let new_values = values.push(value);
    assert(new_names[names.len() as int] == name);
    lemma_index_is_position(new_names, names.len() as int);
    assert forall|k: Seq<char>| new_names.contains(k) <==> names.contains(k) || k == name by {
        if new_names.contains(k) {
            let i = choose|i: int| 0 <= i < new_names.len() && new_names[i] == k;
            if i < names.len() {
                assert(names[i] == k);
            }
        }
        if names.contains(k) {
            let i = choose|i: int| 0 <= i < names.len() && names[i] == k;
            assert(new_names[i] == k);
        }
    }
    assert forall|k: Seq<char>| names.contains(k) implies #[trigger] bindings(new_names, new_values)[k]
        == bindings(names, values)[k] by {
        let i = names.index_of(k);
        assert(new_names[i] == k);
        lemma_index_is_position(new_names, i);
    }
    assert(bindings(new_names, new_values) =~= bindings(names, values).insert(name, value));
}

} // verus!
