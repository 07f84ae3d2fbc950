//! A table from names to values, kept in the order in which the names
//! were first written.

use vstd::prelude::*;

verus! {

/// Whether `i` is the first position of `name` in `names`.
pub open spec fn is_first_at(names: Seq<Seq<char>>, name: Seq<char>, i: int) -> bool {
    &&& 0 <= i < names.len()
    &&& names[i] == name
    &&& forall|j: int| 0 <= j < i ==> names[j] != name
}

/// Whether `name` occurs in `names`.
pub open spec fn occurs(names: Seq<Seq<char>>, name: Seq<char>) -> bool {
    exists|i: int| 0 <= i < names.len() && names[i] == name
}

/// The first position of `name` in `names`, where it occurs.
pub open spec fn first_position(names: Seq<Seq<char>>, name: Seq<char>) -> int {
    choose|i: int| is_first_at(names, name, i)
}

/// A name that occurs has a first position, and only one.
pub proof fn lemma_first_position(names: Seq<Seq<char>>, name: Seq<char>, i: int)
    requires
        0 <= i < names.len(),
        names[i] == name,
    ensures
        is_first_at(names, name, first_position(names, name)),
        first_position(names, name) <= i,
        is_first_at(names, name, i) ==> first_position(names, name) == i,
    decreases i,
{
    if exists|j: int| 0 <= j < i && names[j] == name {
        let j = choose|j: int| 0 <= j < i && names[j] == name;
        lemma_first_position(names, name, j);
    } else {
        assert(is_first_at(names, name, i));
    }
    let p = first_position(names, name);
    if p > i {
        assert(names[i] != name);
    }
    if is_first_at(names, name, i) && p < i {
        assert(names[p] != name);
    }
}

/// The value that a table of these names and values holds under `name`.
pub open spec fn value_under<V>(names: Seq<Seq<char>>, values: Seq<V>, name: Seq<char>) -> V {
    values[first_position(names, name)]
}

/// The map that a table of these names and values stands for.
pub open spec fn table_map<V>(names: Seq<Seq<char>>, values: Seq<V>) -> Map<Seq<char>, V> {
    Map::new(
        |name: Seq<char>| occurs(names, name),
        |name: Seq<char>| value_under(names, values, name),
    )
}

/// Whether `map` holds each of `values` under the name at its position,
/// and nothing else, with no name occurring twice.
pub open spec fn agrees<V>(names: Seq<Seq<char>>, values: Seq<V>, map: Map<Seq<char>, V>) -> bool {
    &&& names.len() == values.len()
    &&& names.no_duplicates()
    &&& map.dom() =~= Set::new(|name: Seq<char>| names.contains(name))
    &&& forall|i: int| 0 <= i < names.len() ==> map[#[trigger] names[i]] == values[i]
}

/// The map of a table holds the names of the table, and under each name the
/// value at its position where no name occurs twice.
pub proof fn lemma_map_of_entries<V>(names: Seq<Seq<char>>, values: Seq<V>)
    requires
        names.len() == values.len(),
    ensures
        table_map(names, values).dom() =~= Set::new(|name: Seq<char>| names.contains(name)),
        names.no_duplicates() ==> agrees(names, values, table_map(names, values)),
{
    let map = table_map(names, values);
    assert forall|name: Seq<char>| map.dom().contains(name) <==> names.contains(name) by {}
    if names.no_duplicates() {
        assert forall|i: int| 0 <= i < names.len() implies map[#[trigger] names[i]]
            == values[i] by {
            lemma_first_position(names, names[i], i);
            let p = first_position(names, names[i]);
            assert(names[p] == names[i]);
        }
    }
}

/// Writing over the value of a name changes the value under that name and
/// no other.
pub proof fn lemma_view_after_update<V>(
    names: Seq<Seq<char>>,
    values: Seq<V>,
    name: Seq<char>,
    value: V,
)
    requires
        names.len() == values.len(),
        occurs(names, name),
    ensures
        value_under(names, values.update(first_position(names, name), value), name) == value,
        forall|other: Seq<char>|
            other != name && occurs(names, other) ==> value_under(
                names,
                values.update(first_position(names, name), value),
                other,
            ) == value_under(names, values, other),
{
    let i = choose|i: int| 0 <= i < names.len() && names[i] == name;
    lemma_first_position(names, name, i);
    assert forall|other: Seq<char>| other != name && occurs(names, other) implies value_under(
        names,
        values.update(first_position(names, name), value),
        other,
    ) == value_under(names, values, other) by {
        let j = choose|j: int| 0 <= j < names.len() && names[j] == other;
        lemma_first_position(names, other, j);
    }
}

/// A new last entry adds its name and changes the value under no other.
pub proof fn lemma_view_after_push<V>(
    names: Seq<Seq<char>>,
    values: Seq<V>,
    name: Seq<char>,
    value: V,
)
    requires
        names.len() == values.len(),
        !occurs(names, name),
    ensures
        occurs(names.push(name), name),
        value_under(names.push(name), values.push(value), name) == value,
        forall|other: Seq<char>|
            other != name ==> occurs(names.push(name), other) == occurs(names, other),
        forall|other: Seq<char>|
            other != name && occurs(names, other) ==> value_under(
                names.push(name),
                values.push(value),
                other,
            ) == value_under(names, values, other),
{
    let longer = names.push(name);
    let last = names.len() as int;
    assert(longer[last] == name);
    assert(is_first_at(longer, name, last)) by {
        assert forall|j: int| 0 <= j < last implies longer[j] != name by {
            assert(names[j] == longer[j]);
        }
    }
    lemma_first_position(longer, name, last);
    assert forall|other: Seq<char>| other != name implies occurs(longer, other) == occurs(
        names,
        other,
    ) by {
        if occurs(names, other) {
            let j = choose|j: int| 0 <= j < names.len() && names[j] == other;
            assert(longer[j] == other);
        }
        if occurs(longer, other) {
            let j = choose|j: int| 0 <= j < longer.len() && longer[j] == other;
            assert(names[j] == other);
        }
    }
    assert forall|other: Seq<char>| other != name && occurs(names, other) implies value_under(
        longer,
        values.push(value),
        other,
    ) == value_under(names, values, other) by {
        let j = choose|j: int| 0 <= j < names.len() && names[j] == other;
        lemma_first_position(names, other, j);
        let p = first_position(names, other);
        assert(is_first_at(longer, other, p)) by {
            assert(longer[p] == other);
            assert forall|k: int| 0 <= k < p implies longer[k] != other by {
                assert(names[k] == longer[k]);
            }
        }
        lemma_first_position(longer, other, p);
    }
}

/// The stored entries, each name as its characters.
pub open spec fn entries_of<V>(stored: Seq<(String, V)>) -> Seq<(Seq<char>, V)> {
    Seq::new(stored.len(), |i: int| (stored[i].0@, stored[i].1))
}

/// A table from names to values. A name occurs at most once; the entries
/// stay in the order in which their names first came.
pub struct NameTable<V> {
    entries: Vec<(String, V)>,
}

impl<V> NameTable<V> {
    /// The entries in their order, each name as its characters.
    pub closed spec fn entries(&self) -> Seq<(Seq<char>, V)> {
        entries_of(self.entries@)
    }

    /// The names in the order of the entries.
    pub open spec fn names(&self) -> Seq<Seq<char>> {
        Seq::new(self.entries().len(), |i: int| self.entries()[i].0)
    }

    /// The values in the order of the entries.
    pub open spec fn values(&self) -> Seq<V> {
        Seq::new(self.entries().len(), |i: int| self.entries()[i].1)
    }

    /// The invariant: no name occurs twice.
    pub open spec fn wf(&self) -> bool {
        self.names().no_duplicates()
    }

    /// Whether the table has an entry for `name`.
    pub open spec fn has(&self, name: Seq<char>) -> bool {
        occurs(self.names(), name)
    }

    /// The value under `name`, where the table has one.
    pub open spec fn value_of(&self, name: Seq<char>) -> V {
        value_under(self.names(), self.values(), name)
    }

    /// The table as a map.
    pub open spec fn view(&self) -> Map<Seq<char>, V> {
        table_map(self.names(), self.values())
    }

    /// The number of entries.
    pub open spec fn spec_len(&self) -> nat {
        self.entries().len()
    }

    /// The table's map agrees with its entries.
    pub proof fn lemma_table_as_map(&self)
        ensures
            self.names().len() == self.values().len(),
            self@.dom() =~= Set::new(|name: Seq<char>| self.names().contains(name)),
            self.wf() ==> agrees(self.names(), self.values(), self@),
    {
        lemma_map_of_entries(self.names(), self.values());
    }

    /// Whatever value is written over that of `name`, the map changes under
    /// `name` alone.
    pub proof fn lemma_update_as_map(&self, name: Seq<char>)
        requires
            self.has(name),
        ensures
            forall|value: V|
                table_map(
                    self.names(),
                    #[trigger] self.values().update(first_position(self.names(), name), value),
                ) == self@.insert(name, value),
    {
        assert forall|value: V|
            table_map(
                self.names(),
                #[trigger] self.values().update(first_position(self.names(), name), value),
            ) == self@.insert(name, value) by {
            lemma_view_after_update(self.names(), self.values(), name, value);
            assert(table_map(
                self.names(),
                self.values().update(first_position(self.names(), name), value),
            ) =~= self@.insert(name, value));
        }
    }

    /// The empty table.
    pub fn new() -> (table: Self)
        ensures
            table.entries() == Seq::<(Seq<char>, V)>::empty(),
            table.wf(),
    {
        let table = NameTable { entries: Vec::new() };
        assert(table.entries() =~= Seq::<(Seq<char>, V)>::empty());
        table
    }

    /// The number of entries.
    pub fn len(&self) -> (n: usize)
        ensures
            n == self.spec_len(),
    {
        self.entries.len()
    }

    /// The first position of `name`, if the table has it.
    pub fn position(&self, name: &str) -> (found: Option<usize>)
        ensures
            match found {
                Some(i) => is_first_at(self.names(), name@, i as int),
                None => !self.has(name@),
            },
    {
        let key = String::from_str(name);
        let mut i: usize = 0;
        while i < self.entries.len()
            invariant
                i <= self.entries@.len(),
                key@ == name@,
                self.names().len() == self.entries@.len(),
                forall|j: int| 0 <= j < i ==> self.names()[j] != name@,
            decreases self.entries@.len() - i,
        {
            if self.entries[i].0 == key {
                return Some(i);
            }
            i += 1;
        }
        None
    }

    /// The name of the entry at position `i`.
    pub fn name_at(&self, i: usize) -> (name: &String)
        requires
            i < self.spec_len(),
        ensures
            name@ == self.names()[i as int],
    {
        &self.entries[i].0
    }

    /// The value of the entry at position `i`.
    pub fn value_at(&self, i: usize) -> (value: &V)
        requires
            i < self.spec_len(),
        ensures
            *value == self.values()[i as int],
    {
        &self.entries[i].1
    }

    /// The value under `name`, if the table has one.
    pub fn get(&self, name: &str) -> (found: Option<&V>)
        ensures
            match found {
                Some(value) => self.has(name@) && *value == self.value_of(name@),
                None => !self.has(name@),
            },
    {
        match self.position(name) {
            Some(i) => {
                proof {
                    lemma_first_position(self.names(), name@, i as int);
                }
                Some(&self.entries[i].1)
            },
            None => None,
        }
    }

    /// Writes `value` under `name`: over the value that the name had, or
    /// as a new last entry.
    pub fn insert(&mut self, name: &str, value: V)
        ensures
            old(self).has(name@) ==> {
                &&& final(self).names() == old(self).names()
                &&& final(self).values() == old(self).values().update(
                    first_position(old(self).names(), name@),
                    value,
                )
            },
            !old(self).has(name@) ==> {
                &&& final(self).names() == old(self).names().push(name@)
                &&& final(self).values() == old(self).values().push(value)
            },
            old(self).wf() ==> final(self).wf(),
            final(self)@ == old(self)@.insert(name@, value),
    {
        match self.position(name) {
            Some(i) => {
                proof {
                    lemma_first_position(self.names(), name@, i as int);
                }
                let key = String::from_str(name);
                self.entries[i] = (key, value);
                assert(self.names() =~= old(self).names());
                assert(self.values() =~= old(self).values().update(i as int, value));
                proof {
                    lemma_view_after_update(old(self).names(), old(self).values(), name@, value);
                    assert(self@ =~= old(self)@.insert(name@, value));
                }
            },
            None => {
                let key = String::from_str(name);
                self.entries.push((key, value));
                assert(self.names() =~= old(self).names().push(name@));
                assert(self.values() =~= old(self).values().push(value));
                proof {
                    lemma_view_after_push(old(self).names(), old(self).values(), name@, value);
                    assert(self@ =~= old(self)@.insert(name@, value));
                }
            },
        }
    }

    /// The value under `name`, to be changed in place, if the table has one.
    pub fn get_mut(&mut self, name: &str) -> (found: Option<&mut V>)
        ensures
            match found {
                Some(value) => {
                    &&& old(self).has(name@)
                    &&& *value == old(self).value_of(name@)
                    &&& final(self).names() == old(self).names()
                    &&& final(self).values() == old(self).values().update(
                        first_position(old(self).names(), name@),
                        *final(value),
                    )
                },
                None => !old(self).has(name@) && *final(self) == *old(self),
            },
    {
        match self.position(name) {
            Some(i) => {
                proof {
                    lemma_first_position(self.names(), name@, i as int);
                    let stored = self.entries@;
                    assert forall|value: V|
                        (#[trigger] entries_of(stored.update(i as int, (stored[i as int].0, value))))
                            =~= entries_of(stored).update(
                            i as int,
                            (stored[i as int].0@, value),
                        ) by {}
                }
                Some(&mut self.entries[i].1)
            },
            None => None,
        }
    }
}

} // verus!
