//! The registry that holds the entities of a layer under their names.

use vstd::prelude::*;
use crate::names::{
    agrees, first_position, lemma_first_position, lemma_map_of_entries, NameTable,
};

verus! {

/// Entities under unique names. Registering under a name that is taken
/// replaces the entity that held it.
pub struct EntityRegistry<E> {
    entities: NameTable<E>,
}

impl<E> EntityRegistry<E> {
    /// The names, in the order in which they were first registered.
    pub closed spec fn names(&self) -> Seq<Seq<char>> {
        self.entities.names()
    }

    /// The entities, in the order of their names.
    pub closed spec fn entities(&self) -> Seq<E> {
        self.entities.values()
    }

    /// The registry as a map from names to entities.
    pub closed spec fn view(&self) -> Map<Seq<char>, E> {
        self.entities@
    }

    /// The invariant: there are as many names as entities, no name occurs
    /// twice, and the map holds each entity under its name.
    pub open spec fn wf(&self) -> bool {
        agrees(self.names(), self.entities(), self@)
    }

    /// The position of `name` among the names, where it is registered.
    pub closed spec fn position_of(&self, name: Seq<char>) -> int {
        first_position(self.entities.names(), name)
    }

    /// The empty registry.
    pub fn new() -> (registry: Self)
        ensures
            registry.names() == Seq::<Seq<char>>::empty(),
            registry.entities() == Seq::<E>::empty(),
            registry@ == Map::<Seq<char>, E>::empty(),
            registry.wf(),
    {
        let registry = EntityRegistry { entities: NameTable::new() };
        assert(registry.names() =~= Seq::<Seq<char>>::empty());
        assert(registry.entities() =~= Seq::<E>::empty());
        assert(registry@ =~= Map::<Seq<char>, E>::empty());
        registry
    }

    /// Puts `e` under `name`. An entity that held the name is replaced, in
    /// its place; a new name comes last.
    pub fn register(&mut self, name: &str, e: E)
        ensures
            final(self)@ == old(self)@.insert(name@, e),
            old(self)@.dom().contains(name@) ==> final(self).names() == old(self).names(),
            !old(self)@.dom().contains(name@) ==> {
                &&& final(self).names() == old(self).names().push(name@)
                &&& final(self).entities() == old(self).entities().push(e)
            },
            old(self).wf() ==> final(self).wf(),
    {
        proof {
            self.entities.lemma_table_as_map();
        }
        self.entities.insert(name, e);
        proof {
            self.entities.lemma_table_as_map();
        }
    }

    /// The entity under `name`, if there is one.
    pub fn get(&self, name: &str) -> (found: Option<&E>)
        ensures
            match found {
                Some(e) => self@.dom().contains(name@) && *e == self@[name@],
                None => !self@.dom().contains(name@),
            },
    {
        self.entities.get(name)
    }

    /// The entity under `name`, to be changed in place, if there is one.
    /// Whatever the caller writes, the names stay as they are.
    pub fn get_mut(&mut self, name: &str) -> (found: Option<&mut E>)
        ensures
            match found {
                Some(e) => {
                    &&& old(self)@.dom().contains(name@)
                    &&& *e == old(self)@[name@]
                    &&& final(self)@ == old(self)@.insert(name@, *final(e))
                    &&& final(self).names() == old(self).names()
                    &&& final(self).entities() == old(self).entities().update(
                        old(self).position_of(name@),
                        *final(e),
                    )
                    &&& old(self).wf() ==> final(self).wf()
                },
                None => !old(self)@.dom().contains(name@) && *final(self) == *old(self),
            },
    {
        proof {
            if self.entities.has(name@) {
                self.entities.lemma_update_as_map(name@);
                self.entities.lemma_table_as_map();
                let names = self.entities.names();
                let values = self.entities.values();
                let p = first_position(names, name@);
                let i = choose|i: int| 0 <= i < names.len() && names[i] == name@;
                lemma_first_position(names, name@, i);
                assert(names.len() == values.len());
                assert forall|value: E|
                    names.no_duplicates() implies agrees(
                    names,
                    #[trigger] values.update(p, value),
                    self@.insert(name@, value),
                ) by {
                    lemma_map_of_entries(names, values.update(p, value));
                }
            }
        }
        self.entities.get_mut(name)
    }

    /// The position of `name` among the names, if it is registered. An
    /// entity keeps its position as long as the registry lives.
    pub fn position(&self, name: &str) -> (found: Option<usize>)
        ensures
            match found {
                Some(i) => self@.dom().contains(name@) && i == self.position_of(name@) && i
                    < self.names().len() && self.names()[i as int] == name@,
                None => !self@.dom().contains(name@),
            },
    {
        let found = self.entities.position(name);
        proof {
            if let Some(i) = found {
                lemma_first_position(self.entities.names(), name@, i as int);
            }
        }
        found
    }

    /// The number of entities.
    pub fn len(&self) -> (n: usize)
        ensures
            n == self.entities().len(),
            n == self.names().len(),
    {
        self.entities.len()
    }

    /// The entities, in the order of their names.
    pub fn values(&self) -> (all: Vec<&E>)
        ensures
            all@.len() == self.entities().len(),
            forall|i: int| 0 <= i < all@.len() ==> *all@[i] == self.entities()[i],
    {
        let mut all: Vec<&E> = Vec::new();
        let n = self.entities.len();
        let mut i: usize = 0;
        while i < n
            invariant
                i <= n,
                n == self.entities.spec_len(),
                all@.len() == i,
                forall|k: int| 0 <= k < i ==> *all@[k] == self.entities.values()[k],
            decreases n - i,
        {
            all.push(self.entities.value_at(i));
            i += 1;
        }
        all
    }
}

} // verus!
