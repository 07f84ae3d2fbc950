//! The keys that are held down, as the events of the window tell it.

use vstd::prelude::*;

verus! {

/// The number of a key, as the window system gives it.
pub type Key = i32;

/// What happened to a key.
#[derive(Clone, Copy, Debug, PartialEq, Eq, Structural)]
pub enum Action {
    Release,
    Press,
    /// The key is held and the system sends it again.
    Repeat,
}

/// An event of the window, as far as the keys go.
#[derive(Clone, Copy, Debug, PartialEq, Eq, Structural)]
pub enum WindowEvent {
    /// Something happened to a key.
    Key(Key, Action),
    /// Any other event.
    Other,
}

/// The keys held after `event`, where `held` were held before it: a press
/// adds its key, a release takes its key away, all else changes nothing.
pub open spec fn held_after(held: Set<Key>, event: WindowEvent) -> Set<Key> {
    match event {
        WindowEvent::Key(key, Action::Press) => held.insert(key),
        WindowEvent::Key(key, Action::Release) => held.remove(key),
        _ => held,
    }
}

/// The keys that are held down.
#[derive(Debug)]
pub struct KeyRegistry {
    active_keys: Vec<Key>,
}

impl KeyRegistry {
    /// The keys that are held, in the order in which they were pressed.
    pub closed spec fn keys(&self) -> Seq<Key> {
        self.active_keys@
    }

    /// The set of the keys that are held.
    pub open spec fn view(&self) -> Set<Key> {
        self.keys().to_set()
    }

    /// The invariant: no key is held twice.
    pub open spec fn wf(&self) -> bool {
        self.keys().no_duplicates()
    }

    /// The registry in which no key is held.
    pub fn new() -> (registry: Self)
        ensures
            registry.keys() == Seq::<Key>::empty(),
            registry@ == Set::<Key>::empty(),
            registry.wf(),
    {
        let registry = KeyRegistry { active_keys: Vec::new() };
        assert(registry@ =~= Set::<Key>::empty());
        registry
    }

    /// Where `key` stands among the held keys, if it is held.
    fn find(&self, key: Key) -> (found: Option<usize>)
        ensures
            match found {
                Some(i) => i < self.keys().len() && self.keys()[i as int] == key,
                None => !self.keys().contains(key),
            },
    {
        let mut i: usize = 0;
        while i < self.active_keys.len()
            invariant
                i <= self.active_keys@.len(),
                forall|k: int| 0 <= k < i ==> self.active_keys@[k] != key,
            decreases self.active_keys@.len() - i,
        {
            if self.active_keys[i] == key {
                return Some(i);
            }
            i += 1;
        }
        None
    }

    /// Takes note of an event. A key that is pressed while it is held
    /// stays held once, and a key that is released while it is not held
    /// changes nothing.
    pub fn event(&mut self, e: WindowEvent)
        requires
            old(self).wf(),
        ensures
            final(self)@ == held_after(old(self)@, e),
            final(self).wf(),
    {
        match e {
            WindowEvent::Key(k, Action::Press) => {
                if self.find(k).is_none() {
                    self.active_keys.push(k);
                    assert(self.keys() == old(self).keys().push(k));
                }
                assert(self@ =~= old(self)@.insert(k)) by {
                    assert forall|key: Key| self@.contains(key) <==> old(self)@.insert(k).contains(
                        key,
                    ) by {
                        if self.keys().contains(key) {
                            let at = choose|at: int|
                                0 <= at < self.keys().len() && self.keys()[at] == key;
                            if at < old(self).keys().len() {
                                assert(old(self).keys()[at] == key);
                            }
                        }
                        if old(self).keys().contains(key) {
                            let at = choose|at: int|
                                0 <= at < old(self).keys().len() && old(self).keys()[at] == key;
                            assert(self.keys()[at] == key);
                        }
                        if key == k {
                            if old(self).keys().contains(k) {
                            } else {
                                assert(self.keys()[self.keys().len() - 1] == k);
                            }
                        }
                    }
                }
            },
            WindowEvent::Key(k, Action::Release) => {
                if let Some(at) = self.find(k) {
                    self.active_keys.remove(at);
                    assert(self.keys() == old(self).keys().remove(at as int));
                    assert(self@ =~= old(self)@.remove(k)) by {
                        assert forall|key: Key| self@.contains(key) <==> old(self)@.remove(
                            k,
                        ).contains(key) by {
                            if self.keys().contains(key) {
                                let i = choose|i: int|
                                    0 <= i < self.keys().len() && self.keys()[i] == key;
                                let j = if i < at { i } else { i + 1 };
                                assert(old(self).keys()[j] == key);
                            }
                            if old(self).keys().contains(key) && key != k {
                                let j = choose|j: int|
                                    0 <= j < old(self).keys().len() && old(self).keys()[j] == key;
                                let i = if j < at { j } else { j - 1 };
                                assert(self.keys()[i] == key);
                            }
                        }
                    }
                    assert(self.wf()) by {
                        assert forall|i: int, j: int|
                            0 <= i < self.keys().len() && 0 <= j < self.keys().len() && i
                                != j implies self.keys()[i] != self.keys()[j] by {
                            let a = if i < at { i } else { i + 1 };
                            let b = if j < at { j } else { j + 1 };
                            assert(old(self).keys()[a] != old(self).keys()[b]);
                        }
                    }
                } else {
                    assert(self@ =~= old(self)@.remove(k));
                }
            },
            _ => (),
        };
    }

    /// The keys that are held, each once, for the caller to go through.
    pub fn for_pressed_keys(&self) -> (held: Vec<Key>)
        ensures
            held@ == self.keys(),
            held@.to_set() == self@,
    {
        self.active_keys.clone()
    }
}

} // verus!
