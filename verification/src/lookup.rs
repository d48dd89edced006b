//! The name index: from the name of a task to its address.

use vstd::prelude::*;

use crate::primitives::{bytes_eq, TaskAddress};

verus! {

/// Lookup from identity to the slot and index of the task.
pub struct Lookup {
    entries: Vec<(Vec<u8>, TaskAddress)>,
    model: Ghost<Map<Seq<u8>, TaskAddress>>,
}

impl View for Lookup {
    type V = Map<Seq<u8>, TaskAddress>;

    closed spec fn view(&self) -> Map<Seq<u8>, TaskAddress> {
        self.model@
    }
}

impl Lookup {
    /// The stored entries spell out the map, each name once.
    pub closed spec fn wf(&self) -> bool {
        &&& self.model@.dom().finite()
        &&& self.model@.dom().len() == self.entries@.len()
        &&& forall|i: int|
            0 <= i < self.entries@.len() ==> self.model@.contains_key(
                (#[trigger] self.entries@[i]).0@,
            ) && self.model@[self.entries@[i].0@] == self.entries@[i].1
        &&& forall|i: int, j: int|
            0 <= i < j < self.entries@.len() ==> (#[trigger] self.entries@[i]).0@ != (
            #[trigger] self.entries@[j]).0@
        &&& forall|name: Seq<u8>| #[trigger]
            self.model@.contains_key(name) ==> exists|i: int|
                0 <= i < self.entries@.len() && (#[trigger] self.entries@[i]).0@ == name
    }

    /// An index without names.
    pub fn new() -> (lookup: Lookup)
        ensures
            lookup.wf(),
            lookup@ == Map::<Seq<u8>, TaskAddress>::empty(),
    {
        Lookup { entries: Vec::new(), model: Ghost(Map::empty()) }
    }

    /// The number of names in the index.
    pub fn len(&self) -> (count: usize)
        requires
            self.wf(),
        ensures
            count == self@.dom().len(),
    {
        self.entries.len()
    }

    /// Position of a name among the entries.
    fn position(&self, id: &Vec<u8>) -> (found: Option<usize>)
        requires
            self.wf(),
        ensures
            found is Some <==> self@.contains_key(id@),
            found is Some ==> found->0 < self.entries@.len() && self.entries@[found->0 as int].0@
                == id@,
    {
        let mut i: usize = 0;
        while i < self.entries.len()
            invariant
                self.wf(),
                i <= self.entries@.len(),
                forall|j: int| 0 <= j < i ==> (#[trigger] self.entries@[j]).0@ != id@,
            decreases self.entries@.len() - i,
        {
            if bytes_eq(&self.entries[i].0, id) {
                return Some(i);
            }
            i += 1;
        }
        None
    }

    /// The address stored under a name.
    pub fn get(&self, id: &Vec<u8>) -> (address: Option<TaskAddress>)
        requires
            self.wf(),
        ensures
            address == (if self@.contains_key(id@) {
                Some(self@[id@])
            } else {
                None
            }),
    {
        match self.position(id) {
            Some(i) => Some(self.entries[i].1),
            None => None,
        }
    }

    /// Whether a name is in use.
    pub fn contains_key(&self, id: &Vec<u8>) -> (used: bool)
        requires
            self.wf(),
        ensures
            used == self@.contains_key(id@),
    {
        self.position(id).is_some()
    }

    /// Stores an address under a name, replacing what the name stood for.
    pub fn insert(&mut self, id: Vec<u8>, address: TaskAddress)
        requires
            old(self).wf(),
        ensures
            final(self).wf(),
            final(self)@ == old(self)@.insert(id@, address),
    {
        match self.position(&id) {
            Some(i) => {
                let ghost before = self.entries@;
                self.entries.remove(i);
                let ghost middle = self.entries@;
                self.entries.insert(i, (id, address));
                proof {
                    self.model@ = self.model@.insert(id@, address);
                    let after = self.entries@;
                    assert(after =~= before.update(i as int, (id, address)));
                    assert(self.model@.dom() =~= old(self).model@.dom());
                    assert forall|name: Seq<u8>| #[trigger]
                        self.model@.contains_key(name) implies exists|j: int|
                        0 <= j < after.len() && (#[trigger] after[j]).0@ == name by {
                        if name == id@ {
                            assert(after[i as int].0@ == name);
                        } else {
                            let j = choose|j: int|
                                0 <= j < before.len() && (#[trigger] before[j]).0@ == name;
                            assert(after[j].0@ == name);
                        }
                    }
                }
            },
            None => {
                let ghost before = self.entries@;
                self.entries.push((id, address));
                proof {
                    self.model@ = self.model@.insert(id@, address);
                    let after = self.entries@;
                    assert forall|name: Seq<u8>| #[trigger]
                        self.model@.contains_key(name) implies exists|j: int|
                        0 <= j < after.len() && (#[trigger] after[j]).0@ == name by {
                        if name == id@ {
                            assert(after[before.len() as int].0@ == name);
                        } else {
                            let j = choose|j: int|
                                0 <= j < before.len() && (#[trigger] before[j]).0@ == name;
                            assert(after[j].0@ == name);
                        }
                    }
                }
            },
        }
    }

    /// Frees a name.
    pub fn remove(&mut self, id: &Vec<u8>)
        requires
            old(self).wf(),
        ensures
            final(self).wf(),
            final(self)@ == old(self)@.remove(id@),
    {
        match self.position(id) {
            Some(i) => {
                let ghost before = self.entries@;
                self.entries.remove(i);
                proof {
                    self.model@ = self.model@.remove(id@);
                    let after = self.entries@;
                    assert forall|j: int| 0 <= j < after.len() implies self.model@.contains_key(
                        (#[trigger] after[j]).0@,
                    ) && self.model@[after[j].0@] == after[j].1 by {
                        if j < i {
                            assert(after[j] == before[j]);
                        } else {
                            assert(after[j] == before[j + 1]);
                        }
                    }
                    assert forall|a: int, b: int| 0 <= a < b < after.len() implies (
                    #[trigger] after[a]).0@ != (#[trigger] after[b]).0@ by {
                        let a0 = if a < i { a } else { a + 1 };
                        let b0 = if b < i { b } else { b + 1 };
                        assert(after[a] == before[a0]);
                        assert(after[b] == before[b0]);
                    }
                    assert forall|name: Seq<u8>| #[trigger]
                        self.model@.contains_key(name) implies exists|j: int|
                        0 <= j < after.len() && (#[trigger] after[j]).0@ == name by {
                        let j = choose|j: int|
                            0 <= j < before.len() && (#[trigger] before[j]).0@ == name;
                        if j < i {
                            assert(after[j].0@ == name);
                        } else {
                            assert(after[j - 1] == before[j]);
                        }
                    }
                }
            },
            None => {
                proof {
                    assert(self.model@.remove(id@) =~= self.model@);
                }
            },
        }
    }
}

} // verus!
