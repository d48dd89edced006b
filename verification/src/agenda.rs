//! The agenda store: the bounded lists of tasks, keyed by the slot in which
//! they are due.

use std::collections::HashMap;
use vstd::prelude::*;

use crate::model::{agenda_bounded, appended, has_room, slot_of, task_at, vacated, AgendaMap};
use crate::primitives::BlockNumber;
use crate::scheduled::{entry_view, slot_view, ScheduledV3};

verus! {

broadcast use vstd::std_specs::hash::group_hash_axioms;

/// Items to be executed, indexed by the slot that they should be executed on.
pub struct Agenda {
    slots: HashMap<BlockNumber, Vec<Option<ScheduledV3>>>,
    max_per_slot: u32,
    max_slots: Option<u32>,
}

impl View for Agenda {
    type V = AgendaMap;

    closed spec fn view(&self) -> AgendaMap {
        Map::new(
            |when: BlockNumber| self.slots@.contains_key(when),
            |when: BlockNumber| slot_view(self.slots@[when]@),
        )
    }
}

impl Agenda {
    /// The maximum number of positions in one slot's list.
    pub closed spec fn max_per_slot(&self) -> u32 {
        self.max_per_slot
    }

    /// The maximum number of lists, if bounded.
    pub closed spec fn max_slots(&self) -> Option<u32> {
        self.max_slots
    }

    /// The store keeps within its bounds.
    pub open spec fn wf(&self) -> bool {
        agenda_bounded(self@, self.max_per_slot(), self.max_slots())
    }

    proof fn lemma_dom(&self)
        ensures
            self@.dom() =~= self.slots@.dom(),
            self@.dom().finite(),
    {
        assert(self@.dom() =~= self.slots@.dom());
    }

    /// An agenda without tasks.
    pub fn new(max_per_slot: u32, max_slots: Option<u32>) -> (agenda: Agenda)
        ensures
            agenda.wf(),
            agenda@ == AgendaMap::empty(),
            agenda.max_per_slot() == max_per_slot,
            agenda.max_slots() == max_slots,
    {
        let agenda = Agenda { slots: HashMap::new(), max_per_slot, max_slots };
        proof {
            agenda.lemma_dom();
            assert(agenda@ =~= AgendaMap::empty());
        }
        agenda
    }

    /// The number of slots that hold a list.
    pub fn count(&self) -> (count: usize)
        ensures
            count == self@.dom().len(),
    {
        proof {
            self.lemma_dom();
        }
        self.slots.len()
    }

    /// The length of a slot's list, gaps included.
    pub fn decode_len(&self, when: BlockNumber) -> (len: usize)
        ensures
            len == slot_of(self@, when).len(),
    {
        match self.slots.get(&when) {
            Some(slot) => slot.len(),
            None => 0,
        }
    }

    /// Whether one more task can be added to a slot.
    pub fn can_append(&self, when: BlockNumber) -> (room: bool)
        requires
            self.wf(),
        ensures
            room == has_room(self@, when, self.max_per_slot(), self.max_slots()),
    {
        proof {
            self.lemma_dom();
        }
        match self.slots.get(&when) {
            Some(slot) => slot.len() < self.max_per_slot as usize,
            None => {
                if self.max_per_slot == 0 {
                    false
                } else {
                    match self.max_slots {
                        Some(most) => self.slots.len() < most as usize,
                        None => true,
                    }
                }
            },
        }
    }

    /// Adds a task at the end of a slot's list and returns its index. Where
    /// the list is full, or a new list would be one too many, the agenda
    /// stays as it is and the task is handed back.
    pub fn try_append(&mut self, when: BlockNumber, task: ScheduledV3) -> (placed: Result<
        u32,
        ScheduledV3,
    >)
        requires
            old(self).wf(),
        ensures
            final(self).wf(),
            final(self).max_per_slot() == old(self).max_per_slot(),
            final(self).max_slots() == old(self).max_slots(),
            placed is Ok <==> has_room(
                old(self)@,
                when,
                old(self).max_per_slot(),
                old(self).max_slots(),
            ),
            placed is Ok ==> placed->Ok_0 == slot_of(old(self)@, when).len() && final(self)@
                == appended(old(self)@, when, task@),
            placed is Err ==> placed->Err_0 == task && final(self)@ == old(self)@,
    {
        if !self.can_append(when) {
            return Err(task);
        }
        proof {
            self.lemma_dom();
        }
        let ghost before = self.slots@;
        let ghost task_view = task@;
        let mut slot = match self.slots.remove(&when) {
            Some(slot) => slot,
            None => Vec::new(),
        };
        let ghost old_slot = slot@;
        let index: u32 = slot.len() as u32;
        slot.push(Some(task));
        let ghost new_slot = slot@;
        let ghost stored = slot;
        self.slots.insert(when, slot);
        proof {
            self.lemma_dom();
            assert(self.slots@ =~= before.insert(when, stored));
            assert(slot_view(new_slot) =~= slot_view(old_slot).push(Some(task_view)));
            assert(slot_view(old_slot) =~= slot_of(old(self)@, when));
            assert(self@ =~= appended(old(self)@, when, task_view));
            assert(self@.dom() =~= old(self)@.dom().insert(when));
        }
        Ok(index)
    }

    /// The task at an address, if one lives there.
    pub fn get(&self, when: BlockNumber, index: u32) -> (found: Option<&ScheduledV3>)
        ensures
            task_at(self@, when, index) == match found {
                Some(t) => Some(t@),
                None => None,
            },
    {
        match self.slots.get(&when) {
            Some(slot) => {
                if (index as usize) < slot.len() {
                    slot[index as usize].as_ref()
                } else {
                    None
                }
            },
            None => None,
        }
    }

    /// Takes the task at an address out of the agenda and leaves a gap, so
    /// that the other tasks of the slot keep their indices.
    pub fn take_at(&mut self, when: BlockNumber, index: u32) -> (task: Option<ScheduledV3>)
        requires
            old(self).wf(),
        ensures
            final(self).wf(),
            final(self).max_per_slot() == old(self).max_per_slot(),
            final(self).max_slots() == old(self).max_slots(),
            entry_view(task) == task_at(old(self)@, when, index),
            final(self)@ == vacated(old(self)@, when, index),
    {
        if self.get(when, index).is_none() {
            return None;
        }
        proof {
            self.lemma_dom();
        }
        let ghost before = self.slots@;
        let mut slot = match self.slots.remove(&when) {
            Some(slot) => slot,
            None => Vec::new(),
        };
        let ghost old_slot = slot@;
        let position = &mut slot[index as usize];
        let task = position.take();
        let ghost new_slot = slot@;
        let ghost stored = slot;
        self.slots.insert(when, slot);
        proof {
            self.lemma_dom();
            assert(self.slots@ =~= before.insert(when, stored));
            assert(slot_view(new_slot) =~= slot_view(old_slot).update(index as int, None));
            assert(self@ =~= vacated(old(self)@, when, index));
            assert(self@.dom() =~= old(self)@.dom());
        }
        task
    }

    /// Takes the whole list of a slot out of the agenda.
    pub fn take(&mut self, when: BlockNumber) -> (slot: Vec<Option<ScheduledV3>>)
        requires
            old(self).wf(),
        ensures
            final(self).wf(),
            final(self).max_per_slot() == old(self).max_per_slot(),
            final(self).max_slots() == old(self).max_slots(),
            slot_view(slot@) == slot_of(old(self)@, when),
            final(self)@ == old(self)@.remove(when),
    {
        proof {
            self.lemma_dom();
        }
        let ghost before = self.slots@;
        let slot = match self.slots.remove(&when) {
            Some(slot) => slot,
            None => Vec::new(),
        };
        proof {
            self.lemma_dom();
            assert(self@ =~= old(self)@.remove(when));
            assert(slot_view(slot@) =~= slot_of(old(self)@, when));
        }
        slot
    }
}

} // verus!
