//! The scheduler's state and the elementary changes to it.

use vstd::prelude::*;

use crate::agenda::Agenda;
use crate::invariants::{
    lemma_drained_bounded, lemma_placed_bounded, lemma_removed_bounded, lemma_task_at_drained,
    lemma_without_name_bounded,
};
use crate::lookup::Lookup;
use crate::model::{
    names_have_room, slot_of, state_bounded, state_wf, task_fits, without_name, State,
};
use crate::primitives::{bytes_view, clone_id, events_view, BlockNumber, Event, TaskAddress};
use crate::scheduled::{entry_view, slot_view, Parameters, ScheduledV3};

verus! {

/// The scheduler: the agenda, the name index, the current slot and the log
/// of notifications, under fixed parameters.
pub struct Pallet {
    params: Parameters,
    block_number: BlockNumber,
    agenda: Agenda,
    lookup: Lookup,
    events: Vec<Event>,
}

impl View for Pallet {
    type V = State;

    closed spec fn view(&self) -> State {
        State {
            block_number: self.block_number,
            agenda: self.agenda@,
            lookup: self.lookup@,
            events: events_view(self.events@),
        }
    }
}

impl Pallet {
    /// The parameters that the scheduler was made with.
    pub closed spec fn params(&self) -> Parameters {
        self.params
    }

    /// The stores are sound and were made with the scheduler's parameters.
    pub closed spec fn inv(&self) -> bool {
        &&& self.agenda.wf()
        &&& self.lookup.wf()
        &&& self.agenda.max_per_slot() == self.params.max_scheduled_per_block
        &&& self.agenda.max_slots() == self.params.max_agendas
    }

    /// The scheduler keeps within its bounds.
    pub open spec fn bounded(&self) -> bool {
        &&& self.inv()
        &&& state_bounded(self.params(), self@)
    }

    /// The scheduler keeps within its bounds, and its name index and its
    /// agenda agree.
    pub open spec fn wf(&self) -> bool {
        &&& self.inv()
        &&& state_wf(self.params(), self@)
    }

    /// A scheduler without tasks, at slot 0.
    pub fn new(params: Parameters) -> (pallet: Pallet)
        ensures
            pallet.wf(),
            pallet.params() == params,
            pallet@ == State::initial(),
    {
        let pallet = Pallet {
            params,
            block_number: 0,
            agenda: Agenda::new(params.max_scheduled_per_block, params.max_agendas),
            lookup: Lookup::new(),
            events: Vec::new(),
        };
        proof {
            assert(pallet@.events =~= Seq::empty());
        }
        pallet
    }

    /// The parameters that the scheduler was made with.
    pub fn parameters(&self) -> (params: Parameters)
        ensures
            params == self.params(),
    {
        self.params
    }

    /// The current slot.
    pub fn block_number(&self) -> (now: BlockNumber)
        ensures
            now == self@.block_number,
    {
        self.block_number
    }

    /// Moves to another slot without serving it.
    pub fn set_block_number(&mut self, now: BlockNumber)
        ensures
            final(self)@ == (State { block_number: now, ..(old(self)@) }),
            final(self).params() == old(self).params(),
            old(self).inv() ==> final(self).inv(),
    {
        self.block_number = now;
    }

    /// The notifications emitted so far.
    pub fn events(&self) -> (log: &Vec<Event>)
        ensures
            events_view(log@) == self@.events,
    {
        &self.events
    }

    /// Hands out the notifications emitted so far and empties the log.
    pub fn take_events(&mut self) -> (log: Vec<Event>)
        ensures
            events_view(log@) == old(self)@.events,
            final(self)@ == (State { events: Seq::empty(), ..(old(self)@) }),
            final(self).params() == old(self).params(),
            old(self).inv() ==> final(self).inv(),
    {
        let mut log: Vec<Event> = Vec::new();
        std::mem::swap(&mut log, &mut self.events);
        proof {
            assert(self@.events =~= Seq::empty());
        }
        log
    }

    /// Adds a notification to the log.
    pub(crate) fn deposit_event(&mut self, event: Event)
        ensures
            final(self)@ == old(self)@.emit(event@),
            final(self).params() == old(self).params(),
            old(self).inv() ==> final(self).inv(),
    {
        self.events.push(event);
        proof {
            assert(self@.events =~= old(self)@.events.push(event@));
        }
    }

    /// The length of a slot's list, gaps included.
    pub fn agenda_len(&self, when: BlockNumber) -> (len: usize)
        ensures
            len == slot_of(self@.agenda, when).len(),
    {
        self.agenda.decode_len(when)
    }

    /// The number of slots that hold a list.
    pub fn agenda_count(&self) -> (count: usize)
        ensures
            count == self@.agenda.dom().len(),
    {
        self.agenda.count()
    }

    /// The task at an address, if one lives there.
    pub fn task(&self, address: TaskAddress) -> (found: Option<&ScheduledV3>)
        ensures
            self@.task_at(address) == match found {
                Some(t) => Some(t@),
                None => None,
            },
    {
        self.agenda.get(address.0, address.1)
    }

    /// The address of the task with a name, if the name is in use.
    pub fn lookup(&self, id: &Vec<u8>) -> (address: Option<TaskAddress>)
        requires
            self.inv(),
        ensures
            address == (if self@.lookup.contains_key(id@) {
                Some(self@.lookup[id@])
            } else {
                None
            }),
    {
        self.lookup.get(id)
    }

    /// The number of names in use.
    pub fn lookup_count(&self) -> (count: usize)
        requires
            self.inv(),
        ensures
            count == self@.lookup.dom().len(),
    {
        self.lookup.len()
    }

    /// Whether the name index can take one more name.
    pub(crate) fn names_have_room(&self) -> (room: bool)
        requires
            self.inv(),
        ensures
            room == names_have_room(self@.lookup, self.params().max_schedules),
    {
        match self.params.max_schedules {
            Some(most) => self.lookup.len() < most as usize,
            None => true,
        }
    }

    /// Whether a task could be placed in a slot.
    pub(crate) fn can_place(&self, named: bool, when: BlockNumber) -> (room: bool)
        requires
            self.inv(),
            state_bounded(self.params(), self@),
        ensures
            room == self@.can_place(self.params(), named, when),
    {
        self.agenda.can_append(when) && (!named || self.names_have_room())
    }

    /// Adds a task to a slot, and its name, if any, to the name index.
    /// Where there is no room the state stays as it is and the task is
    /// handed back.
    pub(crate) fn place(&mut self, task: ScheduledV3, when: BlockNumber) -> (placed: Result<
        TaskAddress,
        ScheduledV3,
    >)
        requires
            old(self).bounded(),
            task_fits(old(self).params(), task@),
        ensures
            final(self).bounded(),
            final(self).params() == old(self).params(),
            placed is Ok <==> old(self)@.can_place(old(self).params(), task@.named(), when),
            placed is Ok ==> placed->Ok_0 == old(self)@.next_address(when),
            placed is Ok ==> final(self)@ == old(self)@.placed(task@, when),
            placed is Err ==> placed->Err_0 == task && final(self)@ == old(self)@,
    {
        if task.maybe_id.is_some() && !self.names_have_room() {
            return Err(task);
        }
        let id = clone_id(&task.maybe_id);
        proof {
            if old(self)@.can_place(old(self).params(), task@.named(), when) {
                lemma_placed_bounded(self.params(), self@, task@, when);
            }
        }
        match self.agenda.try_append(when, task) {
            Ok(index) => {
                match id {
                    Some(name) => {
                        self.lookup.insert(name, (when, index));
                    },
                    None => {},
                }
                Ok((when, index))
            },
            Err(task) => Err(task),
        }
    }

    /// Takes the task at an address out of the agenda, leaving a gap, and
    /// its name, if any, out of the name index.
    pub(crate) fn remove(&mut self, address: TaskAddress) -> (task: Option<ScheduledV3>)
        requires
            old(self).bounded(),
        ensures
            final(self).bounded(),
            final(self).params() == old(self).params(),
            entry_view(task) == old(self)@.task_at(address),
            final(self)@ == old(self)@.removed(address),
    {
        proof {
            lemma_removed_bounded(self.params(), self@, address);
        }
        let task = self.agenda.take_at(address.0, address.1);
        match &task {
            Some(found) => {
                match &found.maybe_id {
                    Some(name) => {
                        self.lookup.remove(name);
                    },
                    None => {},
                }
            },
            None => {},
        }
        task
    }

    /// Frees a name, if one is given.
    pub(crate) fn forget(&mut self, maybe_id: &Option<Vec<u8>>)
        requires
            old(self).bounded(),
        ensures
            final(self).bounded(),
            final(self).params() == old(self).params(),
            final(self)@ == (State {
                lookup: without_name(old(self)@.lookup, bytes_view(*maybe_id)),
                ..(old(self)@)
            }),
    {
        proof {
            lemma_without_name_bounded(
                self@.lookup,
                bytes_view(*maybe_id),
            );
        }
        match maybe_id {
            Some(name) => {
                self.lookup.remove(name);
            },
            None => {},
        }
    }

    /// Enters a slot: takes its whole list out of the agenda.
    pub(crate) fn drain(&mut self, now: BlockNumber) -> (slot: Vec<Option<ScheduledV3>>)
        requires
            old(self).bounded(),
        ensures
            final(self).bounded(),
            final(self).params() == old(self).params(),
            slot_view(slot@) == slot_of(old(self)@.agenda, now),
            final(self)@ == (State {
                block_number: now,
                agenda: old(self)@.agenda.remove(now),
                ..(old(self)@)
            }),
    {
        proof {
            lemma_drained_bounded(
                self@.agenda,
                now,
                self.params().max_scheduled_per_block,
                self.params().max_agendas,
            );
            lemma_task_at_drained(self@.agenda, now);
        }
        self.block_number = now;
        self.agenda.take(now)
    }
}

} // verus!
