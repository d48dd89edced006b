//! The mathematical model of the two stores: the agenda, from a slot to the
//! list of tasks due in it, and the name index.

use vstd::prelude::*;

use crate::primitives::{BlockNumber, EventView, TaskAddress};
use crate::scheduled::{Entry, Parameters, ScheduledView};

verus! {

/// The agenda: for each slot that holds one, the list of its tasks and gaps.
pub type AgendaMap = Map<BlockNumber, Seq<Entry>>;

/// The name index.
pub type LookupMap = Map<Seq<u8>, TaskAddress>;

/// The list of a slot; empty where the agenda holds none.
pub open spec fn slot_of(agenda: AgendaMap, when: BlockNumber) -> Seq<Entry> {
    if agenda.contains_key(when) {
        agenda[when]
    } else {
        Seq::empty()
    }
}

/// What stands at an address: a task, or nothing.
pub open spec fn task_at(agenda: AgendaMap, when: BlockNumber, index: u32) -> Entry {
    if index < slot_of(agenda, when).len() {
        slot_of(agenda, when)[index as int]
    } else {
        None
    }
}

/// Whether one more task can be added to a slot: an existing list must be
/// short of `max_per_slot`, and a new list must not take the number of
/// lists beyond `max_slots`.
pub open spec fn has_room(
    agenda: AgendaMap,
    when: BlockNumber,
    max_per_slot: u32,
    max_slots: Option<u32>,
) -> bool {
    if agenda.contains_key(when) {
        agenda[when].len() < max_per_slot
    } else {
        &&& 0 < max_per_slot
        &&& max_slots is Some ==> agenda.dom().len() < max_slots->0
    }
}

/// The agenda after a task was added at the end of a slot's list.
pub open spec fn appended(agenda: AgendaMap, when: BlockNumber, task: ScheduledView) -> AgendaMap {
    agenda.insert(when, slot_of(agenda, when).push(Some(task)))
}

/// The agenda after the task at an address, if any, was replaced by a gap.
pub open spec fn vacated(agenda: AgendaMap, when: BlockNumber, index: u32) -> AgendaMap {
    if task_at(agenda, when, index) is Some {
        agenda.insert(when, agenda[when].update(index as int, None))
    } else {
        agenda
    }
}

/// Every list holds at least one and at most `max_per_slot` positions, and
/// there are at most `max_slots` lists.
pub open spec fn agenda_bounded(
    agenda: AgendaMap,
    max_per_slot: u32,
    max_slots: Option<u32>,
) -> bool {
    &&& agenda.dom().finite()
    &&& forall|when: BlockNumber| #[trigger]
        agenda.contains_key(when) ==> 1 <= agenda[when].len() <= max_per_slot
    &&& max_slots is Some ==> agenda.dom().len() <= max_slots->0
}


/// Everything the scheduler remembers between two calls.
pub struct State {
    /// The current slot.
    pub block_number: BlockNumber,
    /// The tasks, by the slot in which they are due.
    pub agenda: AgendaMap,
    /// The addresses of the named tasks.
    pub lookup: LookupMap,
    /// The notifications emitted so far.
    pub events: Seq<EventView>,
}

/// The name index without the given name, if one is given.
pub open spec fn without_name(lookup: LookupMap, maybe_id: Option<Seq<u8>>) -> LookupMap {
    match maybe_id {
        Some(name) => lookup.remove(name),
        None => lookup,
    }
}

/// The name index with the given name, if one is given, standing for an address.
pub open spec fn with_name(
    lookup: LookupMap,
    maybe_id: Option<Seq<u8>>,
    address: TaskAddress,
) -> LookupMap {
    match maybe_id {
        Some(name) => lookup.insert(name, address),
        None => lookup,
    }
}

/// The name of what stands at an address, if a named task stands there.
pub open spec fn name_at(agenda: AgendaMap, when: BlockNumber, index: u32) -> Option<Seq<u8>> {
    match task_at(agenda, when, index) {
        Some(task) => task.maybe_id,
        None => None,
    }
}

/// Whether the name index can take one more name.
pub open spec fn names_have_room(lookup: LookupMap, max_names: Option<u32>) -> bool {
    max_names is Some ==> lookup.dom().len() < max_names->0
}

impl State {
    /// The state before anything was scheduled.
    pub open spec fn initial() -> State {
        State {
            block_number: 0,
            agenda: Map::empty(),
            lookup: Map::empty(),
            events: Seq::empty(),
        }
    }

    /// The state after one more notification.
    pub open spec fn emit(self, event: EventView) -> State {
        State { events: self.events.push(event), ..self }
    }

    /// What stands at an address.
    pub open spec fn task_at(self, address: TaskAddress) -> Entry {
        task_at(self.agenda, address.0, address.1)
    }

    /// The address that the next task added to a slot gets.
    pub open spec fn next_address(self, when: BlockNumber) -> TaskAddress {
        (when, slot_of(self.agenda, when).len() as u32)
    }

    /// The state after the task at an address, if any, left the agenda and
    /// its name, if any, left the name index.
    pub open spec fn removed(self, address: TaskAddress) -> State {
        State {
            agenda: vacated(self.agenda, address.0, address.1),
            lookup: without_name(self.lookup, name_at(self.agenda, address.0, address.1)),
            ..self
        }
    }

    /// Whether a task can be added to a slot: the slot has room, and so has
    /// the name index where the task is a named one.
    pub open spec fn can_place(self, params: Parameters, named: bool, when: BlockNumber) -> bool {
        &&& has_room(self.agenda, when, params.max_scheduled_per_block, params.max_agendas)
        &&& named ==> names_have_room(self.lookup, params.max_schedules)
    }

    /// The state after a task was added to a slot, and its name, if any, to
    /// the name index.
    pub open spec fn placed(self, task: ScheduledView, when: BlockNumber) -> State {
        State {
            agenda: appended(self.agenda, when, task),
            lookup: with_name(self.lookup, task.maybe_id, self.next_address(when)),
            ..self
        }
    }
}

/// The name index and the agenda agree: each name stands for the address of
/// a task that carries it, and each named task is found under its name.
pub open spec fn names_consistent(agenda: AgendaMap, lookup: LookupMap) -> bool {
    &&& forall|name: Seq<u8>| #[trigger]
        lookup.contains_key(name) ==> name_at(agenda, lookup[name].0, lookup[name].1) == Some(
            name,
        )
    &&& forall|when: BlockNumber, index: u32|
        (#[trigger] name_at(agenda, when, index)) is Some ==> lookup.contains_key(
            name_at(agenda, when, index)->0,
        ) && lookup[name_at(agenda, when, index)->0] == (when, index)
}

/// Whether a task may be stored: a periodic descriptor has a period and
/// owes at least one more run, and the name and the payload keep within
/// their lengths.
pub open spec fn task_fits(params: Parameters, task: ScheduledView) -> bool {
    &&& match task.maybe_periodic {
        Some(periodic) => periodic.0 >= 1 && periodic.1 >= 1,
        None => true,
    }
    &&& task.maybe_id is Some ==> task.maybe_id->0.len() <= params.max_schedule_id_len
    &&& task.call.len() <= params.max_call_len
}

/// The bounds that every state keeps: on the length of each list, on the
/// number of lists and of names, and on what each task holds.
pub open spec fn state_bounded(params: Parameters, state: State) -> bool {
    &&& agenda_bounded(state.agenda, params.max_scheduled_per_block, params.max_agendas)
    &&& state.lookup.dom().finite()
    &&& params.max_schedules is Some ==> state.lookup.dom().len() <= params.max_schedules->0
    &&& forall|when: BlockNumber, index: u32|
        (#[trigger] task_at(state.agenda, when, index)) is Some ==> task_fits(
            params,
            task_at(state.agenda, when, index)->0,
        )
}

/// What holds of the state between any two calls.
pub open spec fn state_wf(params: Parameters, state: State) -> bool {
    &&& state_bounded(params, state)
    &&& names_consistent(state.agenda, state.lookup)
}

} // verus!
