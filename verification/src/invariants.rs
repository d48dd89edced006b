//! Proofs that the elementary changes to the two stores keep their bounds
//! and keep the name index and the agenda in agreement.

use vstd::prelude::*;

use crate::model::{
    agenda_bounded, appended, has_room, name_at, names_consistent, slot_of, state_bounded, task_at,
    task_fits, vacated, with_name, without_name, AgendaMap, LookupMap, State,
};
use crate::primitives::{BlockNumber, TaskAddress};
use crate::scheduled::{Parameters, ScheduledView};

verus! {

/// Adding a task to a slot changes what stands at the new address and
/// nothing else.
pub proof fn lemma_task_at_appended(agenda: AgendaMap, when: BlockNumber, task: ScheduledView)
    requires
        slot_of(agenda, when).len() < u32::MAX,
    ensures
        forall|w: BlockNumber, i: u32| #[trigger]
            task_at(appended(agenda, when, task), w, i) == (if w == when && i == slot_of(
                agenda,
                when,
            ).len() {
                Some(task)
            } else {
                task_at(agenda, w, i)
            }),
{
    let after = appended(agenda, when, task);
    assert forall|w: BlockNumber, i: u32| #[trigger]
        task_at(after, w, i) == (if w == when && i == slot_of(agenda, when).len() {
            Some(task)
        } else {
            task_at(agenda, w, i)
        }) by {
        if w == when {
            assert(slot_of(after, w) == slot_of(agenda, when).push(Some(task)));
        } else {
            assert(slot_of(after, w) == slot_of(agenda, w));
        }
    }
}

/// Leaving a gap at an address changes what stands there and nothing else.
pub proof fn lemma_task_at_vacated(agenda: AgendaMap, when: BlockNumber, index: u32)
    ensures
        forall|w: BlockNumber, i: u32| #[trigger]
            task_at(vacated(agenda, when, index), w, i) == (if w == when && i == index {
                None
            } else {
                task_at(agenda, w, i)
            }),
{
    let after = vacated(agenda, when, index);
    assert forall|w: BlockNumber, i: u32| #[trigger]
        task_at(after, w, i) == (if w == when && i == index {
            None
        } else {
            task_at(agenda, w, i)
        }) by {
        if task_at(agenda, when, index) is Some {
            if w == when {
                assert(slot_of(after, w) == slot_of(agenda, when).update(index as int, None));
            } else {
                assert(slot_of(after, w) == slot_of(agenda, w));
            }
        }
    }
}

/// Adding a task where there is room keeps the agenda within its bounds.
pub proof fn lemma_appended_bounded(
    agenda: AgendaMap,
    when: BlockNumber,
    task: ScheduledView,
    max_per_slot: u32,
    max_slots: Option<u32>,
)
    requires
        agenda_bounded(agenda, max_per_slot, max_slots),
        has_room(agenda, when, max_per_slot, max_slots),
    ensures
        agenda_bounded(appended(agenda, when, task), max_per_slot, max_slots),
{
    let after = appended(agenda, when, task);
    assert(after.dom() =~= agenda.dom().insert(when));
}

/// Leaving a gap keeps the agenda within its bounds.
pub proof fn lemma_vacated_bounded(
    agenda: AgendaMap,
    when: BlockNumber,
    index: u32,
    max_per_slot: u32,
    max_slots: Option<u32>,
)
    requires
        agenda_bounded(agenda, max_per_slot, max_slots),
    ensures
        agenda_bounded(vacated(agenda, when, index), max_per_slot, max_slots),
{
    let after = vacated(agenda, when, index);
    if task_at(agenda, when, index) is Some {
        assert(after.dom() =~= agenda.dom());
    }
}

/// Taking a whole list out keeps the agenda within its bounds.
pub proof fn lemma_drained_bounded(
    agenda: AgendaMap,
    when: BlockNumber,
    max_per_slot: u32,
    max_slots: Option<u32>,
)
    requires
        agenda_bounded(agenda, max_per_slot, max_slots),
    ensures
        agenda_bounded(agenda.remove(when), max_per_slot, max_slots),
        agenda.remove(when).dom().len() <= agenda.dom().len(),
{
    assert(agenda.remove(when).dom() =~= agenda.dom().remove(when));
}

/// Placing a task that fits where there is room keeps the state within its
/// bounds.
pub proof fn lemma_placed_bounded(
    params: Parameters,
    state: State,
    task: ScheduledView,
    when: BlockNumber,
)
    requires
        state_bounded(params, state),
        state.can_place(params, task.named(), when),
        task_fits(params, task),
    ensures
        state_bounded(params, state.placed(task, when)),
{
    lemma_appended_bounded(
        state.agenda,
        when,
        task,
        params.max_scheduled_per_block,
        params.max_agendas,
    );
    lemma_task_at_appended(state.agenda, when, task);
    let after = state.placed(task, when);
    if task.maybe_id is Some {
        assert(after.lookup.dom() =~= state.lookup.dom().insert(task.maybe_id->0));
    }
}

/// Removing a task keeps the state within its bounds.
pub proof fn lemma_removed_bounded(params: Parameters, state: State, address: TaskAddress)
    requires
        state_bounded(params, state),
    ensures
        state_bounded(params, state.removed(address)),
{
    lemma_vacated_bounded(
        state.agenda,
        address.0,
        address.1,
        params.max_scheduled_per_block,
        params.max_agendas,
    );
    lemma_task_at_vacated(state.agenda, address.0, address.1);
    let after = state.removed(address);
    let name = name_at(state.agenda, address.0, address.1);
    if name is Some {
        assert(after.lookup.dom() =~= state.lookup.dom().remove(name->0));
    }
}

/// Freeing a name keeps the name index within its bound.
pub proof fn lemma_without_name_bounded(lookup: LookupMap, maybe_id: Option<Seq<u8>>)
    requires
        lookup.dom().finite(),
    ensures
        without_name(lookup, maybe_id).dom().finite(),
        without_name(lookup, maybe_id).dom().len() <= lookup.dom().len(),
        maybe_id is Some && lookup.contains_key(maybe_id->0) ==> without_name(
            lookup,
            maybe_id,
        ).dom().len() < lookup.dom().len(),
{
    if maybe_id is Some {
        assert(without_name(lookup, maybe_id).dom() =~= lookup.dom().remove(maybe_id->0));
    }
}

/// Adding a task whose name is free keeps the name index and the agenda
/// in agreement.
pub proof fn lemma_placed_consistent(
    agenda: AgendaMap,
    lookup: LookupMap,
    task: ScheduledView,
    when: BlockNumber,
)
    requires
        names_consistent(agenda, lookup),
        slot_of(agenda, when).len() < u32::MAX,
        task.maybe_id is Some ==> !lookup.contains_key(task.maybe_id->0),
    ensures
        names_consistent(
            appended(agenda, when, task),
            with_name(lookup, task.maybe_id, (when, slot_of(agenda, when).len() as u32)),
        ),
{
    lemma_task_at_appended(agenda, when, task);
    let index = slot_of(agenda, when).len() as u32;
    let after = appended(agenda, when, task);
    let names = with_name(lookup, task.maybe_id, (when, index));
    assert forall|name: Seq<u8>| #[trigger] names.contains_key(name) implies name_at(
        after,
        names[name].0,
        names[name].1,
    ) == Some(name) by {
        if task.maybe_id == Some(name) {
            assert(task_at(after, when, index) == Some(task));
        } else {
            assert(lookup.contains_key(name));
            let address = lookup[name];
            assert(name_at(agenda, address.0, address.1) == Some(name));
            assert(task_at(after, address.0, address.1) == task_at(agenda, address.0, address.1));
        }
    }
    assert forall|w: BlockNumber, i: u32| (#[trigger] name_at(after, w, i)) is Some implies names.contains_key(
        name_at(after, w, i)->0,
    ) && names[name_at(after, w, i)->0] == (w, i) by {
        assert(task_at(after, w, i) == (if w == when && i == index {
            Some(task)
        } else {
            task_at(agenda, w, i)
        }));
        if !(w == when && i == index) {
            assert(name_at(agenda, w, i) is Some);
        }
    }
}

/// Removing a task together with its name keeps the name index and the
/// agenda in agreement.
pub proof fn lemma_removed_consistent(
    agenda: AgendaMap,
    lookup: LookupMap,
    when: BlockNumber,
    index: u32,
)
    requires
        names_consistent(agenda, lookup),
    ensures
        names_consistent(
            vacated(agenda, when, index),
            without_name(lookup, name_at(agenda, when, index)),
        ),
        name_at(agenda, when, index) is Some ==> lookup.contains_key(name_at(agenda, when, index)->0),
{
    lemma_task_at_vacated(agenda, when, index);
    let after = vacated(agenda, when, index);
    let gone = name_at(agenda, when, index);
    let names = without_name(lookup, gone);
    assert forall|name: Seq<u8>| #[trigger] names.contains_key(name) implies name_at(
        after,
        names[name].0,
        names[name].1,
    ) == Some(name) by {
        assert(lookup.contains_key(name));
        let address = lookup[name];
        assert(name_at(agenda, address.0, address.1) == Some(name));
        assert(task_at(after, address.0, address.1) == (if address.0 == when && address.1
            == index {
            None
        } else {
            task_at(agenda, address.0, address.1)
        }));
    }
    assert forall|w: BlockNumber, i: u32| (#[trigger] name_at(after, w, i)) is Some implies names.contains_key(
        name_at(after, w, i)->0,
    ) && names[name_at(after, w, i)->0] == (w, i) by {
        assert(task_at(after, w, i) == (if w == when && i == index {
            None
        } else {
            task_at(agenda, w, i)
        }));
        assert(name_at(agenda, w, i) is Some);
        assert(name_at(agenda, w, i) == name_at(after, w, i));
    }
}


/// Taking a whole list out changes what stands in that slot and nothing
/// else.
pub proof fn lemma_task_at_drained(agenda: AgendaMap, when: BlockNumber)
    ensures
        forall|w: BlockNumber, i: u32| #[trigger]
            task_at(agenda.remove(when), w, i) == (if w == when {
                None
            } else {
                task_at(agenda, w, i)
            }),
{
    let after = agenda.remove(when);
    assert forall|w: BlockNumber, i: u32| #[trigger]
        task_at(after, w, i) == (if w == when {
            None
        } else {
            task_at(agenda, w, i)
        }) by {
        if w != when {
            assert(slot_of(after, w) == slot_of(agenda, w));
        }
    }
}


/// Agreement with the name index depends only on the names that an agenda
/// holds at each address.
pub proof fn lemma_consistent_same_names(first: AgendaMap, second: AgendaMap, lookup: LookupMap)
    requires
        names_consistent(first, lookup),
        forall|w: BlockNumber, i: u32| #[trigger] name_at(first, w, i) == name_at(second, w, i),
    ensures
        names_consistent(second, lookup),
{
    assert forall|name: Seq<u8>| #[trigger] lookup.contains_key(name) implies name_at(
        second,
        lookup[name].0,
        lookup[name].1,
    ) == Some(name) by {
        assert(name_at(first, lookup[name].0, lookup[name].1) == Some(name));
    }
    assert forall|w: BlockNumber, i: u32| (#[trigger] name_at(second, w, i)) is Some implies lookup.contains_key(
        name_at(second, w, i)->0,
    ) && lookup[name_at(second, w, i)->0] == (w, i) by {
        assert(name_at(first, w, i) is Some);
    }
}

} // verus!
