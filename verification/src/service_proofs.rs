//! Proofs that serving a slot keeps the name index and the agenda in
//! agreement. While a slot is served its list is out of the agenda; the
//! proofs speak of the agenda with what is left of that list put back.

use vstd::prelude::*;

use crate::engine::{next_periodic, put_back, resolved_as, serviced, Answer};
use crate::invariants::{
    lemma_consistent_same_names, lemma_placed_consistent, lemma_removed_consistent,
    lemma_without_name_bounded,
};
use crate::model::{
    appended, name_at, names_consistent, slot_of, state_bounded, task_at, vacated, without_name,
    AgendaMap, LookupMap, State,
};
use crate::primitives::{saturating_sum, BlockNumber, EventView, TaskAddress, Weight};
use crate::scheduled::{Entry, Parameters, ScheduledView};

verus! {

/// The agenda with the remainder of the list that is being served put back
/// in its slot.
pub open spec fn with_remainder(
    agenda: AgendaMap,
    now: BlockNumber,
    rest: Seq<Entry>,
) -> AgendaMap {
    agenda.insert(now, rest)
}

/// Putting a task back, whose name is free, keeps the agreement.
pub proof fn lemma_put_back_consistent(
    params: Parameters,
    state: State,
    address: TaskAddress,
    task: ScheduledView,
    when: BlockNumber,
    rest: Seq<Entry>,
)
    requires
        state_bounded(params, state),
        !state.agenda.contains_key(address.0),
        names_consistent(with_remainder(state.agenda, address.0, rest), state.lookup),
        task.maybe_id is Some ==> !state.lookup.contains_key(task.maybe_id->0),
    ensures
        !put_back(params, state, address, task, when).agenda.contains_key(address.0),
        names_consistent(
            with_remainder(put_back(params, state, address, task, when).agenda, address.0, rest),
            put_back(params, state, address, task, when).lookup,
        ),
{
    let now = address.0;
    if when != now && state.can_place(params, task.named(), when) {
        let held = with_remainder(state.agenda, now, rest);
        assert(slot_of(held, when) == slot_of(state.agenda, when));
        lemma_placed_consistent(held, state.lookup, task, when);
        let after = state.placed(task, when);
        assert(with_remainder(after.agenda, now, rest) =~= appended(held, when, task));
    }
}

/// Serving one task, taken from the list that is being served, keeps the
/// agreement.
pub proof fn lemma_serviced_consistent(
    params: Parameters,
    state: State,
    spent: Weight,
    address: TaskAddress,
    position: nat,
    task: ScheduledView,
    answer: Answer,
    rest: Seq<Entry>,
)
    requires
        state_bounded(params, state),
        !state.agenda.contains_key(address.0),
        address.1 < rest.len(),
        rest[address.1 as int] == Some(task),
        names_consistent(with_remainder(state.agenda, address.0, rest), state.lookup),
    ensures
        !serviced(params, state, spent, address, position, task, answer).0.agenda.contains_key(
            address.0,
        ),
        names_consistent(
            with_remainder(
                serviced(params, state, spent, address, position, task, answer).0.agenda,
                address.0,
                rest.update(address.1 as int, None),
            ),
            serviced(params, state, spent, address, position, task, answer).0.lookup,
        ),
{
    let now = address.0;
    let index = address.1;
    let held = with_remainder(state.agenda, now, rest);
    let left = rest.update(index as int, None);
    assert(slot_of(held, now) == rest);
    assert(task_at(held, now, index) == Some(task));
    lemma_removed_consistent(held, state.lookup, now, index);
    assert(vacated(held, now, index) =~= with_remainder(state.agenda, now, left));
    let unnamed = State { lookup: without_name(state.lookup, task.maybe_id), ..state };
    lemma_without_name_bounded(state.lookup, task.maybe_id);
    assert(state_bounded(params, unnamed));
    let noted_failure = unnamed.emit(
        EventView::LookupFailed { task: address, id: task.maybe_id },
    );
    let noted_run = unnamed.emit(
        EventView::Dispatched {
            task: address,
            id: task.maybe_id,
            result: answer.result,
        },
    );
    match resolved_as(task, answer) {
        None => {
            match params.no_preimage_postponement {
                Some(delay) => {
                    lemma_put_back_consistent(
                        params,
                        noted_failure,
                        address,
                        task,
                        saturating_sum(now, delay),
                        left,
                    );
                },
                None => {},
            }
        },
        Some(released) => {
            lemma_put_back_consistent(
                params,
                unnamed,
                address,
                task,
                saturating_sum(now, 1),
                left,
            );
            match task.maybe_periodic {
                Some(periodic) => {
                    lemma_put_back_consistent(
                        params,
                        noted_run,
                        address,
                        task.with_periodic(next_periodic(periodic)),
                        saturating_sum(now, periodic.0),
                        left,
                    );
                },
                None => {},
            }
        },
    }
}

/// When a slot is entered, the agenda with the whole list put back agrees
/// with the name index as the agenda did before.
pub proof fn lemma_entered_consistent(agenda: AgendaMap, lookup: LookupMap, now: BlockNumber)
    requires
        names_consistent(agenda, lookup),
    ensures
        names_consistent(with_remainder(agenda.remove(now), now, slot_of(agenda, now)), lookup),
{
    let held = with_remainder(agenda.remove(now), now, slot_of(agenda, now));
    assert forall|w: BlockNumber, i: u32| #[trigger] name_at(agenda, w, i) == name_at(held, w, i) by {
        assert(slot_of(held, w) == slot_of(agenda, w));
    }
    lemma_consistent_same_names(agenda, held, lookup);
}

/// When nothing is left of the list, the agenda alone agrees with the name
/// index.
pub proof fn lemma_left_consistent(
    agenda: AgendaMap,
    lookup: LookupMap,
    now: BlockNumber,
    rest: Seq<Entry>,
)
    requires
        !agenda.contains_key(now),
        forall|i: int| 0 <= i < rest.len() ==> rest[i] is None,
        names_consistent(with_remainder(agenda, now, rest), lookup),
    ensures
        names_consistent(agenda, lookup),
{
    let held = with_remainder(agenda, now, rest);
    assert forall|w: BlockNumber, i: u32| #[trigger] name_at(held, w, i) == name_at(agenda, w, i) by {
        if w == now {
            assert(slot_of(held, w) == rest);
        } else {
            assert(slot_of(held, w) == slot_of(agenda, w));
        }
    }
    lemma_consistent_same_names(held, agenda, lookup);
}

/// Whether the name of a task, if it has one, is not in use.
pub open spec fn name_is_free(state: State, task: ScheduledView) -> bool {
    task.maybe_id is Some ==> !state.lookup.contains_key(task.maybe_id->0)
}

/// Putting back a task whose name is free keeps the name index and the
/// agenda in agreement.
pub proof fn lemma_put_back_wf(
    params: Parameters,
    state: State,
    address: TaskAddress,
    task: ScheduledView,
    when: BlockNumber,
)
    requires
        state_bounded(params, state),
        names_consistent(state.agenda, state.lookup),
        name_is_free(state, task),
    ensures
        names_consistent(
            put_back(params, state, address, task, when).agenda,
            put_back(params, state, address, task, when).lookup,
        ),
{
    if when != address.0 && state.can_place(params, task.named(), when) {
        lemma_placed_consistent(state.agenda, state.lookup, task, when);
    }
}

/// Serving a task whose name is free keeps the name index and the agenda
/// in agreement.
pub proof fn lemma_serviced_wf(
    params: Parameters,
    state: State,
    spent: Weight,
    address: TaskAddress,
    position: nat,
    task: ScheduledView,
    answer: Answer,
)
    requires
        state_bounded(params, state),
        names_consistent(state.agenda, state.lookup),
        name_is_free(state, task),
    ensures
        names_consistent(
            serviced(params, state, spent, address, position, task, answer).0.agenda,
            serviced(params, state, spent, address, position, task, answer).0.lookup,
        ),
{
    let now = address.0;
    let unnamed = State { lookup: without_name(state.lookup, task.maybe_id), ..state };
    assert(unnamed.lookup =~= state.lookup);
    let noted_failure = unnamed.emit(EventView::LookupFailed { task: address, id: task.maybe_id });
    let noted_run = unnamed.emit(
        EventView::Dispatched { task: address, id: task.maybe_id, result: answer.result },
    );
    match params.no_preimage_postponement {
        Some(delay) => {
            lemma_put_back_wf(params, noted_failure, address, task, saturating_sum(now, delay));
        },
        None => {},
    }
    lemma_put_back_wf(params, unnamed, address, task, saturating_sum(now, 1));
    match task.maybe_periodic {
        Some(periodic) => {
            lemma_put_back_wf(
                params,
                noted_run,
                address,
                task.with_periodic(next_periodic(periodic)),
                saturating_sum(now, periodic.0),
            );
        },
        None => {},
    }
}

} // verus!
