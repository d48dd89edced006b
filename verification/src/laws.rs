//! What holds of the scheduler as a whole, stated over its model and
//! proved from it.

use vstd::prelude::*;

use crate::encoded::{encodes_within, CallOrHashView};
use crate::engine::{
    entered, item_cost, next_periodic, postponed_until, resolved_as, served, serviced,
    spec_admits, task_at_turn, ticked, turns, unnamed, Answer,
};
use crate::invariants::{lemma_task_at_appended, lemma_task_at_vacated};
use crate::model::{name_at, slot_of, state_bounded, state_wf, task_at, without_name, State};
use crate::order::{
    by_priority, key_le, lemma_dispatch_order, lemma_due_keys, spec_dispatch_order,
};
use crate::primitives::{
    saturating_sum, BlockNumber, DispatchTime, Error, EventView, PalletsOrigin, Period, Priority,
    TaskAddress, Weight,
};
use crate::requests::{
    cancel_named_outcome, cancel_outcome, cancelled, cancelled_named, new_task, normalized,
    reschedule_named_outcome, reschedule_outcome, rescheduled, rescheduled_named, resolved_time,
    schedule_outcome, scheduled,
};
use crate::scheduled::{Entry, Parameters, ScheduledView};

verus! {

/// Bounded capacity: a slot whose list has reached the limit takes no
/// further task. The request fails and the state stays as it is.
pub proof fn law_full_slot_refuses(
    params: Parameters,
    state: State,
    maybe_id: Option<Seq<u8>>,
    when: DispatchTime,
    maybe_periodic: Option<Period>,
    priority: Priority,
    origin: PalletsOrigin,
    call: CallOrHashView,
)
    requires
        resolved_time(state.block_number, when) is Ok,
        slot_of(state.agenda, resolved_time(state.block_number, when)->Ok_0).len()
            >= params.max_scheduled_per_block,
        state_wf(params, state),
    ensures
        schedule_outcome(params, state, maybe_id, when, call) is Err,
        schedule_outcome(params, state, maybe_id, when, call) != Err::<TaskAddress, Error>(
            Error::DuplicateName,
        ) ==> schedule_outcome(params, state, maybe_id, when, call) == Err::<TaskAddress, Error>(
            Error::CapacityExceeded,
        ),
        scheduled(params, state, maybe_id, when, maybe_periodic, priority, origin, call) == state,
{
}

/// Bounded capacity: in a well-formed state no list is longer than the
/// limit.
pub proof fn law_slots_are_bounded(params: Parameters, state: State, when: BlockNumber)
    requires
        state_wf(params, state),
    ensures
        slot_of(state.agenda, when).len() <= params.max_scheduled_per_block,
{
}

/// Priority ordering: tasks are served by ascending priority, and tasks of
/// one priority by ascending index, whatever the order of their insertion.
pub proof fn law_dispatch_order_ascending(slot: Seq<Entry>, earlier: int, later: int)
    requires
        slot.len() <= u32::MAX,
        0 <= earlier < later < spec_dispatch_order(slot).len(),
    ensures
        spec_dispatch_order(slot)[earlier].0 <= spec_dispatch_order(slot)[later].0,
        spec_dispatch_order(slot)[earlier].0 == spec_dispatch_order(slot)[later].0
            ==> spec_dispatch_order(slot)[earlier].1 < spec_dispatch_order(slot)[later].1,
        slot[spec_dispatch_order(slot)[earlier].1 as int] is Some,
        slot[spec_dispatch_order(slot)[earlier].1 as int]->0.priority == spec_dispatch_order(
            slot,
        )[earlier].0,
{
    lemma_dispatch_order(slot);
    let order = spec_dispatch_order(slot);
    assert(by_priority()(order[earlier], order[later]));
    assert(key_le(order[earlier], order[later]));
}

/// Priority ordering: every task of a slot is served, once.
pub proof fn law_every_task_is_served(slot: Seq<Entry>, index: u32)
    requires
        slot.len() <= u32::MAX,
        index < slot.len(),
        slot[index as int] is Some,
    ensures
        spec_dispatch_order(slot).contains((slot[index as int]->0.priority, index)),
        spec_dispatch_order(slot).no_duplicates(),
{
    lemma_dispatch_order(slot);
    lemma_due_keys(slot);
}

/// Forward progress: the first task served in a slot is run whatever it
/// costs and whatever the budget, provided that its payload resolves.
pub proof fn law_first_task_is_dispatched(
    params: Parameters,
    state: State,
    now: BlockNumber,
    answers: Seq<Answer>,
)
    requires
        state_wf(params, state),
        spec_dispatch_order(slot_of(state.agenda, now)).len() >= 1,
        answers.len() >= 1,
        resolved_as(
            slot_of(state.agenda, now)[spec_dispatch_order(slot_of(state.agenda, now))[0].1 as int]->0,
            answers[0],
        ) is Some,
    ensures
        served(params, state, now, answers, 1).0.events.len() > state.events.len(),
        served(params, state, now, answers, 1).0.events[state.events.len() as int] == (
        EventView::Dispatched {
            task: (now, spec_dispatch_order(slot_of(state.agenda, now))[0].1),
            id: slot_of(state.agenda, now)[spec_dispatch_order(
                slot_of(state.agenda, now),
            )[0].1 as int]->0.maybe_id,
            result: answers[0].result,
        }),
{
    let start = served(params, state, now, answers, 0);
    assert(start.0 == entered(state, now));
    assert(served(params, state, now, answers, 1) == serviced(
        params,
        start.0,
        start.1,
        (now, spec_dispatch_order(slot_of(state.agenda, now))[0].1),
        0,
        slot_of(state.agenda, now)[spec_dispatch_order(slot_of(state.agenda, now))[0].1 as int]->0,
        answers[0],
    )) by {
        reveal_with_fuel(served, 2);
    }
}

/// Forward progress: a task that is alone in its slot is run in that slot,
/// provided that its payload resolves.
pub proof fn law_single_task_is_dispatched(
    params: Parameters,
    state: State,
    now: BlockNumber,
    answers: Seq<Answer>,
)
    requires
        state_wf(params, state),
        spec_dispatch_order(slot_of(state.agenda, now)).len() == 1,
        answers.len() == 1,
        resolved_as(
            slot_of(state.agenda, now)[spec_dispatch_order(slot_of(state.agenda, now))[0].1 as int]->0,
            answers[0],
        ) is Some,
    ensures
        ticked(params, state, now, answers).0.events.len() > state.events.len(),
        ticked(params, state, now, answers).0.events[state.events.len() as int] == (
        EventView::Dispatched {
            task: (now, spec_dispatch_order(slot_of(state.agenda, now))[0].1),
            id: slot_of(state.agenda, now)[spec_dispatch_order(
                slot_of(state.agenda, now),
            )[0].1 as int]->0.maybe_id,
            result: answers[0].result,
        }),
{
    law_first_task_is_dispatched(params, state, now, answers);
}

/// The slot that was served holds no list afterwards, whatever the host
/// answered.
pub proof fn law_served_slot_is_drained(
    params: Parameters,
    state: State,
    now: BlockNumber,
    answers: Seq<Answer>,
    count: nat,
)
    ensures
        !served(params, state, now, answers, count).0.agenda.contains_key(now),
        served(params, state, now, answers, count).0.block_number == now,
    decreases count,
{
    if count > 0 {
        law_served_slot_is_drained(params, state, now, answers, (count - 1) as nat);
    }
}

/// Name consistency: after a task was scheduled under a name and then
/// moved by that name, the name stands for the new address, the task
/// stands there unchanged, and the old address holds a gap.
pub proof fn law_reschedule_named_moves_name(
    params: Parameters,
    state: State,
    id: Seq<u8>,
    when: DispatchTime,
    maybe_periodic: Option<Period>,
    priority: Priority,
    origin: PalletsOrigin,
    call: CallOrHashView,
    new_time: DispatchTime,
)
    requires
        state_wf(params, state),
        schedule_outcome(params, state, Some(id), when, call) is Ok,
        reschedule_named_outcome(
            params,
            scheduled(params, state, Some(id), when, maybe_periodic, priority, origin, call),
            id,
            new_time,
        ) is Ok,
    ensures
        ({
            let first = schedule_outcome(params, state, Some(id), when, call)->Ok_0;
            let between = scheduled(
                params,
                state,
                Some(id),
                when,
                maybe_periodic,
                priority,
                origin,
                call,
            );
            let second = reschedule_named_outcome(params, between, id, new_time)->Ok_0;
            let after = rescheduled_named(params, between, id, new_time);
            &&& between.lookup.contains_key(id)
            &&& between.lookup[id] == first
            &&& after.lookup.contains_key(id)
            &&& after.lookup[id] == second
            &&& second.0 == resolved_time(state.block_number, new_time)->Ok_0
            &&& second.0 != first.0
            &&& after.task_at(first) is None
            &&& after.task_at(second) == Some(
                new_task(Some(id), maybe_periodic, priority, origin, call),
            )
        }),
{
    let first = schedule_outcome(params, state, Some(id), when, call)->Ok_0;
    let task = new_task(Some(id), maybe_periodic, priority, origin, call);
    let between = scheduled(params, state, Some(id), when, maybe_periodic, priority, origin, call);
    lemma_task_at_appended(state.agenda, first.0, task);
    assert(between.task_at(first) == Some(task));
    let second = reschedule_named_outcome(params, between, id, new_time)->Ok_0;
    let gone = between.removed(first);
    lemma_task_at_vacated(between.agenda, first.0, first.1);
    lemma_task_at_appended(gone.agenda, second.0, task);
    assert(slot_of(gone.agenda, second.0) == slot_of(between.agenda, second.0));
}

/// Postponement: a task whose payload does not resolve is noted as failed
/// exactly once. Where a postponement is configured and the later slot has
/// room, the task stands there unchanged, its name stands for its new
/// address, and nothing else in the agenda changes.
pub proof fn law_unresolved_task_is_postponed(
    params: Parameters,
    state: State,
    spent: Weight,
    address: TaskAddress,
    position: nat,
    task: ScheduledView,
    answer: Answer,
)
    requires
        state_bounded(params, state),
        resolved_as(task, answer) is None,
        params.no_preimage_postponement is Some,
        postponed_until(params, address.0) != address.0,
        unnamed(state, task).can_place(params, task.named(), postponed_until(params, address.0)),
    ensures
        serviced(params, state, spent, address, position, task, answer).0.events
            == state.events.push(failure_note(address, task)),
        serviced(params, state, spent, address, position, task, answer).0.task_at(
            state.next_address(postponed_until(params, address.0)),
        ) == Some(task),
        task.maybe_id is Some ==> serviced(
            params,
            state,
            spent,
            address,
            position,
            task,
            answer,
        ).0.lookup.contains_key(task.maybe_id->0),
        task.maybe_id is Some ==> serviced(
            params,
            state,
            spent,
            address,
            position,
            task,
            answer,
        ).0.lookup[task.maybe_id->0] == state.next_address(postponed_until(params, address.0)),
        forall|w: BlockNumber, i: u32|
            (w, i) != state.next_address(postponed_until(params, address.0)) ==> task_at(
                state.agenda,
                w,
                i,
            ) == #[trigger] task_at(
                serviced(params, state, spent, address, position, task, answer).0.agenda,
                w,
                i,
            ),
{
    lemma_task_at_appended(state.agenda, postponed_until(params, address.0), task);
}

/// The note that the payload of a task did not resolve.
pub open spec fn failure_note(address: TaskAddress, task: ScheduledView) -> EventView {
    EventView::LookupFailed { task: address, id: task.maybe_id }
}

/// Postponement: without a configured postponement a task whose payload
/// does not resolve is dropped. The failure is noted exactly once, the
/// agenda stays as it is and the name of the task is free.
pub proof fn law_unresolved_task_is_dropped(
    params: Parameters,
    state: State,
    spent: Weight,
    address: TaskAddress,
    position: nat,
    task: ScheduledView,
    answer: Answer,
)
    requires
        resolved_as(task, answer) is None,
        params.no_preimage_postponement is None,
    ensures
        serviced(params, state, spent, address, position, task, answer).0.events
            == state.events.push(failure_note(address, task)),
        serviced(params, state, spent, address, position, task, answer).0.agenda == state.agenda,
        serviced(params, state, spent, address, position, task, answer).0.lookup == without_name(
            state.lookup,
            task.maybe_id,
        ),
        task.maybe_id is Some ==> !serviced(
            params,
            state,
            spent,
            address,
            position,
            task,
            answer,
        ).0.lookup.contains_key(task.maybe_id->0),
{
}

/// No-op reschedule: moving a task to the slot it is in is refused, and
/// the state stays as it is.
pub proof fn law_noop_reschedule_is_refused(
    params: Parameters,
    state: State,
    address: TaskAddress,
    new_time: DispatchTime,
)
    requires
        resolved_time(state.block_number, new_time) == Ok::<BlockNumber, Error>(address.0),
    ensures
        reschedule_outcome(params, state, address, new_time) == Err::<TaskAddress, Error>(
            Error::NoOpReschedule,
        ),
        rescheduled(params, state, address, new_time) == state,
{
}

/// No-op reschedule: moving a named task to the slot it is in is refused,
/// and the state stays as it is.
pub proof fn law_noop_reschedule_named_is_refused(
    params: Parameters,
    state: State,
    id: Seq<u8>,
    new_time: DispatchTime,
)
    requires
        id.len() <= params.max_schedule_id_len,
        state.lookup.contains_key(id),
        resolved_time(state.block_number, new_time) == Ok::<BlockNumber, Error>(
            state.lookup[id].0,
        ),
    ensures
        reschedule_named_outcome(params, state, id, new_time) == Err::<TaskAddress, Error>(
            Error::NoOpReschedule,
        ),
        rescheduled_named(params, state, id, new_time) == state,
{
}

/// No silent loss: a task that is served is run, noted as failed or as
/// dropped, or stands unchanged in the next slot.
pub proof fn law_served_task_is_accounted_for(
    params: Parameters,
    state: State,
    spent: Weight,
    address: TaskAddress,
    position: nat,
    task: ScheduledView,
    answer: Answer,
)
    requires
        state_bounded(params, state),
    ensures
        serviced(params, state, spent, address, position, task, answer).0.events.len()
            > state.events.len() || serviced(
            params,
            state,
            spent,
            address,
            position,
            task,
            answer,
        ).0.task_at(state.next_address(saturating_sum(address.0, 1))) == Some(task),
{
    let next = saturating_sum(address.0, 1);
    if slot_of(state.agenda, next).len() < u32::MAX {
        lemma_task_at_appended(state.agenda, next, task);
    }
}

/// Stable indices: cancelling a task changes what stands at its address
/// and at no other.
pub proof fn law_cancel_keeps_other_addresses(
    state: State,
    address: TaskAddress,
    other: TaskAddress,
)
    requires
        other != address,
    ensures
        cancelled(state, true, address).task_at(other) == state.task_at(other),
        cancelled(state, true, address).task_at(address) is None,
        slot_of(cancelled(state, true, address).agenda, address.0).len() == slot_of(
            state.agenda,
            address.0,
        ).len(),
{
    lemma_task_at_vacated(state.agenda, address.0, address.1);
}

/// No partial change: a request that fails leaves the state as it was.
pub proof fn law_failed_request_changes_nothing(
    params: Parameters,
    state: State,
    maybe_id: Option<Seq<u8>>,
    when: DispatchTime,
    maybe_periodic: Option<Period>,
    priority: Priority,
    origin: PalletsOrigin,
    call: CallOrHashView,
    allowed: bool,
    address: TaskAddress,
    id: Seq<u8>,
)
    ensures
        schedule_outcome(params, state, maybe_id, when, call) is Err ==> scheduled(
            params,
            state,
            maybe_id,
            when,
            maybe_periodic,
            priority,
            origin,
            call,
        ) == state,
        cancel_outcome(state, allowed, address) is Err ==> cancelled(state, allowed, address)
            == state,
        cancel_named_outcome(params, state, allowed, id) is Err ==> cancelled_named(
            params,
            state,
            allowed,
            id,
        ) == state,
        reschedule_outcome(params, state, address, when) is Err ==> rescheduled(
            params,
            state,
            address,
            when,
        ) == state,
        reschedule_named_outcome(params, state, id, when) is Err ==> rescheduled_named(
            params,
            state,
            id,
            when,
        ) == state,
{
}

/// The addresses of the tasks whose run a log notes, in the order of the
/// notes.
pub open spec fn runs(events: Seq<EventView>) -> Seq<TaskAddress>
    decreases events.len(),
{
    if events.len() == 0 {
        Seq::empty()
    } else {
        match events.last() {
            EventView::Dispatched { task, .. } => runs(events.drop_last()).push(task),
            _ => runs(events.drop_last()),
        }
    }
}

/// Whether each of the first `count` tasks of a slot resolves and is
/// admitted when its turn comes.
pub open spec fn all_admitted(
    params: Parameters,
    state: State,
    now: BlockNumber,
    answers: Seq<Answer>,
    count: nat,
) -> bool
    decreases count,
{
    count == 0 || {
        let turn = (count - 1) as nat;
        let before = served(params, state, now, answers, turn);
        let slot = slot_of(state.agenda, now);
        let task = slot[spec_dispatch_order(slot)[turn as int].1 as int]->0;
        &&& all_admitted(params, state, now, answers, turn)
        &&& resolved_as(task, answers[turn as int]) is Some
        &&& spec_admits(
            task.priority,
            turn,
            before.1,
            item_cost(params, task, resolved_as(task, answers[turn as int])->0),
            answers[turn as int].call_weight,
            params.maximum_weight,
        )
    }
}

/// The addresses of the first `count` tasks of a slot in the order of
/// service.
pub open spec fn first_served(state: State, now: BlockNumber, count: nat) -> Seq<TaskAddress> {
    Seq::new(count, |turn: int| (now, spec_dispatch_order(slot_of(state.agenda, now))[turn].1))
}

/// A note of a run adds its address to the runs of a log.
proof fn lemma_runs_push_dispatched(events: Seq<EventView>, event: EventView)
    ensures
        runs(events.push(event)) == (match event {
            EventView::Dispatched { task, .. } => runs(events).push(task),
            _ => runs(events),
        }),
{
    assert(events.push(event).drop_last() =~= events);
    assert(events.push(event).last() == event);
}

/// Priority ordering: where the budget covers every task of a slot, or more
/// generally where each task is admitted when its turn comes, the tasks
/// are run in the order of service: by ascending priority, and within one
/// priority by ascending index.
pub proof fn law_admitted_tasks_run_in_order(
    params: Parameters,
    state: State,
    now: BlockNumber,
    answers: Seq<Answer>,
    count: nat,
)
    requires
        count <= spec_dispatch_order(slot_of(state.agenda, now)).len(),
        all_admitted(params, state, now, answers, count),
    ensures
        runs(served(params, state, now, answers, count).0.events) == runs(state.events)
            + first_served(state, now, count),
    decreases count,
{
    if count == 0 {
        assert(first_served(state, now, 0) =~= Seq::<TaskAddress>::empty());
        assert(runs(state.events) + Seq::<TaskAddress>::empty() =~= runs(state.events));
    } else {
        let turn = (count - 1) as nat;
        law_admitted_tasks_run_in_order(params, state, now, answers, turn);
        let before = served(params, state, now, answers, turn);
        let slot = slot_of(state.agenda, now);
        let index = spec_dispatch_order(slot)[turn as int].1;
        let task = slot[index as int]->0;
        let answer = answers[turn as int];
        let note = EventView::Dispatched {
            task: (now, index),
            id: task.maybe_id,
            result: answer.result,
        };
        let dropped = EventView::Cancelled { when: now, index };
        let after = served(params, state, now, answers, count);
        lemma_runs_push_dispatched(before.0.events, note);
        lemma_runs_push_dispatched(before.0.events.push(note), dropped);
        assert(after.0.events == before.0.events.push(note) || after.0.events
            == before.0.events.push(note).push(dropped));
        assert(first_served(state, now, count) =~= first_served(state, now, turn).push(
            (now, index),
        ));
        assert(runs(after.0.events) =~= runs(state.events) + first_served(state, now, count));
    }
}

/// Periodic exhaustion: a request for `count` runs, `count` being at least
/// two, with a period, is stored as owing `count - 1` runs after the first;
/// each run takes one off, and the descriptor goes with the last but one.
pub proof fn law_periodic_runs_count_down(period: BlockNumber, count: u32)
    requires
        period >= 1,
        count >= 2,
    ensures
        normalized(Some((period, count))) == Some((period, (count - 1) as u32)),
        count > 2 ==> next_periodic((period, (count - 1) as u32)) == Some(
            (period, (count - 2) as u32),
        ),
        next_periodic((period, 1)) == None::<Period>,
        normalized(Some((period, 1))) == None::<Period>,
        normalized(Some((0, count))) == None::<Period>,
{
}

/// Periodic exhaustion: a periodic task that is run goes to the slot one
/// period later, where there is room, with one run less owed; a task
/// without a periodic descriptor that is run is gone.
pub proof fn law_run_task_recurs(
    params: Parameters,
    state: State,
    spent: Weight,
    address: TaskAddress,
    task: ScheduledView,
    answer: Answer,
)
    requires
        state_bounded(params, state),
        resolved_as(task, answer) is Some,
    ensures
        task.maybe_periodic is None ==> serviced(
            params,
            state,
            spent,
            address,
            0,
            task,
            answer,
        ).0.agenda == state.agenda,
        task.maybe_periodic is Some && recurs_at(task, address.0) != address.0 && unnamed(
            state,
            task,
        ).can_place(params, task.named(), recurs_at(task, address.0)) ==> serviced(
            params,
            state,
            spent,
            address,
            0,
            task,
            answer,
        ).0.task_at(state.next_address(recurs_at(task, address.0))) == Some(
            task.with_periodic(next_periodic(task.maybe_periodic->0)),
        ),
{
    if task.maybe_periodic is Some && slot_of(state.agenda, recurs_at(task, address.0)).len()
        < u32::MAX {
        lemma_task_at_appended(
            state.agenda,
            recurs_at(task, address.0),
            task.with_periodic(next_periodic(task.maybe_periodic->0)),
        );
    }
}

/// The slot of the next run of a periodic task that is run in `now`;
/// `now` itself for a task without a periodic descriptor.
pub open spec fn recurs_at(task: ScheduledView, now: BlockNumber) -> BlockNumber {
    match task.maybe_periodic {
        Some(periodic) => saturating_sum(now, periodic.0),
        None => now,
    }
}

/// Postponement: the name of a task that was dropped because its payload
/// did not resolve can be used again at once: a request to schedule under
/// it is not refused for the name, and succeeds where the name is not too
/// long, the time is in the future, the payload can be encoded and there
/// is room.
pub proof fn law_dropped_name_can_be_used_again(
    params: Parameters,
    state: State,
    spent: Weight,
    address: TaskAddress,
    position: nat,
    task: ScheduledView,
    answer: Answer,
    when: DispatchTime,
    call: CallOrHashView,
)
    requires
        resolved_as(task, answer) is None,
        params.no_preimage_postponement is None,
        task.maybe_id is Some,
    ensures
        schedule_outcome(
            params,
            serviced(params, state, spent, address, position, task, answer).0,
            task.maybe_id,
            when,
            call,
        ) != Err::<TaskAddress, Error>(Error::DuplicateName),
        task.maybe_id->0.len() <= params.max_schedule_id_len && resolved_time(
            state.block_number,
            when,
        ) is Ok && encodes_within(call, params.max_call_len) && serviced(
            params,
            state,
            spent,
            address,
            position,
            task,
            answer,
        ).0.can_place(params, true, resolved_time(state.block_number, when)->Ok_0)
            ==> schedule_outcome(
            params,
            serviced(params, state, spent, address, position, task, answer).0,
            task.maybe_id,
            when,
            call,
        ) is Ok,
{
}

/// Serving a task leaves every name but its own in the name index or out
/// of it, as it was.
pub proof fn lemma_serviced_other_names(
    params: Parameters,
    state: State,
    spent: Weight,
    address: TaskAddress,
    position: nat,
    task: ScheduledView,
    answer: Answer,
    name: Seq<u8>,
)
    requires
        task.maybe_id != Some(name),
    ensures
        serviced(params, state, spent, address, position, task, answer).0.lookup.contains_key(
            name,
        ) == state.lookup.contains_key(name),
{
}

/// The tasks that are due in one slot of a well-formed state carry
/// different names.
pub proof fn lemma_names_differ_within_slot(
    params: Parameters,
    state: State,
    now: BlockNumber,
    turn: nat,
    other: nat,
)
    requires
        state_wf(params, state),
        turn < turns(state, now),
        other < turns(state, now),
        turn != other,
        task_at_turn(state, now, turn).maybe_id is Some,
    ensures
        task_at_turn(state, now, other).maybe_id != task_at_turn(state, now, turn).maybe_id,
{
    let slot = slot_of(state.agenda, now);
    lemma_dispatch_order(slot);
    let order = spec_dispatch_order(slot);
    let first = order[turn as int].1;
    let second = order[other as int].1;
    assert(first != second) by {
        if turn < other {
            assert(order[turn as int].1 != order[other as int].1);
        } else {
            assert(order[other as int].1 != order[turn as int].1);
        }
    }
    assert(task_at(state.agenda, now, first) == slot[first as int]);
    assert(task_at(state.agenda, now, second) == slot[second as int]);
    assert(name_at(state.agenda, now, first) == task_at_turn(state, now, turn).maybe_id);
    assert(name_at(state.agenda, now, second) == task_at_turn(state, now, other).maybe_id);
}

/// Once a named task of a slot was dropped because its payload did not
/// resolve, its name stays out of the name index while the rest of the
/// slot is served.
pub proof fn lemma_dropped_name_stays_free(
    params: Parameters,
    state: State,
    now: BlockNumber,
    answers: Seq<Answer>,
    turn: nat,
    count: nat,
)
    requires
        state_wf(params, state),
        params.no_preimage_postponement is None,
        turn < count <= turns(state, now),
        task_at_turn(state, now, turn).maybe_id is Some,
        resolved_as(task_at_turn(state, now, turn), answers[turn as int]) is None,
    ensures
        !served(params, state, now, answers, count).0.lookup.contains_key(
            task_at_turn(state, now, turn).maybe_id->0,
        ),
    decreases count,
{
    let name = task_at_turn(state, now, turn).maybe_id->0;
    let last = (count - 1) as nat;
    let before = served(params, state, now, answers, last);
    let slot = slot_of(state.agenda, now);
    let index = spec_dispatch_order(slot)[last as int].1;
    assert(served(params, state, now, answers, count) == serviced(
        params,
        before.0,
        before.1,
        (now, index),
        last,
        task_at_turn(state, now, last),
        answers[last as int],
    ));
    if last > turn {
        lemma_dropped_name_stays_free(params, state, now, answers, turn, last);
        lemma_names_differ_within_slot(params, state, now, turn, last);
        lemma_serviced_other_names(
            params,
            before.0,
            before.1,
            (now, index),
            last,
            task_at_turn(state, now, last),
            answers[last as int],
            name,
        );
    }
}

/// Postponement: where no postponement is configured, the name of a task
/// whose payload does not resolve is free once its slot was served, so that
/// a request to schedule under it is not refused for the name.
pub proof fn law_name_of_dropped_task_is_free_after_the_slot(
    params: Parameters,
    state: State,
    now: BlockNumber,
    answers: Seq<Answer>,
    turn: nat,
    when: DispatchTime,
    call: CallOrHashView,
)
    requires
        state_wf(params, state),
        params.no_preimage_postponement is None,
        turn < turns(state, now),
        task_at_turn(state, now, turn).maybe_id is Some,
        resolved_as(task_at_turn(state, now, turn), answers[turn as int]) is None,
    ensures
        !ticked(params, state, now, answers).0.lookup.contains_key(
            task_at_turn(state, now, turn).maybe_id->0,
        ),
        schedule_outcome(
            params,
            ticked(params, state, now, answers).0,
            task_at_turn(state, now, turn).maybe_id,
            when,
            call,
        ) != Err::<TaskAddress, Error>(Error::DuplicateName),
{
    lemma_dropped_name_stays_free(params, state, now, answers, turn, turns(state, now));
}

} // verus!
