//! The mathematical model of serving a slot: what happens to each task that
//! is due, given what the host answered about it.

use vstd::prelude::*;

use crate::encoded::CallOrHashView;
use crate::host::Run;
use crate::model::{slot_of, without_name, State};
use crate::order::spec_dispatch_order;
use crate::primitives::{
    hard_deadline, saturating_sum, BlockNumber, CallHash, DispatchError, EventView, Period,
    Priority, TaskAddress, Weight,
};
use crate::scheduled::{Parameters, ScheduledView};

verus! {

/// What the host answered while one task was served.
#[derive(Clone, Copy, Debug, PartialEq, Eq)]
pub struct Answer {
    /// For a payload given by hash: `None` when the resolver did not have
    /// the call, otherwise whether it said that no other task refers to it.
    pub resolution: Option<bool>,
    /// The weight that running the call is expected to take.
    pub call_weight: Weight,
    /// Whether the call succeeded.
    pub result: Result<(), DispatchError>,
    /// The weight that the call really took, if the host measured it.
    pub actual_weight: Option<Weight>,
}

/// How the payload of a task was resolved: `None` when it could not be,
/// otherwise whether it was looked up and released. A call given in full
/// needs no lookup.
pub open spec fn resolved_as(task: ScheduledView, answer: Answer) -> Option<bool> {
    match task.payload() {
        CallOrHashView::Value(_) => Some(false),
        CallOrHashView::Hash(_) => answer.resolution,
    }
}

/// Whether a task is run in this slot: it has the hard deadline priority,
/// or it is the first to be served, or the budget covers it.
pub open spec fn spec_admits(
    priority: Priority,
    position: nat,
    spent: Weight,
    item_cost: Weight,
    call_weight: Weight,
    limit: Weight,
) -> bool {
    ||| priority == hard_deadline()
    ||| position == 0
    ||| saturating_sum(saturating_sum(spent, call_weight), item_cost) <= limit
}

/// The periodic descriptor after one more run: one run less is owed, and
/// the descriptor goes when none is left.
pub open spec fn next_periodic(periodic: Period) -> Option<Period> {
    if periodic.1 > 1 {
        Some((periodic.0, (periodic.1 - 1) as u32))
    } else {
        None
    }
}

/// The state after a task that was taken from `address` went back into the
/// agenda, into the slot `when`. Where that slot is the one being served or
/// has no room, the task is dropped instead and the drop is noted.
pub open spec fn put_back(
    params: Parameters,
    state: State,
    address: TaskAddress,
    task: ScheduledView,
    when: BlockNumber,
) -> State {
    if when != address.0 && state.can_place(params, task.named(), when) {
        state.placed(task, when)
    } else {
        state.emit(EventView::Cancelled { when: address.0, index: address.1 })
    }
}

/// The hash that the resolver is told to let go when a task goes back into
/// the agenda, if there is one: that of a task which is dropped for want of
/// room while the resolver still keeps its payload for it.
pub open spec fn let_go(
    params: Parameters,
    state: State,
    address: TaskAddress,
    task: ScheduledView,
    when: BlockNumber,
    held: bool,
) -> Option<CallHash> {
    if held && !(when != address.0 && state.can_place(params, task.named(), when)) {
        match task.payload() {
            CallOrHashView::Hash(hash) => Some(hash),
            CallOrHashView::Value(_) => None,
        }
    } else {
        None
    }
}

/// The cost charged for a task that was not run.
pub open spec fn aborted_cost(params: Parameters, spent: Weight, task: ScheduledView) -> Weight {
    saturating_sum(spent, params.weight_info.spec_item(false, task.named(), None))
}

/// A task whose payload could not be resolved: the failure is noted, and
/// the task goes to a later slot where a postponement is configured and is
/// dropped otherwise.
pub open spec fn postponed(
    params: Parameters,
    state: State,
    spent: Weight,
    address: TaskAddress,
    task: ScheduledView,
) -> (State, Weight) {
    let noted = state.emit(EventView::LookupFailed { task: address, id: task.maybe_id });
    let after = match params.no_preimage_postponement {
        Some(delay) => put_back(params, noted, address, task, saturating_sum(address.0, delay)),
        None => noted,
    };
    (after, aborted_cost(params, spent, task))
}

/// A task that the budget does not cover: it goes to the next slot
/// unchanged.
pub open spec fn deferred(
    params: Parameters,
    state: State,
    spent: Weight,
    address: TaskAddress,
    task: ScheduledView,
) -> (State, Weight) {
    (
        put_back(params, state, address, task, saturating_sum(address.0, 1)),
        aborted_cost(params, spent, task),
    )
}

/// The cost of the scheduler's own work on a task that is run.
pub open spec fn item_cost(params: Parameters, task: ScheduledView, released: bool) -> Weight {
    params.weight_info.spec_item(task.maybe_periodic is Some, task.named(), Some(released))
}

/// A task that was run: the run is noted with its outcome, its cost is
/// charged, and a periodic task goes to the slot of its next run.
pub open spec fn finished(
    params: Parameters,
    state: State,
    spent: Weight,
    address: TaskAddress,
    task: ScheduledView,
    released: bool,
    answer: Answer,
) -> (State, Weight) {
    let actual = match answer.actual_weight {
        Some(weight) => weight,
        None => answer.call_weight,
    };
    let cost = saturating_sum(saturating_sum(spent, item_cost(params, task, released)), actual);
    let noted = state.emit(
        EventView::Dispatched { task: address, id: task.maybe_id, result: answer.result },
    );
    let after = match task.maybe_periodic {
        Some(periodic) => put_back(
            params,
            noted,
            address,
            task.with_periodic(next_periodic(periodic)),
            saturating_sum(address.0, periodic.0),
        ),
        None => noted,
    };
    (after, cost)
}

/// The state after the name of a task, if it has one, left the name index.
pub open spec fn unnamed(state: State, task: ScheduledView) -> State {
    State { lookup: without_name(state.lookup, task.maybe_id), ..state }
}

/// The slot to which a task that was due in `now` is postponed when its
/// payload does not resolve; `now` itself where no postponement is
/// configured.
pub open spec fn postponed_until(params: Parameters, now: BlockNumber) -> BlockNumber {
    match params.no_preimage_postponement {
        Some(delay) => saturating_sum(now, delay),
        None => now,
    }
}

/// The state and the weight spent after one task, taken from `address`, was
/// served at the given position of the slot's order.
pub open spec fn serviced(
    params: Parameters,
    state: State,
    spent: Weight,
    address: TaskAddress,
    position: nat,
    task: ScheduledView,
    answer: Answer,
) -> (State, Weight) {
    let unnamed = unnamed(state, task);
    match resolved_as(task, answer) {
        None => postponed(params, unnamed, spent, address, task),
        Some(released) => {
            if spec_admits(
                task.priority,
                position,
                spent,
                item_cost(params, task, released),
                answer.call_weight,
                params.maximum_weight,
            ) {
                finished(params, unnamed, spent, address, task, released, answer)
            } else {
                deferred(params, unnamed, spent, address, task)
            }
        },
    }
}

/// The hash that the resolver is told to let go because a task that was
/// served had to be dropped for want of room, if there is one.
pub open spec fn dropped_hash(
    params: Parameters,
    state: State,
    spent: Weight,
    address: TaskAddress,
    position: nat,
    task: ScheduledView,
    answer: Answer,
) -> Option<CallHash> {
    let unnamed = unnamed(state, task);
    let held = freed_by(task, answer) is None;
    match resolved_as(task, answer) {
        None => match params.no_preimage_postponement {
            Some(delay) => let_go(
                params,
                unnamed,
                address,
                task,
                saturating_sum(address.0, delay),
                held,
            ),
            None => None,
        },
        Some(_) => {
            if is_run(params, task, position, spent, answer) {
                match task.maybe_periodic {
                    Some(periodic) => let_go(
                        params,
                        unnamed,
                        address,
                        task.with_periodic(next_periodic(periodic)),
                        saturating_sum(address.0, periodic.0),
                        held,
                    ),
                    None => None,
                }
            } else {
                let_go(params, unnamed, address, task, saturating_sum(address.0, 1), held)
            }
        },
    }
}

/// The state when a slot is entered: the slot is the current one and its
/// list has left the agenda.
pub open spec fn entered(state: State, now: BlockNumber) -> State {
    State { block_number: now, agenda: state.agenda.remove(now), ..state }
}

/// The state and the weight spent after the first `count` tasks of a slot's
/// order were served.
pub open spec fn served(
    params: Parameters,
    state: State,
    now: BlockNumber,
    answers: Seq<Answer>,
    count: nat,
) -> (State, Weight)
    decreases count,
{
    if count == 0 {
        (entered(state, now), params.weight_info.spec_base())
    } else {
        let before = served(params, state, now, answers, (count - 1) as nat);
        let slot = slot_of(state.agenda, now);
        let key = spec_dispatch_order(slot)[count - 1];
        serviced(
            params,
            before.0,
            before.1,
            (now, key.1),
            (count - 1) as nat,
            slot[key.1 as int]->0,
            answers[count - 1],
        )
    }
}

/// The state and the weight spent after a slot was served, given what the
/// host answered about each of its tasks, in the order of service.
pub open spec fn ticked(
    params: Parameters,
    state: State,
    now: BlockNumber,
    answers: Seq<Answer>,
) -> (State, Weight) {
    served(params, state, now, answers, spec_dispatch_order(slot_of(state.agenda, now)).len())
}


/// Whether a task is run when its turn comes: its payload resolves and it
/// is admitted.
pub open spec fn is_run(
    params: Parameters,
    task: ScheduledView,
    position: nat,
    spent: Weight,
    answer: Answer,
) -> bool {
    match resolved_as(task, answer) {
        None => false,
        Some(released) => spec_admits(
            task.priority,
            position,
            spent,
            item_cost(params, task, released),
            answer.call_weight,
            params.maximum_weight,
        ),
    }
}

/// The run that the host is asked for while a task is served, if it is
/// asked for one: the call given in full, or the content that the resolver
/// gave for the hash, on behalf of the origin of the task.
pub open spec fn run_of(
    params: Parameters,
    task: ScheduledView,
    position: nat,
    spent: Weight,
    answer: Answer,
    content: Seq<u8>,
) -> Option<Run> {
    if is_run(params, task, position, spent, answer) {
        match task.payload() {
            CallOrHashView::Value(call) => Some((call, task.origin)),
            CallOrHashView::Hash(_) => Some((content, task.origin)),
        }
    } else {
        None
    }
}

/// The hash that the resolver is told to let go while a task is served, if
/// there is one: that of a payload which the resolver gave and reported as
/// referred to by no other task.
pub open spec fn freed_by(task: ScheduledView, answer: Answer) -> Option<CallHash> {
    match task.payload() {
        CallOrHashView::Hash(hash) => if answer.resolution == Some(true) {
            Some(hash)
        } else {
            None
        },
        CallOrHashView::Value(_) => None,
    }
}

/// The hash that the resolver is asked to look up while a task is served,
/// if there is one: that of a payload given by hash.
pub open spec fn sought_by(task: ScheduledView) -> Option<CallHash> {
    match task.payload() {
        CallOrHashView::Hash(hash) => Some(hash),
        CallOrHashView::Value(_) => None,
    }
}

/// A record with one more entry, if there is one.
pub open spec fn with_more<A>(record: Seq<A>, more: Option<A>) -> Seq<A> {
    match more {
        Some(entry) => record.push(entry),
        None => record,
    }
}

/// The task that is served at a turn of a slot.
pub open spec fn task_at_turn(state: State, now: BlockNumber, turn: nat) -> ScheduledView {
    let slot = slot_of(state.agenda, now);
    slot[spec_dispatch_order(slot)[turn as int].1 as int]->0
}

/// The record of runs after the first `count` tasks of a slot were served,
/// given the record before, what the host answered and what the resolver
/// gave.
pub open spec fn ran(
    params: Parameters,
    state: State,
    now: BlockNumber,
    answers: Seq<Answer>,
    contents: Seq<Seq<u8>>,
    before: Seq<Run>,
    count: nat,
) -> Seq<Run>
    decreases count,
{
    if count == 0 {
        before
    } else {
        let turn = (count - 1) as nat;
        with_more(
            ran(params, state, now, answers, contents, before, turn),
            run_of(
                params,
                task_at_turn(state, now, turn),
                turn,
                served(params, state, now, answers, turn).1,
                answers[turn as int],
                contents[turn as int],
            ),
        )
    }
}

/// The record of hashes let go after the first `count` tasks of a slot
/// were served, given the record before and what the host answered. For
/// each task it holds the hash let go on resolution, then the hash let go
/// because the task was dropped, where there are such.
pub open spec fn freed(
    params: Parameters,
    state: State,
    now: BlockNumber,
    answers: Seq<Answer>,
    before: Seq<CallHash>,
    count: nat,
) -> Seq<CallHash>
    decreases count,
{
    if count == 0 {
        before
    } else {
        let turn = (count - 1) as nat;
        let so_far = served(params, state, now, answers, turn);
        let task = task_at_turn(state, now, turn);
        with_more(
            with_more(
                freed(params, state, now, answers, before, turn),
                freed_by(task, answers[turn as int]),
            ),
            dropped_hash(
                params,
                so_far.0,
                so_far.1,
                (now, spec_dispatch_order(slot_of(state.agenda, now))[turn as int].1),
                turn,
                task,
                answers[turn as int],
            ),
        )
    }
}

/// The record of lookups after the first `count` tasks of a slot were
/// served, given the record before: the hashes of the tasks whose payload
/// is given by hash, in the order of service.
pub open spec fn sought(state: State, now: BlockNumber, before: Seq<CallHash>, count: nat) -> Seq<
    CallHash,
>
    decreases count,
{
    if count == 0 {
        before
    } else {
        let turn = (count - 1) as nat;
        with_more(sought(state, now, before, turn), sought_by(task_at_turn(state, now, turn)))
    }
}

/// What the surroundings remember of having been asked.
pub struct Told {
    /// The calls that were run, with their origins.
    pub runs: Seq<Run>,
    /// The hashes that the resolver was told to let go.
    pub released: Seq<CallHash>,
    /// The hashes that the resolver was asked to look up.
    pub sought: Seq<CallHash>,
}

/// Whether a state, a weight and what the surroundings remember are what
/// serving a slot leads to, for some answers of the host and some contents
/// given by the resolver. The resolver is asked for each payload given by
/// hash. The tasks that are run are run in the order of service. A hash is
/// let go where the resolver reports it as referred to by no other task, or
/// where its task is dropped for want of room.
pub open spec fn is_ticked(
    params: Parameters,
    before: State,
    now: BlockNumber,
    after: State,
    spent: Weight,
    told: Told,
    told_after: Told,
) -> bool {
    exists|answers: Seq<Answer>, contents: Seq<Seq<u8>>|
        #![trigger ran(params, before, now, answers, contents, told.runs, turns(before, now))]
        {
            &&& answers.len() == turns(before, now)
            &&& contents.len() == turns(before, now)
            &&& ticked(params, before, now, answers) == (after, spent)
            &&& ran(params, before, now, answers, contents, told.runs, turns(before, now))
                == told_after.runs
            &&& freed(params, before, now, answers, told.released, turns(before, now))
                == told_after.released
            &&& sought(before, now, told.sought, turns(before, now)) == told_after.sought
        }
}

/// The number of tasks that are due in a slot.
pub open spec fn turns(state: State, now: BlockNumber) -> nat {
    spec_dispatch_order(slot_of(state.agenda, now)).len()
}

/// The first tasks of a slot are served the same way whatever the host
/// answers about the later ones.
pub proof fn lemma_served_prefix(
    params: Parameters,
    state: State,
    now: BlockNumber,
    answers: Seq<Answer>,
    more: Seq<Answer>,
    count: nat,
)
    requires
        count <= answers.len() <= more.len(),
        forall|i: int| 0 <= i < answers.len() ==> answers[i] == more[i],
    ensures
        served(params, state, now, answers, count) == served(params, state, now, more, count),
    decreases count,
{
    if count > 0 {
        lemma_served_prefix(params, state, now, answers, more, (count - 1) as nat);
    }
}

/// What the surroundings remember after the first tasks of a slot were
/// served is the same whatever the host answers about the later ones.
pub proof fn lemma_told_prefix(
    params: Parameters,
    state: State,
    now: BlockNumber,
    answers: Seq<Answer>,
    more: Seq<Answer>,
    contents: Seq<Seq<u8>>,
    more_contents: Seq<Seq<u8>>,
    runs: Seq<Run>,
    released: Seq<CallHash>,
    count: nat,
)
    requires
        count <= answers.len() <= more.len(),
        answers.len() == contents.len(),
        more.len() == more_contents.len(),
        forall|i: int| 0 <= i < answers.len() ==> answers[i] == more[i],
        forall|i: int| 0 <= i < contents.len() ==> contents[i] == more_contents[i],
    ensures
        ran(params, state, now, answers, contents, runs, count) == ran(
            params,
            state,
            now,
            more,
            more_contents,
            runs,
            count,
        ),
        freed(params, state, now, answers, released, count) == freed(
            params,
            state,
            now,
            more,
            released,
            count,
        ),
    decreases count,
{
    if count > 0 {
        let turn = (count - 1) as nat;
        lemma_told_prefix(
            params,
            state,
            now,
            answers,
            more,
            contents,
            more_contents,
            runs,
            released,
            turn,
        );
        lemma_served_prefix(params, state, now, answers, more, turn);
    }
}

} // verus!
