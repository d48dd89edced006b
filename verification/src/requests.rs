//! The mathematical model of the scheduling requests: which of them succeed,
//! with which address or failure, and what they do to the state.

use vstd::prelude::*;

use crate::encoded::{encodes_within, scale_encoding, CallOrHashView};
use crate::host::{permitted, Config};
use crate::model::{has_room, slot_of, State};
use crate::primitives::{
    saturating_sum, BlockNumber, DispatchTime, Error, EventView, PalletsOrigin, Period, Priority,
    TaskAddress,
};
use crate::scheduled::{Parameters, ScheduledView};

verus! {

/// The slot that a requested time stands for. A delay counts from the slot
/// after the current one, so that a task never lands in the current slot;
/// a slot that is not after the current one is refused.
pub open spec fn resolved_time(now: BlockNumber, when: DispatchTime) -> Result<BlockNumber, Error> {
    let target = match when {
        DispatchTime::At(slot) => slot,
        DispatchTime::After(delay) => saturating_sum(saturating_sum(now, delay), 1),
    };
    if target <= now {
        Err(Error::TimeInPast)
    } else {
        Ok(target)
    }
}

/// The periodic descriptor that is stored for a requested one. A request
/// for at most one run, or with no period, is for a single run. The first
/// run is among those requested, so one run less is owed after it.
pub open spec fn normalized(maybe_periodic: Option<Period>) -> Option<Period> {
    match maybe_periodic {
        Some(periodic) => if periodic.1 > 1 && periodic.0 != 0 {
            Some((periodic.0, (periodic.1 - 1) as u32))
        } else {
            None
        },
        None => None,
    }
}

/// The task that a request to schedule describes.
pub open spec fn new_task(
    maybe_id: Option<Seq<u8>>,
    maybe_periodic: Option<Period>,
    priority: Priority,
    origin: PalletsOrigin,
    call: CallOrHashView,
) -> ScheduledView {
    ScheduledView {
        maybe_id,
        priority,
        call: scale_encoding(call),
        maybe_periodic: normalized(maybe_periodic),
        origin,
    }
}

/// Whether a request to schedule succeeds, and then the address of the new
/// task. The name, if any, must not be too long nor in use; the time must
/// be in the future; the payload must not be too long; and the slot, and
/// for a named task the name index, must have room.
pub open spec fn schedule_outcome(
    params: Parameters,
    state: State,
    maybe_id: Option<Seq<u8>>,
    when: DispatchTime,
    call: CallOrHashView,
) -> Result<TaskAddress, Error> {
    if maybe_id is Some && maybe_id->0.len() > params.max_schedule_id_len {
        Err(Error::CapacityExceeded)
    } else if maybe_id is Some && state.lookup.contains_key(maybe_id->0) {
        Err(Error::DuplicateName)
    } else {
        match resolved_time(state.block_number, when) {
            Err(_) => Err(Error::TimeInPast),
            Ok(slot) => {
                if !encodes_within(call, params.max_call_len) {
                    Err(Error::CapacityExceeded)
                } else if !state.can_place(params, maybe_id is Some, slot) {
                    Err(Error::CapacityExceeded)
                } else {
                    Ok(state.next_address(slot))
                }
            },
        }
    }
}

/// The state after a request to schedule: on success the task stands at
/// the end of its slot's list, its name, if any, is in the name index, and
/// the scheduling is noted. On failure nothing changes.
pub open spec fn scheduled(
    params: Parameters,
    state: State,
    maybe_id: Option<Seq<u8>>,
    when: DispatchTime,
    maybe_periodic: Option<Period>,
    priority: Priority,
    origin: PalletsOrigin,
    call: CallOrHashView,
) -> State {
    match schedule_outcome(params, state, maybe_id, when, call) {
        Ok(address) => state.placed(
            new_task(maybe_id, maybe_periodic, priority, origin, call),
            address.0,
        ).emit(EventView::Scheduled { when: address.0, index: address.1 }),
        Err(_) => state,
    }
}

/// Whether a request to cancel the task at an address succeeds. `allowed`
/// says whether the caller is privileged enough.
pub open spec fn cancel_outcome(state: State, allowed: bool, address: TaskAddress) -> Result<
    (),
    Error,
> {
    if state.task_at(address) is None {
        Err(Error::NotFound)
    } else if !allowed {
        Err(Error::Unauthorized)
    } else {
        Ok(())
    }
}

/// The state after a request to cancel the task at an address: on success
/// a gap stands in its place, its name, if any, is free, and the
/// cancellation is noted. On failure nothing changes.
pub open spec fn cancelled(state: State, allowed: bool, address: TaskAddress) -> State {
    match cancel_outcome(state, allowed, address) {
        Ok(_) => state.removed(address).emit(
            EventView::Cancelled { when: address.0, index: address.1 },
        ),
        Err(_) => state,
    }
}

/// The payload of the task at an address; an empty call where none stands
/// there.
pub open spec fn payload_at(state: State, address: TaskAddress) -> CallOrHashView {
    match state.task_at(address) {
        Some(task) => task.payload(),
        None => CallOrHashView::Value(Seq::empty()),
    }
}

/// Whether a caller may remove the task that a request by name is about.
/// Where the name stands for no address the question does not arise.
pub open spec fn permitted_named<T: Config>(
    params: Parameters,
    state: State,
    host: &T,
    origin: Option<PalletsOrigin>,
    id: Seq<u8>,
) -> bool {
    match named_address(params, state, id) {
        Ok(address) => permitted(host, origin, state.task_at(address)),
        Err(_) => true,
    }
}

/// The payload of the task that a request by name is about; an empty call
/// where there is none.
pub open spec fn payload_named(params: Parameters, state: State, id: Seq<u8>) -> CallOrHashView {
    match named_address(params, state, id) {
        Ok(address) => payload_at(state, address),
        Err(_) => CallOrHashView::Value(Seq::empty()),
    }
}

/// The address that a request by name is about: where the name is not too
/// long and is in use, the address it stands for.
pub open spec fn named_address(params: Parameters, state: State, id: Seq<u8>) -> Result<
    TaskAddress,
    Error,
> {
    if id.len() > params.max_schedule_id_len {
        Err(Error::CapacityExceeded)
    } else if !state.lookup.contains_key(id) {
        Err(Error::NotFound)
    } else {
        Ok(state.lookup[id])
    }
}

/// Whether a request to cancel the task with a name succeeds.
pub open spec fn cancel_named_outcome(
    params: Parameters,
    state: State,
    allowed: bool,
    id: Seq<u8>,
) -> Result<(), Error> {
    match named_address(params, state, id) {
        Ok(address) => cancel_outcome(state, allowed, address),
        Err(error) => Err(error),
    }
}

/// The state after a request to cancel the task with a name.
pub open spec fn cancelled_named(
    params: Parameters,
    state: State,
    allowed: bool,
    id: Seq<u8>,
) -> State {
    match named_address(params, state, id) {
        Ok(address) => cancelled(state, allowed, address),
        Err(_) => state,
    }
}

/// Whether a task can move from an address to a slot, and then its new
/// address. The slot must differ from the one it is in, a task must live at
/// the address, and the slot must have room.
pub open spec fn move_outcome(
    params: Parameters,
    state: State,
    address: TaskAddress,
    slot: BlockNumber,
) -> Result<TaskAddress, Error> {
    if slot == address.0 {
        Err(Error::NoOpReschedule)
    } else if state.task_at(address) is None {
        Err(Error::NotFound)
    } else if !has_room(
        state.agenda,
        slot,
        params.max_scheduled_per_block,
        params.max_agendas,
    ) {
        Err(Error::CapacityExceeded)
    } else {
        Ok(state.next_address(slot))
    }
}

/// Whether a request to move the task at an address to another time
/// succeeds, and then its new address.
pub open spec fn reschedule_outcome(
    params: Parameters,
    state: State,
    address: TaskAddress,
    new_time: DispatchTime,
) -> Result<TaskAddress, Error> {
    match resolved_time(state.block_number, new_time) {
        Err(_) => Err(Error::TimeInPast),
        Ok(slot) => move_outcome(params, state, address, slot),
    }
}

/// The state after a task moved from an address to another one: the same
/// task stands at the new address, a gap at the old one, its name, if any,
/// stands for the new address, and a cancellation and a scheduling are
/// noted.
pub open spec fn moved(state: State, address: TaskAddress, to: TaskAddress) -> State {
    state.removed(address).placed(state.task_at(address)->0, to.0).emit(
        EventView::Cancelled { when: address.0, index: address.1 },
    ).emit(EventView::Scheduled { when: to.0, index: to.1 })
}

/// The state after a request to move the task at an address to another
/// time. On failure nothing changes.
pub open spec fn rescheduled(
    params: Parameters,
    state: State,
    address: TaskAddress,
    new_time: DispatchTime,
) -> State {
    match reschedule_outcome(params, state, address, new_time) {
        Ok(to) => moved(state, address, to),
        Err(_) => state,
    }
}

/// Whether a request to move the task with a name to another time
/// succeeds, and then its new address.
pub open spec fn reschedule_named_outcome(
    params: Parameters,
    state: State,
    id: Seq<u8>,
    new_time: DispatchTime,
) -> Result<TaskAddress, Error> {
    if id.len() > params.max_schedule_id_len {
        Err(Error::CapacityExceeded)
    } else {
        match resolved_time(state.block_number, new_time) {
            Err(_) => Err(Error::TimeInPast),
            Ok(slot) => match named_address(params, state, id) {
                Ok(address) => move_outcome(params, state, address, slot),
                Err(error) => Err(error),
            },
        }
    }
}

/// The state after a request to move the task with a name to another time.
/// On failure nothing changes.
pub open spec fn rescheduled_named(
    params: Parameters,
    state: State,
    id: Seq<u8>,
    new_time: DispatchTime,
) -> State {
    match reschedule_named_outcome(params, state, id, new_time) {
        Ok(to) => moved(state, state.lookup[id], to),
        Err(_) => state,
    }
}

/// The outcome of a request, without the address.
pub open spec fn without_address(outcome: Result<TaskAddress, Error>) -> Result<(), Error> {
    match outcome {
        Ok(_) => Ok(()),
        Err(error) => Err(error),
    }
}

/// When the task with a name is due next.
pub open spec fn dispatch_time_of(params: Parameters, state: State, id: Seq<u8>) -> Result<
    BlockNumber,
    (),
> {
    match named_address(params, state, id) {
        Ok(address) => dispatch_time_at(state, address),
        Err(_) => Err(()),
    }
}

/// When a task is due next: the slot of the address, where the address
/// lies within the list of its slot.
pub open spec fn dispatch_time_at(state: State, address: TaskAddress) -> Result<BlockNumber, ()> {
    if address.1 < slot_of(state.agenda, address.0).len() {
        Ok(address.0)
    } else {
        Err(())
    }
}

} // verus!
