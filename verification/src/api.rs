//! The scheduling requests: schedule, cancel and reschedule, by address or
//! by name.

use vstd::prelude::*;

use crate::encoded::{
    fits, payload_of, scale_encoding, CallOrHashOf, CallOrHashView, EncodedCallOrHashOf,
};
use crate::host::{
    may_cancel, noted, permitted, Config, PreimageProviderAndMaybeRecipient,
};
use crate::invariants::{
    lemma_placed_consistent, lemma_removed_consistent, lemma_task_at_vacated,
    lemma_without_name_bounded,
};
use crate::model::{name_at, slot_of};
use crate::pallet::Pallet;
use crate::primitives::{
    bytes_view, BlockNumber, CallHash, DispatchTime, Error, Event, PalletsOrigin, Period,
    Priority, TaskAddress,
};
use crate::requests::{
    cancel_named_outcome, cancel_outcome, cancelled, cancelled_named, dispatch_time_at,
    dispatch_time_of, move_outcome, moved, named_address, normalized, payload_at, payload_named,
    permitted_named, reschedule_named_outcome, reschedule_outcome, rescheduled, rescheduled_named,
    resolved_time, schedule_outcome, scheduled, without_address,
};
use crate::scheduled::ScheduledV3;

verus! {

/// The periodic descriptor that is stored for a requested one.
pub fn normalize(maybe_periodic: Option<Period>) -> (stored: Option<Period>)
    ensures
        stored == normalized(maybe_periodic),
{
    match maybe_periodic {
        Some(periodic) => {
            if periodic.1 > 1 && periodic.0 != 0 {
                Some((periodic.0, periodic.1 - 1))
            } else {
                None
            }
        },
        None => None,
    }
}

/// The hash by which a payload refers to its call, if it does.
pub fn as_hash(call: &CallOrHashOf) -> (hash: Option<CallHash>)
    ensures
        hash == match call@ {
            CallOrHashView::Hash(h) => Some(h),
            CallOrHashView::Value(_) => None,
        },
{
    match call {
        CallOrHashOf::Hash(h) => Some(*h),
        CallOrHashOf::Value(_) => None,
    }
}

impl Pallet {
    /// The slot that a requested time stands for.
    pub fn resolve_time(&self, when: DispatchTime) -> (slot: Result<BlockNumber, Error>)
        ensures
            slot == resolved_time(self@.block_number, when),
    {
        let now = self.block_number();
        let target = match when {
            DispatchTime::At(slot) => slot,
            DispatchTime::After(delay) => now.saturating_add(delay).saturating_add(1),
        };
        if target <= now {
            Err(Error::TimeInPast)
        } else {
            Ok(target)
        }
    }

    /// Schedules a task, under a name if one is given. On success the
    /// payload resolver is asked to keep a call that is given by hash.
    fn schedule_task<P: PreimageProviderAndMaybeRecipient>(
        &mut self,
        preimages: &mut P,
        maybe_id: Option<Vec<u8>>,
        when: DispatchTime,
        maybe_periodic: Option<Period>,
        priority: Priority,
        origin: PalletsOrigin,
        call: CallOrHashOf,
    ) -> (address: Result<TaskAddress, Error>)
        requires
            old(self).wf(),
        ensures
            final(self).wf(),
            final(self).params() == old(self).params(),
            address is Ok ==> payload_of(scale_encoding(call@)) == call@,
            final(preimages).requested()@ == noted(
                old(preimages).requested()@,
                call@,
                address is Ok,
            ),
            final(preimages).released()@ == old(preimages).released()@,
            final(preimages).sought()@ == old(preimages).sought()@,
            address is Err || call@ is Value ==> *final(preimages) == *old(preimages),
            address == schedule_outcome(
                old(self).params(),
                old(self)@,
                bytes_view(maybe_id),
                when,
                call@,
            ),
            final(self)@ == scheduled(
                old(self).params(),
                old(self)@,
                bytes_view(maybe_id),
                when,
                maybe_periodic,
                priority,
                origin,
                call@,
            ),
    {
        let params = self.parameters();
        match &maybe_id {
            Some(id) => {
                if !fits(id.len(), params.max_schedule_id_len) {
                    return Err(Error::CapacityExceeded);
                }
                if self.lookup(id).is_some() {
                    return Err(Error::DuplicateName);
                }
            },
            None => {},
        }
        let slot = match self.resolve_time(when) {
            Ok(slot) => slot,
            Err(error) => {
                return Err(error);
            },
        };
        let hash = as_hash(&call);
        let encoded = match EncodedCallOrHashOf::new(call, params.max_call_len) {
            Ok(encoded) => encoded,
            Err(error) => {
                return Err(error);
            },
        };
        let task = ScheduledV3 {
            maybe_id,
            priority,
            call: encoded,
            maybe_periodic: normalize(maybe_periodic),
            origin,
        };
        proof {
            if self@.can_place(params, task@.named(), slot) {
                lemma_placed_consistent(self@.agenda, self@.lookup, task@, slot);
            }
        }
        match self.place(task, slot) {
            Ok(address) => {
                match hash {
                    Some(h) => {
                        preimages.request(&h);
                    },
                    None => {},
                }
                self.deposit_event(Event::Scheduled { when: address.0, index: address.1 });
                Ok(address)
            },
            Err(_) => Err(Error::CapacityExceeded),
        }
    }

    /// Schedules an anonymous task and returns its address.
    pub fn do_schedule<P: PreimageProviderAndMaybeRecipient>(
        &mut self,
        preimages: &mut P,
        when: DispatchTime,
        maybe_periodic: Option<Period>,
        priority: Priority,
        origin: PalletsOrigin,
        call: CallOrHashOf,
    ) -> (address: Result<TaskAddress, Error>)
        requires
            old(self).wf(),
        ensures
            final(self).wf(),
            final(self).params() == old(self).params(),
            address is Ok ==> payload_of(scale_encoding(call@)) == call@,
            final(preimages).requested()@ == noted(
                old(preimages).requested()@,
                call@,
                address is Ok,
            ),
            final(preimages).released()@ == old(preimages).released()@,
            final(preimages).sought()@ == old(preimages).sought()@,
            address is Err || call@ is Value ==> *final(preimages) == *old(preimages),
            address == schedule_outcome(old(self).params(), old(self)@, None, when, call@),
            final(self)@ == scheduled(
                old(self).params(),
                old(self)@,
                None,
                when,
                maybe_periodic,
                priority,
                origin,
                call@,
            ),
    {
        self.schedule_task(preimages, None, when, maybe_periodic, priority, origin, call)
    }

    /// Schedules a task under a name and returns its address. A name that
    /// is in use is refused.
    pub fn do_schedule_named<P: PreimageProviderAndMaybeRecipient>(
        &mut self,
        preimages: &mut P,
        id: Vec<u8>,
        when: DispatchTime,
        maybe_periodic: Option<Period>,
        priority: Priority,
        origin: PalletsOrigin,
        call: CallOrHashOf,
    ) -> (address: Result<TaskAddress, Error>)
        requires
            old(self).wf(),
        ensures
            final(self).wf(),
            final(self).params() == old(self).params(),
            address is Ok ==> payload_of(scale_encoding(call@)) == call@,
            final(preimages).requested()@ == noted(
                old(preimages).requested()@,
                call@,
                address is Ok,
            ),
            final(preimages).released()@ == old(preimages).released()@,
            final(preimages).sought()@ == old(preimages).sought()@,
            address is Err || call@ is Value ==> *final(preimages) == *old(preimages),
            address == schedule_outcome(old(self).params(), old(self)@, Some(id@), when, call@),
            final(self)@ == scheduled(
                old(self).params(),
                old(self)@,
                Some(id@),
                when,
                maybe_periodic,
                priority,
                origin,
                call@,
            ),
    {
        self.schedule_task(preimages, Some(id), when, maybe_periodic, priority, origin, call)
    }

    /// Cancels the task at an address, given whether the caller is
    /// privileged enough. On success the payload resolver is told that a
    /// call given by hash is no longer referred to.
    pub fn cancel_decided<P: PreimageProviderAndMaybeRecipient>(
        &mut self,
        preimages: &mut P,
        allowed: bool,
        address: TaskAddress,
    ) -> (done: Result<(), Error>)
        requires
            old(self).wf(),
        ensures
            final(self).wf(),
            final(self).params() == old(self).params(),
            final(preimages).released()@ == noted(
                old(preimages).released()@,
                payload_at(old(self)@, address),
                done is Ok,
            ),
            final(preimages).requested()@ == old(preimages).requested()@,
            final(preimages).sought()@ == old(preimages).sought()@,
            done is Err ==> *final(preimages) == *old(preimages),
            done == cancel_outcome(old(self)@, allowed, address),
            final(self)@ == cancelled(old(self)@, allowed, address),
    {
        if self.task(address).is_none() {
            return Err(Error::NotFound);
        }
        if !allowed {
            return Err(Error::Unauthorized);
        }
        proof {
            lemma_removed_consistent(self@.agenda, self@.lookup, address.0, address.1);
        }
        match self.remove(address) {
            Some(task) => {
                match task.call.to_inner() {
                    CallOrHashOf::Hash(h) => {
                        preimages.release(&h);
                    },
                    CallOrHashOf::Value(_) => {},
                }
            },
            None => {},
        }
        self.deposit_event(Event::Cancelled { when: address.0, index: address.1 });
        Ok(())
    }

    /// Asks the host whether a caller may remove the task at an address.
    /// Without a caller, or without a task, nothing is asked and the answer
    /// is yes.
    fn privileged<T: Config>(
        &self,
        host: &T,
        origin: Option<PalletsOrigin>,
        address: TaskAddress,
    ) -> (allowed: bool)
        ensures
            allowed == permitted(host, origin, self@.task_at(address)),
    {
        match origin {
            Some(caller) => match self.task(address) {
                Some(task) => may_cancel(host.compare_privilege(&caller, &task.origin)),
                None => true,
            },
            None => true,
        }
    }

    /// Cancels the task at an address. A caller, if one is given, must be
    /// at least as privileged as the origin of the task; the host compares.
    /// On success the payload resolver is told that a call given by hash is
    /// no longer referred to.
    pub fn do_cancel<T: Config, P: PreimageProviderAndMaybeRecipient>(
        &mut self,
        host: &T,
        preimages: &mut P,
        origin: Option<PalletsOrigin>,
        address: TaskAddress,
    ) -> (done: Result<(), Error>)
        requires
            old(self).wf(),
        ensures
            final(self).wf(),
            final(self).params() == old(self).params(),
            done == cancel_outcome(
                old(self)@,
                permitted(host, origin, old(self)@.task_at(address)),
                address,
            ),
            final(self)@ == cancelled(
                old(self)@,
                permitted(host, origin, old(self)@.task_at(address)),
                address,
            ),
            final(preimages).released()@ == noted(
                old(preimages).released()@,
                payload_at(old(self)@, address),
                done is Ok,
            ),
            final(preimages).requested()@ == old(preimages).requested()@,
            final(preimages).sought()@ == old(preimages).sought()@,
            done is Err ==> *final(preimages) == *old(preimages),
    {
        let allowed = self.privileged(host, origin, address);
        self.cancel_decided(preimages, allowed, address)
    }

    /// Cancels the task with a name, given whether the caller is
    /// privileged enough.
    pub fn cancel_named_decided<P: PreimageProviderAndMaybeRecipient>(
        &mut self,
        preimages: &mut P,
        allowed: bool,
        id: Vec<u8>,
    ) -> (done: Result<(), Error>)
        requires
            old(self).wf(),
        ensures
            final(self).wf(),
            final(self).params() == old(self).params(),
            final(preimages).released()@ == noted(
                old(preimages).released()@,
                payload_named(old(self).params(), old(self)@, id@),
                done is Ok,
            ),
            final(preimages).requested()@ == old(preimages).requested()@,
            final(preimages).sought()@ == old(preimages).sought()@,
            done is Err ==> *final(preimages) == *old(preimages),
            done == cancel_named_outcome(old(self).params(), old(self)@, allowed, id@),
            final(self)@ == cancelled_named(old(self).params(), old(self)@, allowed, id@),
    {
        match self.address_of(&id) {
            Ok(address) => self.cancel_decided(preimages, allowed, address),
            Err(error) => Err(error),
        }
    }

    /// The address that a request by name is about.
    pub fn address_of(&self, id: &Vec<u8>) -> (address: Result<TaskAddress, Error>)
        requires
            self.wf(),
        ensures
            address == named_address(self.params(), self@, id@),
    {
        let params = self.parameters();
        if !fits(id.len(), params.max_schedule_id_len) {
            return Err(Error::CapacityExceeded);
        }
        match self.lookup(id) {
            Some(address) => Ok(address),
            None => Err(Error::NotFound),
        }
    }

    /// Cancels the task with a name. A caller, if one is given, must be at
    /// least as privileged as the origin of the task; the host compares.
    /// On success the payload resolver is told that a call given by hash is
    /// no longer referred to.
    pub fn do_cancel_named<T: Config, P: PreimageProviderAndMaybeRecipient>(
        &mut self,
        host: &T,
        preimages: &mut P,
        origin: Option<PalletsOrigin>,
        id: Vec<u8>,
    ) -> (done: Result<(), Error>)
        requires
            old(self).wf(),
        ensures
            final(self).wf(),
            final(self).params() == old(self).params(),
            done == cancel_named_outcome(
                old(self).params(),
                old(self)@,
                permitted_named(old(self).params(), old(self)@, host, origin, id@),
                id@,
            ),
            final(self)@ == cancelled_named(
                old(self).params(),
                old(self)@,
                permitted_named(old(self).params(), old(self)@, host, origin, id@),
                id@,
            ),
            final(preimages).released()@ == noted(
                old(preimages).released()@,
                payload_named(old(self).params(), old(self)@, id@),
                done is Ok,
            ),
            final(preimages).requested()@ == old(preimages).requested()@,
            final(preimages).sought()@ == old(preimages).sought()@,
            done is Err ==> *final(preimages) == *old(preimages),
    {
        match self.address_of(&id) {
            Ok(address) => {
                let allowed = self.privileged(host, origin, address);
                self.cancel_decided(preimages, allowed, address)
            },
            Err(error) => Err(error),
        }
    }

    /// Moves the task at an address to a slot.
    fn move_task(&mut self, address: TaskAddress, slot: BlockNumber) -> (to: Result<
        TaskAddress,
        Error,
    >)
        requires
            old(self).wf(),
        ensures
            final(self).wf(),
            final(self).params() == old(self).params(),
            to == move_outcome(old(self).params(), old(self)@, address, slot),
            to is Ok ==> final(self)@ == moved(old(self)@, address, to->Ok_0),
            to is Err ==> final(self)@ == old(self)@,
    {
        if slot == address.0 {
            return Err(Error::NoOpReschedule);
        }
        if self.task(address).is_none() {
            return Err(Error::NotFound);
        }
        if !self.can_place(false, slot) {
            return Err(Error::CapacityExceeded);
        }
        let ghost before = self@;
        let ghost params = self.params();
        proof {
            lemma_removed_consistent(before.agenda, before.lookup, address.0, address.1);
            lemma_task_at_vacated(before.agenda, address.0, address.1);
            lemma_without_name_bounded(
                before.lookup,
                name_at(before.agenda, address.0, address.1),
            );
            let gone = before.removed(address);
            assert(slot_of(gone.agenda, slot) == slot_of(before.agenda, slot));
            assert(gone.agenda.dom() =~= before.agenda.dom());
            lemma_placed_consistent(gone.agenda, gone.lookup, before.task_at(address)->0, slot);
        }
        let task = match self.remove(address) {
            Some(task) => task,
            None => vstd::pervasive::unreached(),
        };
        let to = match self.place(task, slot) {
            Ok(to) => to,
            Err(_) => vstd::pervasive::unreached(),
        };
        self.deposit_event(Event::Cancelled { when: address.0, index: address.1 });
        self.deposit_event(Event::Scheduled { when: to.0, index: to.1 });
        Ok(to)
    }

    /// Moves the task at an address to another time and returns its new
    /// address. Moving a task to the slot it is in is refused.
    pub fn do_reschedule(&mut self, address: TaskAddress, new_time: DispatchTime) -> (to: Result<
        TaskAddress,
        Error,
    >)
        requires
            old(self).wf(),
        ensures
            final(self).wf(),
            final(self).params() == old(self).params(),
            to == reschedule_outcome(old(self).params(), old(self)@, address, new_time),
            final(self)@ == rescheduled(old(self).params(), old(self)@, address, new_time),
    {
        match self.resolve_time(new_time) {
            Ok(slot) => self.move_task(address, slot),
            Err(error) => Err(error),
        }
    }

    /// Moves the task with a name to another time and returns its new
    /// address. Moving a task to the slot it is in is refused.
    pub fn do_reschedule_named(&mut self, id: Vec<u8>, new_time: DispatchTime) -> (to: Result<
        TaskAddress,
        Error,
    >)
        requires
            old(self).wf(),
        ensures
            final(self).wf(),
            final(self).params() == old(self).params(),
            to == reschedule_named_outcome(old(self).params(), old(self)@, id@, new_time),
            final(self)@ == rescheduled_named(old(self).params(), old(self)@, id@, new_time),
    {
        let params = self.parameters();
        if !fits(id.len(), params.max_schedule_id_len) {
            return Err(Error::CapacityExceeded);
        }
        let slot = match self.resolve_time(new_time) {
            Ok(slot) => slot,
            Err(error) => {
                return Err(error);
            },
        };
        match self.address_of(&id) {
            Ok(address) => self.move_task(address, slot),
            Err(error) => Err(error),
        }
    }

    /// Schedules an anonymous task at a slot, on behalf of `origin`.
    pub fn schedule<P: PreimageProviderAndMaybeRecipient>(
        &mut self,
        preimages: &mut P,
        origin: PalletsOrigin,
        when: BlockNumber,
        maybe_periodic: Option<Period>,
        priority: Priority,
        call: CallOrHashOf,
    ) -> (done: Result<(), Error>)
        requires
            old(self).wf(),
        ensures
            final(self).wf(),
            final(self).params() == old(self).params(),
            done is Ok ==> payload_of(scale_encoding(call@)) == call@,
            final(preimages).requested()@ == noted(
                old(preimages).requested()@,
                call@,
                done is Ok,
            ),
            final(preimages).released()@ == old(preimages).released()@,
            final(preimages).sought()@ == old(preimages).sought()@,
            done is Err || call@ is Value ==> *final(preimages) == *old(preimages),
            done == without_address(
                schedule_outcome(old(self).params(), old(self)@, None, DispatchTime::At(when), call@),
            ),
            final(self)@ == scheduled(
                old(self).params(),
                old(self)@,
                None,
                DispatchTime::At(when),
                maybe_periodic,
                priority,
                origin,
                call@,
            ),
    {
        match self.do_schedule(preimages, DispatchTime::At(when), maybe_periodic, priority, origin, call) {
            Ok(_) => Ok(()),
            Err(error) => Err(error),
        }
    }

    /// Cancels the task at an address on behalf of `origin`, which must be
    /// at least as privileged as the origin of the task.
    pub fn cancel<T: Config, P: PreimageProviderAndMaybeRecipient>(
        &mut self,
        host: &T,
        preimages: &mut P,
        origin: PalletsOrigin,
        when: BlockNumber,
        index: u32,
    ) -> (done: Result<(), Error>)
        requires
            old(self).wf(),
        ensures
            final(self).wf(),
            final(self).params() == old(self).params(),
            done == cancel_outcome(
                old(self)@,
                permitted(host, Some(origin), old(self)@.task_at((when, index))),
                (when, index),
            ),
            final(self)@ == cancelled(
                old(self)@,
                permitted(host, Some(origin), old(self)@.task_at((when, index))),
                (when, index),
            ),
            final(preimages).released()@ == noted(
                old(preimages).released()@,
                payload_at(old(self)@, (when, index)),
                done is Ok,
            ),
            final(preimages).requested()@ == old(preimages).requested()@,
            final(preimages).sought()@ == old(preimages).sought()@,
            done is Err ==> *final(preimages) == *old(preimages),
    {
        self.do_cancel(host, preimages, Some(origin), (when, index))
    }

    /// Schedules a task under a name at a slot, on behalf of `origin`.
    pub fn schedule_named<P: PreimageProviderAndMaybeRecipient>(
        &mut self,
        preimages: &mut P,
        origin: PalletsOrigin,
        id: Vec<u8>,
        when: BlockNumber,
        maybe_periodic: Option<Period>,
        priority: Priority,
        call: CallOrHashOf,
    ) -> (done: Result<(), Error>)
        requires
            old(self).wf(),
        ensures
            final(self).wf(),
            final(self).params() == old(self).params(),
            done is Ok ==> payload_of(scale_encoding(call@)) == call@,
            final(preimages).requested()@ == noted(
                old(preimages).requested()@,
                call@,
                done is Ok,
            ),
            final(preimages).released()@ == old(preimages).released()@,
            final(preimages).sought()@ == old(preimages).sought()@,
            done is Err || call@ is Value ==> *final(preimages) == *old(preimages),
            done == without_address(
                schedule_outcome(
                    old(self).params(),
                    old(self)@,
                    Some(id@),
                    DispatchTime::At(when),
                    call@,
                ),
            ),
            final(self)@ == scheduled(
                old(self).params(),
                old(self)@,
                Some(id@),
                DispatchTime::At(when),
                maybe_periodic,
                priority,
                origin,
                call@,
            ),
    {
        match self.do_schedule_named(
            preimages,
            id,
            DispatchTime::At(when),
            maybe_periodic,
            priority,
            origin,
            call,
        ) {
            Ok(_) => Ok(()),
            Err(error) => Err(error),
        }
    }

    /// Cancels the task with a name on behalf of `origin`, which must be at
    /// least as privileged as the origin of the task.
    pub fn cancel_named<T: Config, P: PreimageProviderAndMaybeRecipient>(
        &mut self,
        host: &T,
        preimages: &mut P,
        origin: PalletsOrigin,
        id: Vec<u8>,
    ) -> (done: Result<(), Error>)
        requires
            old(self).wf(),
        ensures
            final(self).wf(),
            final(self).params() == old(self).params(),
            done == cancel_named_outcome(
                old(self).params(),
                old(self)@,
                permitted_named(old(self).params(), old(self)@, host, Some(origin), id@),
                id@,
            ),
            final(self)@ == cancelled_named(
                old(self).params(),
                old(self)@,
                permitted_named(old(self).params(), old(self)@, host, Some(origin), id@),
                id@,
            ),
            final(preimages).released()@ == noted(
                old(preimages).released()@,
                payload_named(old(self).params(), old(self)@, id@),
                done is Ok,
            ),
            final(preimages).requested()@ == old(preimages).requested()@,
            final(preimages).sought()@ == old(preimages).sought()@,
            done is Err ==> *final(preimages) == *old(preimages),
    {
        self.do_cancel_named(host, preimages, Some(origin), id)
    }

    /// Schedules an anonymous task after a delay, on behalf of `origin`.
    pub fn schedule_after<P: PreimageProviderAndMaybeRecipient>(
        &mut self,
        preimages: &mut P,
        origin: PalletsOrigin,
        after: BlockNumber,
        maybe_periodic: Option<Period>,
        priority: Priority,
        call: CallOrHashOf,
    ) -> (done: Result<(), Error>)
        requires
            old(self).wf(),
        ensures
            final(self).wf(),
            final(self).params() == old(self).params(),
            done is Ok ==> payload_of(scale_encoding(call@)) == call@,
            final(preimages).requested()@ == noted(
                old(preimages).requested()@,
                call@,
                done is Ok,
            ),
            final(preimages).released()@ == old(preimages).released()@,
            final(preimages).sought()@ == old(preimages).sought()@,
            done is Err || call@ is Value ==> *final(preimages) == *old(preimages),
            done == without_address(
                schedule_outcome(
                    old(self).params(),
                    old(self)@,
                    None,
                    DispatchTime::After(after),
                    call@,
                ),
            ),
            final(self)@ == scheduled(
                old(self).params(),
                old(self)@,
                None,
                DispatchTime::After(after),
                maybe_periodic,
                priority,
                origin,
                call@,
            ),
    {
        match self.do_schedule(
            preimages,
            DispatchTime::After(after),
            maybe_periodic,
            priority,
            origin,
            call,
        ) {
            Ok(_) => Ok(()),
            Err(error) => Err(error),
        }
    }

    /// Schedules a task under a name after a delay, on behalf of `origin`.
    pub fn schedule_named_after<P: PreimageProviderAndMaybeRecipient>(
        &mut self,
        preimages: &mut P,
        origin: PalletsOrigin,
        id: Vec<u8>,
        after: BlockNumber,
        maybe_periodic: Option<Period>,
        priority: Priority,
        call: CallOrHashOf,
    ) -> (done: Result<(), Error>)
        requires
            old(self).wf(),
        ensures
            final(self).wf(),
            final(self).params() == old(self).params(),
            done is Ok ==> payload_of(scale_encoding(call@)) == call@,
            final(preimages).requested()@ == noted(
                old(preimages).requested()@,
                call@,
                done is Ok,
            ),
            final(preimages).released()@ == old(preimages).released()@,
            final(preimages).sought()@ == old(preimages).sought()@,
            done is Err || call@ is Value ==> *final(preimages) == *old(preimages),
            done == without_address(
                schedule_outcome(
                    old(self).params(),
                    old(self)@,
                    Some(id@),
                    DispatchTime::After(after),
                    call@,
                ),
            ),
            final(self)@ == scheduled(
                old(self).params(),
                old(self)@,
                Some(id@),
                DispatchTime::After(after),
                maybe_periodic,
                priority,
                origin,
                call@,
            ),
    {
        match self.do_schedule_named(
            preimages,
            id,
            DispatchTime::After(after),
            maybe_periodic,
            priority,
            origin,
            call,
        ) {
            Ok(_) => Ok(()),
            Err(error) => Err(error),
        }
    }

    /// Moves the task at an address to another time.
    pub fn reschedule(&mut self, address: TaskAddress, when: DispatchTime) -> (to: Result<
        TaskAddress,
        Error,
    >)
        requires
            old(self).wf(),
        ensures
            final(self).wf(),
            final(self).params() == old(self).params(),
            to == reschedule_outcome(old(self).params(), old(self)@, address, when),
            final(self)@ == rescheduled(old(self).params(), old(self)@, address, when),
    {
        self.do_reschedule(address, when)
    }

    /// Moves the task with a name to another time.
    pub fn reschedule_named(&mut self, id: Vec<u8>, when: DispatchTime) -> (to: Result<
        TaskAddress,
        Error,
    >)
        requires
            old(self).wf(),
        ensures
            final(self).wf(),
            final(self).params() == old(self).params(),
            to == reschedule_named_outcome(old(self).params(), old(self)@, id@, when),
            final(self)@ == rescheduled_named(old(self).params(), old(self)@, id@, when),
    {
        self.do_reschedule_named(id, when)
    }

    /// When the task at an address is due next.
    pub fn next_dispatch_time(&self, address: TaskAddress) -> (due: Result<BlockNumber, ()>)
        ensures
            due == dispatch_time_at(self@, address),
    {
        if (address.1 as usize) < self.agenda_len(address.0) {
            Ok(address.0)
        } else {
            Err(())
        }
    }

    /// When the task with a name is due next.
    pub fn next_dispatch_time_named(&self, id: Vec<u8>) -> (due: Result<BlockNumber, ()>)
        requires
            self.wf(),
        ensures
            due == dispatch_time_of(self.params(), self@, id@),
    {
        match self.address_of(&id) {
            Ok(address) => self.next_dispatch_time(address),
            Err(_) => Err(()),
        }
    }
}

} // verus!
