//! Serving a slot: every task that is due is resolved, admitted against the
//! budget, run by the host and, where it is owed more runs or could not be
//! run, put back into a later slot.

use vstd::prelude::*;

use crate::encoded::CallOrHashOf;
use crate::engine::{
    dropped_hash, freed, freed_by, is_ticked, lemma_served_prefix, lemma_told_prefix, let_go,
    put_back, ran, run_of, served, serviced, sought, sought_by, spec_admits, ticked, turns,
    with_more, Answer, Told,
};
use crate::host::{runs_view, Config, PreimageProviderAndMaybeRecipient};
use crate::laws::law_served_slot_is_drained;
use crate::model::{names_consistent, slot_of, state_bounded, task_at, task_fits};
use crate::order::{dispatch_order, lemma_dispatch_order, lemma_due_keys, spec_dispatch_order};
use crate::pallet::Pallet;
use crate::primitives::{
    clone_id, frame_hard_deadline, BlockNumber, Event, Priority, TaskAddress, Weight,
};
use crate::scheduled::{slot_view, Parameters, ScheduledV3};
use crate::service_proofs::{
    lemma_entered_consistent, lemma_left_consistent, lemma_put_back_wf,
    lemma_serviced_consistent, lemma_serviced_wf, name_is_free, with_remainder,
};

verus! {

/// Whether a task is run in this slot: it has the hard deadline priority,
/// or it is the first to be served, or the budget covers it.
pub fn admits(
    priority: Priority,
    position: usize,
    spent: Weight,
    item_cost: Weight,
    call_weight: Weight,
    limit: Weight,
) -> (admitted: bool)
    ensures
        admitted == spec_admits(priority, position as nat, spent, item_cost, call_weight, limit),
{
    priority == frame_hard_deadline() || position == 0 || spent.saturating_add(
        call_weight,
    ).saturating_add(item_cost) <= limit
}

/// Asks the surroundings about one task that is due. The resolver is asked
/// for a payload given by hash, and told to let the hash go where it
/// reports that no other task refers to it. Where the payload is at hand
/// and the task is admitted, the host is asked to run the call. Returned
/// are what they answered and the content that the resolver gave.
fn ask<T: Config, P: PreimageProviderAndMaybeRecipient>(
    host: &mut T,
    preimages: &mut P,
    params: &Parameters,
    task: &ScheduledV3,
    position: usize,
    spent: Weight,
) -> (told: (Answer, Ghost<Seq<u8>>))
    ensures
        runs_view(final(host).dispatched()@) == with_more(
            runs_view(old(host).dispatched()@),
            run_of(*params, task@, position as nat, spent, told.0, told.1@),
        ),
        final(preimages).released()@ == with_more(
            old(preimages).released()@,
            freed_by(task@, told.0),
        ),
        final(preimages).sought()@ == with_more(old(preimages).sought()@, sought_by(task@)),
        final(preimages).requested()@ == old(preimages).requested()@,
{
    let mut answer = Answer {
        resolution: None,
        call_weight: 0,
        result: Ok(()),
        actual_weight: None,
    };
    let resolved = match task.call.to_inner() {
        CallOrHashOf::Value(call) => Some((call, false)),
        CallOrHashOf::Hash(hash) => {
            let found = preimages.resolve(&hash);
            match &found {
                Some(content) => {
                    if content.1 {
                        preimages.release(&hash);
                    }
                },
                None => {},
            }
            found
        },
    };
    let ghost mut given: Seq<u8> = Seq::empty();
    match resolved {
        Some(content) => {
            proof {
                given = content.0@;
            }
            answer.resolution = Some(content.1);
            answer.call_weight = host.call_weight(&content.0);
            let item_cost = params.weight_info.item(
                task.maybe_periodic.is_some(),
                task.maybe_id.is_some(),
                Some(content.1),
            );
            if admits(
                task.priority,
                position,
                spent,
                item_cost,
                answer.call_weight,
                params.maximum_weight,
            ) {
                let post = host.dispatch(content.0, task.origin);
                answer.result = post.result;
                answer.actual_weight = post.actual_weight;
            }
        },
        None => {},
    }
    (answer, Ghost(given))
}

/// What the surroundings remember of having been asked.
pub open spec fn told<T: Config, P: PreimageProviderAndMaybeRecipient>(
    host: &T,
    preimages: &P,
) -> Told {
    Told {
        runs: runs_view(host.dispatched()@),
        released: preimages.released()@,
        sought: preimages.sought()@,
    }
}

impl Pallet {
    /// Serves the slot `now`: takes its list out of the agenda and serves
    /// its tasks in the order of their priority, asking the surroundings
    /// about each. Returns the weight spent. Whatever they answer, the
    /// state, the weight, the runs that the host was asked for and the
    /// hashes that the resolver was told to let go are those that the model
    /// gives for these answers.
    pub fn on_initialize<T: Config, P: PreimageProviderAndMaybeRecipient>(
        &mut self,
        host: &mut T,
        preimages: &mut P,
        now: BlockNumber,
    ) -> (spent: Weight)
        requires
            old(self).wf(),
        ensures
            final(self).wf(),
            final(self).params() == old(self).params(),
            is_ticked(
                old(self).params(),
                old(self)@,
                now,
                final(self)@,
                spent,
                told(old(host), old(preimages)),
                told(final(host), final(preimages)),
            ),
            final(preimages).requested()@ == old(preimages).requested()@,
            final(self)@.block_number == now,
            !final(self)@.agenda.contains_key(now),
    {
        let params = self.parameters();
        let ghost before = self@;
        let ghost list = slot_of(before.agenda, now);
        let mut slot = self.drain(now);
        proof {
            assert(list.len() <= u32::MAX) by {
                if before.agenda.contains_key(now) {
                    assert(before.agenda[now].len() <= params.max_scheduled_per_block);
                }
            }
            assert(slot_view(slot@).len() == slot@.len());
            lemma_dispatch_order(list);
            lemma_due_keys(list);
            lemma_entered_consistent(before.agenda, before.lookup, now);
        }
        let order = dispatch_order(&slot);
        let mut total = params.weight_info.base();
        let ghost mut answers: Seq<Answer> = Seq::empty();
        let ghost mut contents: Seq<Seq<u8>> = Seq::empty();
        let ghost runs = runs_view(host.dispatched()@);
        let ghost released = preimages.released()@;
        let ghost looked_up = preimages.sought()@;
        let mut position: usize = 0;
        while position < order.len()
            invariant
                position <= order@.len(),
                order@ == spec_dispatch_order(list),
                list == slot_of(before.agenda, now),
                list.len() <= u32::MAX,
                slot@.len() == list.len(),
                self.bounded(),
                self.params() == params,
                state_bounded(params, before),
                answers.len() == position,
                contents.len() == position,
                preimages.requested()@ == old(preimages).requested()@,
                preimages.sought()@ == sought(before, now, looked_up, position as nat),
                runs_view(host.dispatched()@) == ran(
                    params,
                    before,
                    now,
                    answers,
                    contents,
                    runs,
                    position as nat,
                ),
                preimages.released()@ == freed(
                    params,
                    before,
                    now,
                    answers,
                    released,
                    position as nat,
                ),
                (self@, total) == served(params, before, now, answers, position as nat),
                !self@.agenda.contains_key(now),
                names_consistent(with_remainder(self@.agenda, now, slot_view(slot@)), self@.lookup),
                forall|i: int|
                    0 <= i < slot@.len() && (#[trigger] slot_view(slot@)[i]) is Some ==> slot_view(
                        slot@,
                    )[i] == list[i] && exists|j: int|
                        position <= j < order@.len() && (#[trigger] order@[j]).1 == i,
                forall|j: int|
                    position <= j < order@.len() ==> (#[trigger] order@[j]).1 < list.len()
                        && slot_view(slot@)[order@[j].1 as int] == list[order@[j].1 as int],
            decreases order@.len() - position,
        {
            proof {
                lemma_dispatch_order(list);
            }
            let index: u32 = order[position].1;
            let ghost rest = slot_view(slot@);
            let place = &mut slot[index as usize];
            let taken = place.take();
            let task = match taken {
                Some(task) => task,
                None => vstd::pervasive::unreached(),
            };
            proof {
                assert(slot_view(slot@) =~= rest.update(index as int, None));
                assert(task_at(before.agenda, now, index) == Some(task@));
            }
            let (answer, given) = ask(host, preimages, &params, &task, position, total);
            let ghost state = self@;
            let ghost task_view = task@;
            let ghost earlier = total;
            total = self.service_task(preimages, total, (now, index), position, task, answer);
            proof {
                lemma_serviced_consistent(
                    params,
                    state,
                    earlier,
                    (now, index),
                    position as nat,
                    task_view,
                    answer,
                    rest,
                );
                let more = answers.push(answer);
                let more_contents = contents.push(given@);
                lemma_served_prefix(params, before, now, answers, more, position as nat);
                lemma_told_prefix(
                    params,
                    before,
                    now,
                    answers,
                    more,
                    contents,
                    more_contents,
                    runs,
                    released,
                    position as nat,
                );
                answers = more;
                contents = more_contents;
                assert forall|i: int|
                    0 <= i < slot@.len() && (#[trigger] slot_view(slot@)[i]) is Some implies slot_view(
                    slot@,
                )[i] == list[i] && exists|j: int|
                    position + 1 <= j < order@.len() && (#[trigger] order@[j]).1 == i by {
                    assert(rest[i] is Some);
                    let j = choose|j: int|
                        position <= j < order@.len() && (#[trigger] order@[j]).1 == i;
                    assert(j != position);
                    assert(order@[j].1 == i);
                }
            }
            position += 1;
        }
        proof {
            assert forall|i: int| 0 <= i < slot_view(slot@).len() implies slot_view(
                slot@,
            )[i] is None by {
                if slot_view(slot@)[i] is Some {
                    let j = choose|j: int|
                        position <= j < order@.len() && (#[trigger] order@[j]).1 == i;
                }
            }
            lemma_left_consistent(self@.agenda, self@.lookup, now, slot_view(slot@));
            law_served_slot_is_drained(params, before, now, answers, position as nat);
            assert(ticked(params, before, now, answers) == (self@, total));
            assert(position == turns(before, now));
            let seen = told(old(host), old(preimages));
            let seen_after = told(host, preimages);
            assert(ran(params, before, now, answers, contents, seen.runs, turns(before, now))
                == seen_after.runs);
            assert(freed(params, before, now, answers, seen.released, turns(before, now))
                == seen_after.released);
            assert(sought(before, now, seen.sought, turns(before, now)) == seen_after.sought);
            assert(is_ticked(params, before, now, self@, total, seen, seen_after));
        }
        total
    }

    /// Puts a task that was taken from `address` back into the agenda, into
    /// the slot `when`. Where that slot is the one being served or has no
    /// room, the task is dropped and the drop is noted; the resolver is then
    /// told to let go of a payload given by hash that it still keeps for
    /// the task, which `held` says. The name index and the agenda stay in
    /// agreement where the name of the task is free.
    pub fn put_back<P: PreimageProviderAndMaybeRecipient>(
        &mut self,
        preimages: &mut P,
        address: TaskAddress,
        task: ScheduledV3,
        when: BlockNumber,
        held: bool,
    )
        requires
            old(self).bounded(),
            task_fits(old(self).params(), task@),
        ensures
            final(self).bounded(),
            final(self).params() == old(self).params(),
            final(self)@ == put_back(old(self).params(), old(self)@, address, task@, when),
            final(preimages).released()@ == with_more(
                old(preimages).released()@,
                let_go(old(self).params(), old(self)@, address, task@, when, held),
            ),
            final(preimages).requested()@ == old(preimages).requested()@,
            final(preimages).sought()@ == old(preimages).sought()@,
            old(self).wf() && name_is_free(old(self)@, task@) ==> final(self).wf(),
    {
        proof {
            if self.wf() && name_is_free(self@, task@) {
                lemma_put_back_wf(self.params(), self@, address, task@, when);
            }
        }
        let dropped = if when != address.0 {
            match self.place(task, when) {
                Ok(_) => {
                    return ;
                },
                Err(task) => task,
            }
        } else {
            task
        };
        if held {
            match dropped.call.to_inner() {
                CallOrHashOf::Hash(hash) => {
                    preimages.release(&hash);
                },
                CallOrHashOf::Value(_) => {},
            }
        }
        self.deposit_event(Event::Cancelled { when: address.0, index: address.1 });
    }

    /// Serves one task that was taken from `address`, given what the host
    /// answered about it: frees its name, then postpones it, defers it or
    /// notes its run and re-enqueues it. Returns the weight spent so far.
    /// The name index and the agenda stay in agreement where the name of
    /// the task was free.
    pub fn service_task<P: PreimageProviderAndMaybeRecipient>(
        &mut self,
        preimages: &mut P,
        spent: Weight,
        address: TaskAddress,
        position: usize,
        task: ScheduledV3,
        answer: Answer,
    ) -> (total: Weight)
        requires
            old(self).bounded(),
            task_fits(old(self).params(), task@),
        ensures
            final(self).bounded(),
            final(self).params() == old(self).params(),
            final(preimages).released()@ == with_more(
                old(preimages).released()@,
                dropped_hash(
                    old(self).params(),
                    old(self)@,
                    spent,
                    address,
                    position as nat,
                    task@,
                    answer,
                ),
            ),
            final(preimages).requested()@ == old(preimages).requested()@,
            final(preimages).sought()@ == old(preimages).sought()@,
            old(self).wf() && name_is_free(old(self)@, task@) ==> final(self).wf(),
            final(self)@ == serviced(
                old(self).params(),
                old(self)@,
                spent,
                address,
                position as nat,
                task@,
                answer,
            ).0,
            total == serviced(
                old(self).params(),
                old(self)@,
                spent,
                address,
                position as nat,
                task@,
                answer,
            ).1,
    {
        proof {
            if self.wf() && name_is_free(self@, task@) {
                lemma_serviced_wf(
                    self.params(),
                    self@,
                    spent,
                    address,
                    position as nat,
                    task@,
                    answer,
                );
            }
        }
        self.forget(&task.maybe_id);
        let params = self.parameters();
        let held = match task.call.to_inner() {
            CallOrHashOf::Hash(_) => match answer.resolution {
                Some(released) => !released,
                None => true,
            },
            CallOrHashOf::Value(_) => false,
        };
        let named = task.maybe_id.is_some();
        let resolution = match task.call.to_inner() {
            CallOrHashOf::Value(_) => Some(false),
            CallOrHashOf::Hash(_) => answer.resolution,
        };
        match resolution {
            None => {
                let total = spent.saturating_add(params.weight_info.item(false, named, None));
                self.deposit_event(
                    Event::LookupFailed { task: address, id: clone_id(&task.maybe_id) },
                );
                match params.no_preimage_postponement {
                    Some(delay) => {
                        self.put_back(
                            preimages,
                            address,
                            task,
                            address.0.saturating_add(delay),
                            held,
                        );
                    },
                    None => {},
                }
                total
            },
            Some(released) => {
                let periodic = task.maybe_periodic.is_some();
                let item_cost = params.weight_info.item(periodic, named, Some(released));
                if admits(
                    task.priority,
                    position,
                    spent,
                    item_cost,
                    answer.call_weight,
                    params.maximum_weight,
                ) {
                    let actual = match answer.actual_weight {
                        Some(weight) => weight,
                        None => answer.call_weight,
                    };
                    let total = spent.saturating_add(item_cost).saturating_add(actual);
                    self.deposit_event(
                        Event::Dispatched {
                            task: address,
                            id: clone_id(&task.maybe_id),
                            result: answer.result,
                        },
                    );
                    match task.maybe_periodic {
                        Some(periodic) => {
                            let mut again = task;
                            again.maybe_periodic = if periodic.1 > 1 {
                                Some((periodic.0, periodic.1 - 1))
                            } else {
                                None
                            };
                            self.put_back(
                                preimages,
                                address,
                                again,
                                address.0.saturating_add(periodic.0),
                                held,
                            );
                        },
                        None => {},
                    }
                    total
                } else {
                    let total = spent.saturating_add(params.weight_info.item(false, named, None));
                    self.put_back(preimages, address, task, address.0.saturating_add(1), held);
                    total
                }
            },
        }
    }
}

} // verus!
