//! The order in which the tasks of one slot are served: by priority, and
//! among tasks of one priority by their index in the slot's list.

use vstd::prelude::*;
use vstd::relations::{sorted_by, total_ordering};
use vstd::seq_lib::{group_to_multiset_ensures, lemma_sorted_unique};

use crate::primitives::Priority;
use crate::scheduled::{slot_view, Entry, ScheduledV3};

verus! {

/// What a task is ordered by: its priority, then its index.
pub type Key = (Priority, u32);

/// Whether the first key is served no later than the second.
pub open spec fn key_le(a: Key, b: Key) -> bool {
    a.0 < b.0 || (a.0 == b.0 && a.1 <= b.1)
}

/// The order of service as a relation.
pub open spec fn by_priority() -> spec_fn(Key, Key) -> bool {
    |a: Key, b: Key| key_le(a, b)
}

/// The keys of the tasks in a slot's list, gaps left out, by index.
pub open spec fn due_keys(slot: Seq<Entry>) -> Seq<Key>
    decreases slot.len(),
{
    if slot.len() == 0 {
        Seq::empty()
    } else {
        match slot.last() {
            Some(task) => due_keys(slot.drop_last()).push(
                (task.priority, (slot.len() - 1) as u32),
            ),
            None => due_keys(slot.drop_last()),
        }
    }
}

/// The keys of the tasks in a slot's list in the order in which they are
/// served.
pub open spec fn spec_dispatch_order(slot: Seq<Entry>) -> Seq<Key> {
    due_keys(slot).sort_by(by_priority())
}

/// The order of service is a total order on keys.
pub proof fn lemma_by_priority_total()
    ensures
        total_ordering(by_priority()),
{
    let r = by_priority();
    assert forall|x: Key, y: Key| #[trigger] r(x, y) && #[trigger] r(y, x) implies x == y by {}
    assert forall|x: Key, y: Key, z: Key| #[trigger] r(x, y) && #[trigger] r(y, z) implies r(
        x,
        z,
    ) by {}
    assert forall|x: Key, y: Key| #[trigger] r(x, y) || #[trigger] r(y, x) by {}
    assert forall|x: Key| #[trigger] r(x, x) by {}
}

/// Each key of a slot's list names a task of the list by its index and
/// carries that task's priority, and the indices grow along the keys.
pub proof fn lemma_due_keys(slot: Seq<Entry>)
    requires
        slot.len() <= u32::MAX,
    ensures
        forall|j: int|
            0 <= j < due_keys(slot).len() ==> {
                let key = #[trigger] due_keys(slot)[j];
                &&& key.1 < slot.len()
                &&& slot[key.1 as int] is Some
                &&& slot[key.1 as int]->0.priority == key.0
            },
        forall|i: int, j: int|
            0 <= i < j < due_keys(slot).len() ==> (#[trigger] due_keys(slot)[i]).1 < (
            #[trigger] due_keys(slot)[j]).1,
        forall|i: int|
            0 <= i < slot.len() && (#[trigger] slot[i]) is Some ==> due_keys(slot).contains(
                (slot[i]->0.priority, i as u32),
            ),
        due_keys(slot).no_duplicates(),
        due_keys(slot).len() <= slot.len(),
    decreases slot.len(),
{
    if slot.len() > 0 {
        let front = slot.drop_last();
        lemma_due_keys(front);
        let keys = due_keys(slot);
        let before = due_keys(front);
        assert forall|i: int| 0 <= i < slot.len() && (#[trigger] slot[i]) is Some implies keys.contains(
            (slot[i]->0.priority, i as u32),
        ) by {
            if i < front.len() {
                assert(front[i] == slot[i]);
                let key = (slot[i]->0.priority, i as u32);
                assert(before.contains(key));
                let j = choose|j: int| 0 <= j < before.len() && before[j] == key;
                assert(keys[j] == key);
            } else {
                assert(keys[keys.len() - 1] == (slot[i]->0.priority, i as u32));
            }
        }
        assert forall|j: int| 0 <= j < keys.len() implies {
            let key = #[trigger] keys[j];
            &&& key.1 < slot.len()
            &&& slot[key.1 as int] is Some
            &&& slot[key.1 as int]->0.priority == key.0
        } by {
            if j < before.len() {
                assert(keys[j] == before[j]);
                assert(front[before[j].1 as int] == slot[before[j].1 as int]);
            }
        }
        assert forall|i: int, j: int| 0 <= i < j < keys.len() implies (#[trigger] keys[i]).1 < (
        #[trigger] keys[j]).1 by {
            assert(keys[i] == before[i]);
            if j < before.len() {
                assert(keys[j] == before[j]);
            }
        }
    }
}

/// The order of service holds exactly the keys of the slot's tasks, each
/// once, sorted by priority and then by index.
pub proof fn lemma_dispatch_order(slot: Seq<Entry>)
    requires
        slot.len() <= u32::MAX,
    ensures
        sorted_by(spec_dispatch_order(slot), by_priority()),
        spec_dispatch_order(slot).to_multiset() == due_keys(slot).to_multiset(),
        spec_dispatch_order(slot).len() == due_keys(slot).len(),
        spec_dispatch_order(slot).no_duplicates(),
        forall|key: Key| spec_dispatch_order(slot).contains(key) <==> due_keys(slot).contains(key),
        forall|j: int|
            0 <= j < spec_dispatch_order(slot).len() ==> {
                let key = #[trigger] spec_dispatch_order(slot)[j];
                &&& key.1 < slot.len()
                &&& slot[key.1 as int] is Some
                &&& slot[key.1 as int]->0.priority == key.0
            },
        forall|i: int, j: int|
            0 <= i < j < spec_dispatch_order(slot).len() ==> (#[trigger] spec_dispatch_order(
                slot,
            )[i]).1 != (#[trigger] spec_dispatch_order(slot)[j]).1,
{
    broadcast use group_to_multiset_ensures;

    let due = due_keys(slot);
    let order = spec_dispatch_order(slot);
    lemma_by_priority_total();
    lemma_due_keys(slot);
    due.lemma_sort_by_ensures(by_priority());
    assert(order.to_multiset() == due.to_multiset());
    assert(order.len() == order.to_multiset().len());
    assert(due.len() == due.to_multiset().len());
    due.lemma_multiset_has_no_duplicates();
    order.lemma_multiset_has_no_duplicates_conv();
    assert forall|key: Key| order.contains(key) <==> due.contains(key) by {
        assert(order.contains(key) <==> order.to_multiset().count(key) > 0);
        assert(due.contains(key) <==> due.to_multiset().count(key) > 0);
    }
    assert forall|j: int| 0 <= j < order.len() implies {
        let key = #[trigger] order[j];
        &&& key.1 < slot.len()
        &&& slot[key.1 as int] is Some
        &&& slot[key.1 as int]->0.priority == key.0
    } by {
        assert(order.contains(order[j]));
        let k = choose|k: int| 0 <= k < due.len() && due[k] == order[j];
        assert(due[k] == order[j]);
    }
    assert forall|i: int, j: int| 0 <= i < j < order.len() implies (#[trigger] order[i]).1 != (
    #[trigger] order[j]).1 by {
        if order[i].1 == order[j].1 {
            assert(order[i].0 == slot[order[i].1 as int]->0.priority);
            assert(order[j].0 == slot[order[j].1 as int]->0.priority);
            assert(order[i] == order[j]);
        }
    }
}

/// Computes the order in which the tasks of a slot's list are served.
pub fn dispatch_order(slot: &Vec<Option<ScheduledV3>>) -> (order: Vec<Key>)
    requires
        slot@.len() <= u32::MAX,
    ensures
        order@ == spec_dispatch_order(slot_view(slot@)),
{
    broadcast use group_to_multiset_ensures;

    let ghost entries = slot_view(slot@);
    let mut keys: Vec<Key> = Vec::new();
    let mut i: usize = 0;
    proof {
        assert(entries.subrange(0, 0) =~= Seq::<Entry>::empty());
    }
    while i < slot.len()
        invariant
            i <= slot@.len() <= u32::MAX,
            entries == slot_view(slot@),
            sorted_by(keys@, by_priority()),
            keys@.to_multiset() == due_keys(entries.subrange(0, i as int)).to_multiset(),
            forall|j: int| 0 <= j < keys@.len() ==> (#[trigger] keys@[j]).1 < i,
        decreases slot@.len() - i,
    {
        let ghost upto = entries.subrange(0, i + 1);
        let ghost front = entries.subrange(0, i as int);
        proof {
            assert(upto.drop_last() =~= front);
            assert(upto.last() == entries[i as int]);
        }
        match &slot[i] {
            Some(task) => {
                let key: Key = (task.priority, i as u32);
                let mut p: usize = keys.len();
                while p > 0 && keys[p - 1].0 > key.0
                    invariant
                        p <= keys@.len(),
                        forall|j: int| p <= j < keys@.len() ==> (#[trigger] keys@[j]).0 > key.0,
                    decreases p,
                {
                    p -= 1;
                }
                let ghost before = keys@;
                keys.insert(p, key);
                proof {
                    let after = keys@;
                    assert(after == before.insert(p as int, key));
                    vstd::seq_lib::to_multiset_insert(before, p as int, key);
                    vstd::seq_lib::to_multiset_build(due_keys(front), key);
                    assert(after.to_multiset() =~= before.to_multiset().insert(key));
                    assert(due_keys(upto) == due_keys(front).push(key));
                    assert(due_keys(upto).to_multiset() =~= due_keys(front).to_multiset().insert(
                        key,
                    ));
                    assert forall|a: int, b: int| 0 <= a < b < after.len() implies by_priority()(
                        #[trigger] after[a],
                        #[trigger] after[b],
                    ) by {
                        let a0 = if a < p { a } else { a - 1 };
                        let b0 = if b < p { b } else { b - 1 };
                        if a == p {
                            assert(after[b] == before[b0]);
                        } else if b == p {
                            assert(after[a] == before[a0]);
                            if p > 0 {
                                if a0 < p - 1 {
                                    assert(by_priority()(before[a0], before[p - 1]));
                                }
                            }
                        } else {
                            assert(after[a] == before[a0]);
                            assert(after[b] == before[b0]);
                            assert(by_priority()(before[a0], before[b0]));
                        }
                    }
                    assert forall|j: int| 0 <= j < after.len() implies (#[trigger] after[j]).1 < i
                        + 1 by {
                        if j < p {
                            assert(after[j] == before[j]);
                        } else if j > p {
                            assert(after[j] == before[j - 1]);
                        }
                    }
                }
            },
            None => {
                proof {
                    assert(due_keys(upto) == due_keys(front));
                }
            },
        }
        i += 1;
    }
    proof {
        assert(entries.subrange(0, i as int) =~= entries);
        lemma_by_priority_total();
        lemma_dispatch_order(entries);
        lemma_sorted_unique(keys@, spec_dispatch_order(entries), by_priority());
    }
    keys
}

} // verus!
