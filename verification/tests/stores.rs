use pallet_scheduler::order::dispatch_order;
use pallet_scheduler::primitives::{bytes_eq, clone_bytes, clone_id};
use pallet_scheduler::{
    Agenda, CallOrHashOf, EncodedCallOrHashOf, Event, LinearWeight, Lookup, Pallet, Parameters,
    PreimageProviderAndMaybeRecipient, ScheduledV3, WeightInfo,
};

/// A resolver that has no calls and keeps a record of what it was asked.
struct Record {
    requested: Vec<[u8; 32]>,
    released: Vec<[u8; 32]>,
    sought: Vec<[u8; 32]>,
}

impl PreimageProviderAndMaybeRecipient for Record {
    fn requested(&self) -> Vec<[u8; 32]> {
        self.requested.clone()
    }

    fn released(&self) -> Vec<[u8; 32]> {
        self.released.clone()
    }

    fn sought(&self) -> Vec<[u8; 32]> {
        self.sought.clone()
    }

    fn request(&mut self, hash: &[u8; 32]) {
        self.requested.push(*hash);
    }

    fn release(&mut self, hash: &[u8; 32]) {
        self.released.push(*hash);
    }

    fn resolve(&mut self, hash: &[u8; 32]) -> Option<(Vec<u8>, bool)> {
        self.sought.push(*hash);
        None
    }
}

fn hashed(hash: [u8; 32]) -> ScheduledV3 {
    ScheduledV3 {
        maybe_id: None,
        priority: 1,
        call: EncodedCallOrHashOf::new(CallOrHashOf::Hash(hash), 64).unwrap(),
        maybe_periodic: None,
        origin: 0,
    }
}

fn task(priority: u8, tag: u8) -> ScheduledV3 {
    ScheduledV3 {
        maybe_id: None,
        priority,
        call: EncodedCallOrHashOf::new(CallOrHashOf::Value(vec![tag]), 16).unwrap(),
        maybe_periodic: None,
        origin: 0,
    }
}

fn named(id: &str, priority: u8) -> ScheduledV3 {
    ScheduledV3 { maybe_id: Some(id.as_bytes().to_vec()), ..task(priority, 0) }
}

fn flat() -> WeightInfo {
    let line = LinearWeight { base: 0, per_item: 1 };
    WeightInfo {
        on_initialize: line,
        on_initialize_named: line,
        on_initialize_periodic: line,
        on_initialize_periodic_named: line,
        on_initialize_resolved: line,
        on_initialize_named_resolved: line,
        on_initialize_periodic_resolved: line,
        on_initialize_periodic_named_resolved: line,
        on_initialize_aborted: line,
        on_initialize_named_aborted: line,
    }
}

fn small() -> Parameters {
    Parameters {
        maximum_weight: 10,
        max_scheduled_per_block: 2,
        max_agendas: Some(2),
        max_schedules: Some(1),
        max_schedule_id_len: 4,
        max_call_len: 16,
        no_preimage_postponement: Some(3),
        weight_info: flat(),
    }
}

#[test]
fn agenda_appends_up_to_its_bounds() {
    let mut agenda = Agenda::new(2, Some(2));
    assert_eq!(agenda.count(), 0);
    assert_eq!(agenda.decode_len(5), 0);
    assert!(agenda.can_append(5));
    assert_eq!(agenda.try_append(5, task(1, 1)), Ok(0));
    assert_eq!(agenda.try_append(5, task(2, 2)), Ok(1));
    assert!(!agenda.can_append(5));
    assert_eq!(agenda.try_append(5, task(3, 3)), Err(task(3, 3)));
    assert_eq!(agenda.decode_len(5), 2);
    assert_eq!(agenda.try_append(6, task(4, 4)), Ok(0));
    assert_eq!(agenda.try_append(7, task(5, 5)), Err(task(5, 5)));
    assert_eq!(agenda.count(), 2);
    assert_eq!(agenda.get(5, 1), Some(&task(2, 2)));
    assert_eq!(agenda.get(5, 2), None);
    assert_eq!(agenda.get(8, 0), None);
}

#[test]
fn agenda_without_room_for_any_task() {
    let mut agenda = Agenda::new(0, None);
    assert!(!agenda.can_append(1));
    assert_eq!(agenda.try_append(1, task(1, 1)), Err(task(1, 1)));
    assert_eq!(agenda.count(), 0);
}

#[test]
fn agenda_take_at_leaves_a_gap() {
    let mut agenda = Agenda::new(3, None);
    agenda.try_append(5, task(1, 1)).unwrap();
    agenda.try_append(5, task(2, 2)).unwrap();
    assert_eq!(agenda.take_at(5, 0), Some(task(1, 1)));
    assert_eq!(agenda.take_at(5, 0), None);
    assert_eq!(agenda.take_at(5, 9), None);
    assert_eq!(agenda.take_at(6, 0), None);
    assert_eq!(agenda.decode_len(5), 2);
    assert_eq!(agenda.get(5, 1), Some(&task(2, 2)));
    assert_eq!(agenda.try_append(5, task(3, 3)), Ok(2));
    assert_eq!(agenda.take(5), vec![None, Some(task(2, 2)), Some(task(3, 3))]);
    assert_eq!(agenda.count(), 0);
    assert_eq!(agenda.take(5), vec![]);
}

#[test]
fn lookup_keeps_one_address_for_each_name() {
    let mut lookup = Lookup::new();
    assert_eq!(lookup.len(), 0);
    lookup.insert(b"a".to_vec(), (1, 0));
    lookup.insert(b"b".to_vec(), (2, 1));
    lookup.insert(b"a".to_vec(), (3, 2));
    assert_eq!(lookup.len(), 2);
    assert_eq!(lookup.get(&b"a".to_vec()), Some((3, 2)));
    assert_eq!(lookup.get(&b"b".to_vec()), Some((2, 1)));
    assert_eq!(lookup.get(&b"c".to_vec()), None);
    assert!(lookup.contains_key(&b"b".to_vec()));
    lookup.remove(&b"c".to_vec());
    assert_eq!(lookup.len(), 2);
    lookup.remove(&b"a".to_vec());
    assert_eq!(lookup.len(), 1);
    assert!(!lookup.contains_key(&b"a".to_vec()));
    assert_eq!(lookup.get(&b"b".to_vec()), Some((2, 1)));
    lookup.insert(Vec::new(), (4, 4));
    assert_eq!(lookup.get(&Vec::new()), Some((4, 4)));
}

#[test]
fn dispatch_order_sorts_by_priority_then_index() {
    let slot = vec![
        Some(task(5, 0)),
        None,
        Some(task(1, 0)),
        Some(task(5, 0)),
        Some(task(3, 0)),
        None,
        Some(task(1, 0)),
    ];
    assert_eq!(dispatch_order(&slot), vec![(1, 2), (1, 6), (3, 4), (5, 0), (5, 3)]);
    assert_eq!(dispatch_order(&vec![None, None]), vec![]);
    assert_eq!(dispatch_order(&Vec::new()), vec![]);
}

#[test]
fn byte_strings_are_copied_and_compared() {
    let bytes = vec![1u8, 2, 3];
    assert_eq!(clone_bytes(&bytes), bytes);
    assert_eq!(clone_bytes(&Vec::new()), Vec::<u8>::new());
    assert_eq!(clone_id(&Some(bytes.clone())), Some(bytes.clone()));
    assert_eq!(clone_id(&None), None);
    assert!(bytes_eq(&bytes, &vec![1, 2, 3]));
    assert!(!bytes_eq(&bytes, &vec![1, 2, 4]));
    assert!(!bytes_eq(&bytes, &vec![1, 2]));
    assert!(bytes_eq(&Vec::new(), &Vec::new()));
}

#[test]
fn put_back_places_the_task_or_notes_the_drop() {
    let mut pre = Record { requested: Vec::new(), released: Vec::new(), sought: Vec::new() };
    let mut pallet = Pallet::new(small());
    pallet.put_back(&mut pre, (4, 1), named("n", 1), 5, true);
    assert_eq!(pallet.lookup(&b"n".to_vec()), Some((5, 0)));
    assert!(pallet.events().is_empty());
    // the name index is full
    pallet.put_back(&mut pre, (4, 2), named("m", 1), 5, true);
    assert_eq!(pallet.events()[..], [Event::Cancelled { when: 4, index: 2 }]);
    assert_eq!(pallet.agenda_len(5), 1);
    // the slot that is being served takes nothing
    pallet.put_back(&mut pre, (4, 3), task(1, 1), 4, true);
    assert_eq!(pallet.events().len(), 2);
    assert_eq!(pallet.agenda_len(4), 0);
    // the slot is full
    pallet.put_back(&mut pre, (4, 4), task(1, 1), 5, true);
    pallet.put_back(&mut pre, (4, 5), task(1, 1), 5, true);
    assert_eq!(pallet.events().len(), 3);
    assert_eq!(pallet.agenda_len(5), 2);
    // there are too many slots
    pallet.put_back(&mut pre, (4, 6), task(1, 1), 6, true);
    pallet.put_back(&mut pre, (4, 7), task(1, 1), 7, true);
    assert_eq!(pallet.events().len(), 4);
    assert_eq!(pallet.agenda_count(), 2);
    // nothing so far referred to a call by hash
    assert!(pre.released().is_empty());
    // a dropped task lets go of its hash, unless that was done before
    pallet.put_back(&mut pre, (4, 8), hashed([1u8; 32]), 5, true);
    pallet.put_back(&mut pre, (4, 9), hashed([2u8; 32]), 5, false);
    assert_eq!(pre.released(), vec![[1u8; 32]]);
    assert!(pre.requested().is_empty());
    assert_eq!(pallet.events().len(), 6);
}

#[test]
fn put_back_keeps_the_hash_of_a_task_that_is_placed() {
    let mut pre = Record { requested: Vec::new(), released: Vec::new(), sought: Vec::new() };
    let mut params = small();
    params.max_call_len = 64;
    let mut pallet = Pallet::new(params);
    pallet.put_back(&mut pre, (4, 0), hashed([3u8; 32]), 6, true);
    assert!(pallet.task((6, 0)).is_some());
    assert!(pre.released().is_empty());
    assert!(pallet.events().is_empty());
}
