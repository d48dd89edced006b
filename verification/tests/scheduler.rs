use pallet_scheduler::host::{equal_privilege_only, may_cancel};
use pallet_scheduler::service::admits;
use pallet_scheduler::{
    Answer, CallOrHashOf, Config, DispatchError, DispatchTime, EncodedCallOrHashOf, Error, Event,
    LinearWeight, Pallet, Parameters, PostDispatchInfo, PreimageProviderAndMaybeRecipient,
    Privilege, ScheduledV3, WeightInfo,
};

const ROOT: u64 = 0;
const ALICE: u64 = 1;
const BOB: u64 = 2;

/// A resolver that keeps a table of calls by hash and a record of what it
/// was asked.
struct Preimages {
    preimages: Vec<([u8; 32], Vec<u8>, bool)>,
    requested: Vec<[u8; 32]>,
    released: Vec<[u8; 32]>,
    sought: Vec<[u8; 32]>,
}

impl Preimages {
    fn new() -> Preimages {
        Preimages {
            preimages: Vec::new(),
            requested: Vec::new(),
            released: Vec::new(),
            sought: Vec::new(),
        }
    }
}

impl PreimageProviderAndMaybeRecipient for Preimages {
    fn requested(&self) -> Vec<[u8; 32]> {
        self.requested.clone()
    }

    fn released(&self) -> Vec<[u8; 32]> {
        self.released.clone()
    }

    fn sought(&self) -> Vec<[u8; 32]> {
        self.sought.clone()
    }

    fn request(&mut self, hash: &[u8; 32]) {
        self.requested.push(*hash);
    }

    fn release(&mut self, hash: &[u8; 32]) {
        self.released.push(*hash);
    }

    fn resolve(&mut self, hash: &[u8; 32]) -> Option<(Vec<u8>, bool)> {
        self.sought.push(*hash);
        for entry in self.preimages.iter() {
            if entry.0 == *hash {
                return Some((entry.1.clone(), entry.2));
            }
        }
        None
    }
}

/// A host that runs calls and keeps a record of them. A call is the bytes
/// `[tag, weight, fails, actual]`: `weight` is what it is expected to cost,
/// `fails` is 1 where running it fails, and `actual`, where present, is what
/// it really costs. The root is more privileged than anyone else, and
/// others compare only with themselves.
struct Host {
    ran: Vec<(u8, u64)>,
    dispatched: Vec<(Vec<u8>, u64)>,
}

impl Host {
    fn new() -> Host {
        Host { ran: Vec::new(), dispatched: Vec::new() }
    }

    fn tags(&self) -> Vec<u8> {
        self.ran.iter().map(|r| r.0).collect()
    }
}

impl Config for Host {
    fn privilege(&self, left: u64, right: u64) -> Option<Privilege> {
        if left == ROOT && right != ROOT {
            Some(Privilege::Greater)
        } else if left != ROOT && right == ROOT {
            Some(Privilege::Less)
        } else {
            equal_privilege_only(&left, &right)
        }
    }

    fn dispatched(&self) -> Vec<(Vec<u8>, u64)> {
        self.dispatched.clone()
    }

    fn compare_privilege(&self, left: &u64, right: &u64) -> Option<Privilege> {
        self.privilege(*left, *right)
    }

    fn call_weight(&self, call: &Vec<u8>) -> u64 {
        call[1] as u64
    }

    fn dispatch(&mut self, call: Vec<u8>, origin: u64) -> PostDispatchInfo {
        self.ran.push((call[0], origin));
        let post = PostDispatchInfo {
            result: if call[2] == 1 { Err(DispatchError(7)) } else { Ok(()) },
            actual_weight: if call.len() > 3 { Some(call[3] as u64) } else { None },
        };
        self.dispatched.push((call, origin));
        post
    }
}

fn line(base: u64, per_item: u64) -> LinearWeight {
    LinearWeight { base, per_item }
}

fn weights() -> WeightInfo {
    WeightInfo {
        on_initialize: line(5, 1),
        on_initialize_named: line(5, 2),
        on_initialize_periodic: line(5, 3),
        on_initialize_periodic_named: line(5, 4),
        on_initialize_resolved: line(5, 5),
        on_initialize_named_resolved: line(5, 6),
        on_initialize_periodic_resolved: line(5, 7),
        on_initialize_periodic_named_resolved: line(5, 8),
        on_initialize_aborted: line(5, 9),
        on_initialize_named_aborted: line(5, 10),
    }
}

fn params() -> Parameters {
    Parameters {
        maximum_weight: 100,
        max_scheduled_per_block: 10,
        max_agendas: None,
        max_schedules: None,
        max_schedule_id_len: 8,
        max_call_len: 64,
        no_preimage_postponement: None,
        weight_info: weights(),
    }
}

fn call(tag: u8, weight: u8) -> CallOrHashOf {
    CallOrHashOf::Value(vec![tag, weight, 0])
}

fn encoded(tag: u8, weight: u8) -> EncodedCallOrHashOf {
    EncodedCallOrHashOf::new(call(tag, weight), 64).unwrap()
}

fn name(text: &str) -> Vec<u8> {
    text.as_bytes().to_vec()
}

fn dispatched(pallet: &Pallet) -> Vec<(u64, u32)> {
    let mut found = Vec::new();
    for event in pallet.events().iter() {
        if let Event::Dispatched { task, .. } = event {
            found.push(*task);
        }
    }
    found
}

fn count_lookup_failed(pallet: &Pallet) -> usize {
    pallet.events().iter().filter(|e| matches!(e, Event::LookupFailed { .. })).count()
}

#[test]
fn bounded_capacity_rejects_the_task_beyond_the_limit() {
    let mut p = params();
    p.max_scheduled_per_block = 3;
    let mut host = Host::new();
    let mut pre = Preimages::new();
    let mut pallet = Pallet::new(p);
    for i in 0..3u8 {
        assert_eq!(
            pallet.do_schedule(&mut pre, DispatchTime::At(4), None, 127, ROOT, call(i, 1)),
            Ok((4, i as u32))
        );
    }
    assert_eq!(
        pallet.do_schedule(&mut pre, DispatchTime::At(4), None, 127, ROOT, call(9, 1)),
        Err(Error::CapacityExceeded)
    );
    assert_eq!(pallet.agenda_len(4), 3);
    assert_eq!(pallet.events().len(), 3);
    assert_eq!(pallet.on_initialize(&mut host, &mut pre, 4), 5 + 3 * (1 + 1));
    assert_eq!(host.tags(), vec![0, 1, 2]);
}

#[test]
fn tasks_are_dispatched_by_ascending_priority() {
    let mut host = Host::new();
    let mut pre = Preimages::new();
    let mut pallet = Pallet::new(params());
    pallet.do_schedule(&mut pre, DispatchTime::At(4), None, 5, ROOT, call(50, 10)).unwrap();
    pallet.do_schedule(&mut pre, DispatchTime::At(4), None, 1, ROOT, call(10, 10)).unwrap();
    pallet.do_schedule(&mut pre, DispatchTime::At(4), None, 3, ROOT, call(30, 10)).unwrap();
    pallet.take_events();
    let spent = pallet.on_initialize(&mut host, &mut pre, 4);
    assert_eq!(host.tags(), vec![10, 30, 50]);
    assert_eq!(dispatched(&pallet), vec![(4, 1), (4, 2), (4, 0)]);
    assert_eq!(spent, 5 + 3 * (1 + 10));
    assert_eq!(pallet.agenda_len(4), 0);
}

#[test]
fn tasks_of_one_priority_keep_their_order_of_insertion() {
    let mut host = Host::new();
    let mut pre = Preimages::new();
    let mut pallet = Pallet::new(params());
    for tag in [7u8, 8, 9] {
        pallet.do_schedule(&mut pre, DispatchTime::At(2), None, 100, ROOT, call(tag, 1)).unwrap();
    }
    pallet.do_schedule(&mut pre, DispatchTime::At(2), None, 99, ROOT, call(1, 1)).unwrap();
    pallet.on_initialize(&mut host, &mut pre, 2);
    assert_eq!(host.tags(), vec![1, 7, 8, 9]);
}

#[test]
fn a_single_task_over_budget_is_still_dispatched() {
    let mut p = params();
    p.maximum_weight = 10;
    let mut host = Host::new();
    let mut pre = Preimages::new();
    let mut pallet = Pallet::new(p);
    pallet.do_schedule(&mut pre, DispatchTime::At(3), None, 127, ROOT, call(1, 200)).unwrap();
    let spent = pallet.on_initialize(&mut host, &mut pre, 3);
    assert_eq!(host.tags(), vec![1]);
    assert_eq!(spent, 5 + 1 + 200);
    assert_eq!(dispatched(&pallet), vec![(3, 0)]);
}

#[test]
fn the_most_urgent_task_is_the_one_admitted_over_budget() {
    let mut p = params();
    p.maximum_weight = 10;
    let mut host = Host::new();
    let mut pre = Preimages::new();
    let mut pallet = Pallet::new(p);
    pallet.do_schedule(&mut pre, DispatchTime::At(3), None, 200, ROOT, call(1, 50)).unwrap();
    pallet.do_schedule(&mut pre, DispatchTime::At(3), None, 100, ROOT, call(2, 50)).unwrap();
    let spent = pallet.on_initialize(&mut host, &mut pre, 3);
    assert_eq!(host.tags(), vec![2]);
    // base, the run task, and the charge for the task that was put off
    assert_eq!(spent, 5 + (1 + 50) + 9);
    assert_eq!(pallet.agenda_len(3), 0);
    assert_eq!(pallet.task((4, 0)).map(|t| t.priority), Some(200));
    pallet.on_initialize(&mut host, &mut pre, 4);
    assert_eq!(host.tags(), vec![2, 1]);
}

#[test]
fn named_task_follows_its_reschedule() {
    let mut host = Host::new();
    let mut pre = Preimages::new();
    let mut pallet = Pallet::new(params());
    assert_eq!(
        pallet.do_schedule_named(&mut pre, name("x"), DispatchTime::At(10), None, 127, ROOT, call(1, 1)),
        Ok((10, 0))
    );
    assert_eq!(pallet.lookup(&name("x")), Some((10, 0)));
    assert_eq!(pallet.reschedule_named(name("x"), DispatchTime::At(20)), Ok((20, 0)));
    assert_eq!(pallet.lookup(&name("x")), Some((20, 0)));
    assert!(pallet.task((10, 0)).is_none());
    assert_eq!(pallet.agenda_len(10), 1);
    assert_eq!(pallet.task((20, 0)).unwrap().maybe_id, Some(name("x")));
    assert_eq!(pallet.next_dispatch_time_named(name("x")), Ok(20));
    assert_eq!(
        pallet.events()[1..],
        [Event::Cancelled { when: 10, index: 0 }, Event::Scheduled { when: 20, index: 0 }]
    );
    pallet.on_initialize(&mut host, &mut pre, 10);
    assert!(host.ran.is_empty());
    pallet.on_initialize(&mut host, &mut pre, 20);
    assert_eq!(host.tags(), vec![1]);
    assert_eq!(pallet.lookup(&name("x")), None);
}

#[test]
fn anonymous_reschedule_of_a_named_task_moves_its_name() {
    let mut host = Host::new();
    let mut pre = Preimages::new();
    let mut pallet = Pallet::new(params());
    pallet.do_schedule(&mut pre, DispatchTime::At(6), None, 127, ROOT, call(1, 1)).unwrap();
    pallet.do_schedule_named(&mut pre, name("n"), DispatchTime::At(5), None, 127, ROOT, call(2, 1)).unwrap();
    assert_eq!(pallet.do_reschedule((5, 0), DispatchTime::At(6)), Ok((6, 1)));
    assert_eq!(pallet.lookup(&name("n")), Some((6, 1)));
}

#[test]
fn periodic_task_runs_the_requested_number_of_times() {
    let mut host = Host::new();
    let mut pre = Preimages::new();
    let mut pallet = Pallet::new(params());
    pallet.do_schedule(&mut pre, DispatchTime::At(4), Some((2, 3)), 127, ROOT, call(1, 1)).unwrap();
    assert_eq!(pallet.task((4, 0)).unwrap().maybe_periodic, Some((2, 2)));
    let mut runs = Vec::new();
    for now in 1..=12u64 {
        let before = host.ran.len();
        pallet.on_initialize(&mut host, &mut pre, now);
        if host.ran.len() > before {
            runs.push(now);
        }
    }
    assert_eq!(runs, vec![4, 6, 8]);
    assert_eq!(dispatched(&pallet), vec![(4, 0), (6, 0), (8, 0)]);
    assert_eq!(pallet.agenda_count(), 0);
}

#[test]
fn periodic_descriptor_counts_down_and_goes() {
    let mut host = Host::new();
    let mut pre = Preimages::new();
    let mut pallet = Pallet::new(params());
    pallet
        .do_schedule_named(&mut pre, name("p"), DispatchTime::At(4), Some((3, 3)), 127, ROOT, call(1, 1))
        .unwrap();
    assert_eq!(pallet.on_initialize(&mut host, &mut pre, 4), 5 + 4 + 1);
    assert_eq!(pallet.task((7, 0)).unwrap().maybe_periodic, Some((3, 1)));
    assert_eq!(pallet.lookup(&name("p")), Some((7, 0)));
    assert_eq!(pallet.on_initialize(&mut host, &mut pre, 7), 5 + 4 + 1);
    assert_eq!(pallet.task((10, 0)).unwrap().maybe_periodic, None);
    assert_eq!(pallet.lookup(&name("p")), Some((10, 0)));
    assert_eq!(pallet.on_initialize(&mut host, &mut pre, 10), 5 + 2 + 1);
    assert_eq!(pallet.lookup(&name("p")), None);
    assert_eq!(pallet.agenda_count(), 0);
}

#[test]
fn periodic_request_for_one_run_or_no_period_is_a_single_run() {
    let mut host = Host::new();
    let mut pre = Preimages::new();
    let mut pallet = Pallet::new(params());
    pallet.do_schedule(&mut pre, DispatchTime::At(4), Some((2, 1)), 127, ROOT, call(1, 1)).unwrap();
    pallet.do_schedule(&mut pre, DispatchTime::At(4), Some((0, 5)), 127, ROOT, call(2, 1)).unwrap();
    pallet.do_schedule(&mut pre, DispatchTime::At(4), Some((2, 0)), 127, ROOT, call(3, 1)).unwrap();
    assert_eq!(pallet.task((4, 0)).unwrap().maybe_periodic, None);
    assert_eq!(pallet.task((4, 1)).unwrap().maybe_periodic, None);
    assert_eq!(pallet.task((4, 2)).unwrap().maybe_periodic, None);
}

#[test]
fn unresolved_task_is_postponed_unchanged() {
    let mut p = params();
    p.no_preimage_postponement = Some(5);
    let mut host = Host::new();
    let mut pre = Preimages::new();
    let mut pallet = Pallet::new(p);
    let hash = [3u8; 32];
    pallet
        .do_schedule_named(
            &mut pre,
            name("h"),
            DispatchTime::At(4),
            Some((10, 3)),
            7,
            ALICE,
            CallOrHashOf::Hash(hash),
        )
        .unwrap();
    assert_eq!(pre.requested, vec![hash]);
    pallet.take_events();
    let spent = pallet.on_initialize(&mut host, &mut pre, 4);
    assert_eq!(spent, 5 + 10);
    assert!(host.ran.is_empty());
    assert_eq!(count_lookup_failed(&pallet), 1);
    assert_eq!(pallet.events()[..], [Event::LookupFailed { task: (4, 0), id: Some(name("h")) }]);
    assert_eq!(pallet.agenda_len(4), 0);
    let task = pallet.task((9, 0)).unwrap();
    assert_eq!(task.maybe_id, Some(name("h")));
    assert_eq!(task.priority, 7);
    assert_eq!(task.maybe_periodic, Some((10, 2)));
    assert_eq!(task.origin, ALICE);
    assert_eq!(task.call.to_inner(), CallOrHashOf::Hash(hash));
    assert_eq!(pallet.lookup(&name("h")), Some((9, 0)));

    // once the call is at hand the task runs, and periodic tasks go on
    pre.preimages.push((hash, vec![42, 3, 0], true));
    let spent = pallet.on_initialize(&mut host, &mut pre, 9);
    assert_eq!(host.ran, vec![(42, ALICE)]);
    assert_eq!(host.dispatched(), vec![(vec![42, 3, 0], ALICE)]);
    assert_eq!(pre.released, vec![hash]);
    assert_eq!(spent, 5 + 8 + 3);
    assert_eq!(pallet.lookup(&name("h")), Some((19, 0)));
}

#[test]
fn unresolved_task_is_dropped_without_postponement() {
    let mut host = Host::new();
    let mut pre = Preimages::new();
    let mut pallet = Pallet::new(params());
    pallet
        .do_schedule_named(&mut pre, name("h"), DispatchTime::At(4), None, 7, ALICE, CallOrHashOf::Hash([3u8; 32]))
        .unwrap();
    pallet.do_schedule(&mut pre, DispatchTime::At(4), None, 8, ALICE, CallOrHashOf::Hash([4u8; 32])).unwrap();
    let spent = pallet.on_initialize(&mut host, &mut pre, 4);
    assert_eq!(spent, 5 + 10 + 9);
    assert_eq!(count_lookup_failed(&pallet), 2);
    assert_eq!(pallet.lookup(&name("h")), None);
    assert_eq!(pallet.lookup_count(), 0);
    assert_eq!(pallet.agenda_count(), 0);
    assert!(host.ran.is_empty());
}

#[test]
fn resolved_call_that_others_still_need_is_not_released() {
    let mut host = Host::new();
    let mut pre = Preimages::new();
    let hash = [9u8; 32];
    pre.preimages.push((hash, vec![1, 2, 0], false));
    let mut pallet = Pallet::new(params());
    pallet.do_schedule(&mut pre, DispatchTime::At(4), None, 127, ROOT, CallOrHashOf::Hash(hash)).unwrap();
    let spent = pallet.on_initialize(&mut host, &mut pre, 4);
    assert_eq!(host.tags(), vec![1]);
    assert!(pre.released.is_empty());
    assert_eq!(spent, 5 + 1 + 2);
}

#[test]
fn rescheduling_to_the_same_slot_is_refused() {
    let mut host = Host::new();
    let mut pre = Preimages::new();
    let mut pallet = Pallet::new(params());
    pallet.do_schedule(&mut pre, DispatchTime::At(4), None, 127, ROOT, call(1, 1)).unwrap();
    pallet.do_schedule_named(&mut pre, name("x"), DispatchTime::At(4), None, 127, ROOT, call(2, 1)).unwrap();
    let events = pallet.events().len();
    assert_eq!(pallet.do_reschedule((4, 0), DispatchTime::At(4)), Err(Error::NoOpReschedule));
    assert_eq!(pallet.do_reschedule((4, 0), DispatchTime::After(3)), Err(Error::NoOpReschedule));
    assert_eq!(pallet.do_reschedule_named(name("x"), DispatchTime::At(4)), Err(Error::NoOpReschedule));
    assert_eq!(pallet.events().len(), events);
    assert_eq!(pallet.agenda_len(4), 2);
    assert!(pallet.task((4, 0)).is_some());
    assert_eq!(pallet.lookup(&name("x")), Some((4, 1)));
    assert_eq!(pallet.agenda_count(), 1);
}

#[test]
fn time_must_be_after_the_current_slot() {
    let mut host = Host::new();
    let mut pre = Preimages::new();
    let mut pallet = Pallet::new(params());
    pallet.on_initialize(&mut host, &mut pre, 5);
    assert_eq!(pallet.block_number(), 5);
    assert_eq!(pallet.resolve_time(DispatchTime::At(5)), Err(Error::TimeInPast));
    assert_eq!(pallet.resolve_time(DispatchTime::At(4)), Err(Error::TimeInPast));
    assert_eq!(pallet.resolve_time(DispatchTime::At(6)), Ok(6));
    assert_eq!(pallet.resolve_time(DispatchTime::After(0)), Ok(6));
    assert_eq!(pallet.resolve_time(DispatchTime::After(3)), Ok(9));
    assert_eq!(pallet.resolve_time(DispatchTime::After(u64::MAX)), Ok(u64::MAX));
    assert_eq!(
        pallet.do_schedule(&mut pre, DispatchTime::At(5), None, 127, ROOT, call(1, 1)),
        Err(Error::TimeInPast)
    );
    assert_eq!(pallet.schedule_after(&mut pre, ROOT, 0, None, 127, call(1, 1)), Ok(()));
    assert_eq!(pallet.agenda_len(6), 1);
    pallet.set_block_number(u64::MAX);
    assert_eq!(pallet.resolve_time(DispatchTime::After(0)), Err(Error::TimeInPast));
    assert_eq!(pallet.do_reschedule((6, 0), DispatchTime::At(7)), Err(Error::TimeInPast));
}

#[test]
fn duplicate_name_is_refused() {
    let mut host = Host::new();
    let mut pre = Preimages::new();
    let mut pallet = Pallet::new(params());
    assert_eq!(pallet.schedule_named(&mut pre, ROOT, name("x"), 4, None, 127, call(1, 1)), Ok(()));
    assert_eq!(
        pallet.schedule_named(&mut pre, ROOT, name("x"), 5, None, 127, call(2, 1)),
        Err(Error::DuplicateName)
    );
    assert_eq!(
        pallet.schedule_named_after(&mut pre, ROOT, name("x"), 5, None, 127, call(2, 1)),
        Err(Error::DuplicateName)
    );
    assert_eq!(pallet.agenda_len(5), 0);
    assert_eq!(pallet.lookup(&name("x")), Some((4, 0)));
    // the name is free again once its task is gone
    assert_eq!(pallet.cancel_named(&host, &mut pre, ROOT, name("x")), Ok(()));
    assert_eq!(pallet.schedule_named_after(&mut pre, ROOT, name("x"), 5, None, 127, call(2, 1)), Ok(()));
    assert_eq!(pallet.lookup(&name("x")), Some((6, 0)));
}

#[test]
fn lengths_and_counts_are_bounded() {
    let mut p = params();
    p.max_schedule_id_len = 3;
    p.max_call_len = 5;
    p.max_schedules = Some(2);
    p.max_agendas = Some(2);
    let mut host = Host::new();
    let mut pre = Preimages::new();
    let mut pallet = Pallet::new(p);
    // name too long
    assert_eq!(
        pallet.do_schedule_named(&mut pre, name("long"), DispatchTime::At(4), None, 1, ROOT, call(1, 1)),
        Err(Error::CapacityExceeded)
    );
    assert_eq!(pallet.do_cancel_named(&host, &mut pre, None, name("long")), Err(Error::CapacityExceeded));
    assert_eq!(pallet.do_reschedule_named(name("long"), DispatchTime::At(9)), Err(Error::CapacityExceeded));
    assert_eq!(pallet.next_dispatch_time_named(name("long")), Err(()));
    // payload too long: one byte for the kind, one for the length, then the call
    assert_eq!(
        pallet.do_schedule(&mut pre, DispatchTime::At(4), None, 1, ROOT, CallOrHashOf::Value(vec![1, 1, 0, 0])),
        Err(Error::CapacityExceeded)
    );
    assert_eq!(
        pallet.do_schedule(&mut pre, DispatchTime::At(4), None, 1, ROOT, CallOrHashOf::Hash([1u8; 32])),
        Err(Error::CapacityExceeded)
    );
    assert!(pre.requested.is_empty());
    assert_eq!(pallet.agenda_count(), 0);
    // too many names
    pallet.do_schedule_named(&mut pre, name("a"), DispatchTime::At(4), None, 1, ROOT, call(1, 1)).unwrap();
    pallet.do_schedule_named(&mut pre, name("b"), DispatchTime::At(4), None, 1, ROOT, call(1, 1)).unwrap();
    assert_eq!(
        pallet.do_schedule_named(&mut pre, name("c"), DispatchTime::At(4), None, 1, ROOT, call(1, 1)),
        Err(Error::CapacityExceeded)
    );
    assert_eq!(pallet.lookup_count(), 2);
    // too many slots
    pallet.do_schedule(&mut pre, DispatchTime::At(5), None, 1, ROOT, call(1, 1)).unwrap();
    assert_eq!(
        pallet.do_schedule(&mut pre, DispatchTime::At(6), None, 1, ROOT, call(1, 1)),
        Err(Error::CapacityExceeded)
    );
    assert_eq!(pallet.do_reschedule((5, 0), DispatchTime::At(6)), Err(Error::CapacityExceeded));
    assert_eq!(pallet.agenda_count(), 2);
    assert_eq!(pallet.do_schedule(&mut pre, DispatchTime::At(5), None, 1, ROOT, call(1, 1)), Ok((5, 1)));
}

#[test]
fn cancel_leaves_a_gap_and_keeps_the_other_indices() {
    let mut host = Host::new();
    let mut pre = Preimages::new();
    let mut pallet = Pallet::new(params());
    let hash = [5u8; 32];
    pallet.do_schedule(&mut pre, DispatchTime::At(4), None, 127, ROOT, call(1, 1)).unwrap();
    pallet.do_schedule(&mut pre, DispatchTime::At(4), None, 127, ROOT, CallOrHashOf::Hash(hash)).unwrap();
    pallet.do_schedule(&mut pre, DispatchTime::At(4), None, 127, ROOT, call(3, 1)).unwrap();
    pallet.take_events();
    assert_eq!(pallet.do_cancel(&host, &mut pre, None, (4, 1)), Ok(()));
    assert_eq!(pre.released, vec![hash]);
    assert_eq!(pallet.events()[..], [Event::Cancelled { when: 4, index: 1 }]);
    assert_eq!(pallet.agenda_len(4), 3);
    assert!(pallet.task((4, 1)).is_none());
    assert_eq!(pallet.task((4, 2)).unwrap().call.to_inner(), call(3, 1));
    assert_eq!(pallet.next_dispatch_time((4, 1)), Ok(4));
    assert_eq!(pallet.next_dispatch_time((4, 3)), Err(()));
    assert_eq!(pallet.next_dispatch_time((5, 0)), Err(()));
    // a gap cannot be cancelled or moved
    assert_eq!(pallet.do_cancel(&host, &mut pre, None, (4, 1)), Err(Error::NotFound));
    assert_eq!(pallet.do_reschedule((4, 1), DispatchTime::At(5)), Err(Error::NotFound));
    assert_eq!(pallet.do_cancel(&host, &mut pre, None, (4, 7)), Err(Error::NotFound));
    assert_eq!(pallet.do_cancel(&host, &mut pre, None, (9, 0)), Err(Error::NotFound));
    assert_eq!(pallet.do_cancel_named(&host, &mut pre, None, name("none")), Err(Error::NotFound));
    assert_eq!(pallet.do_reschedule_named(name("none"), DispatchTime::At(9)), Err(Error::NotFound));
    // the next task gets a fresh index
    assert_eq!(pallet.do_schedule(&mut pre, DispatchTime::At(4), None, 127, ROOT, call(4, 1)), Ok((4, 3)));
    pallet.take_events();
    pallet.on_initialize(&mut host, &mut pre, 4);
    assert_eq!(dispatched(&pallet), vec![(4, 0), (4, 2), (4, 3)]);
}

#[test]
fn cancel_needs_enough_privilege() {
    let mut host = Host::new();
    let mut pre = Preimages::new();
    let mut pallet = Pallet::new(params());
    pallet.do_schedule(&mut pre, DispatchTime::At(4), None, 127, ROOT, call(1, 1)).unwrap();
    pallet.do_schedule_named(&mut pre, name("a"), DispatchTime::At(4), None, 127, ALICE, call(2, 1)).unwrap();
    let events = pallet.events().len();
    // less privileged, and not comparable
    assert_eq!(pallet.cancel(&host, &mut pre, ALICE, 4, 0), Err(Error::Unauthorized));
    assert_eq!(pallet.cancel(&host, &mut pre, BOB, 4, 1), Err(Error::Unauthorized));
    assert_eq!(pallet.cancel_named(&host, &mut pre, BOB, name("a")), Err(Error::Unauthorized));
    assert_eq!(pallet.events().len(), events);
    assert!(pallet.task((4, 0)).is_some());
    assert_eq!(pallet.lookup(&name("a")), Some((4, 1)));
    // nothing there comes before the question of privilege
    assert_eq!(pallet.cancel(&host, &mut pre, ALICE, 4, 5), Err(Error::NotFound));
    // equal, and greater
    assert_eq!(pallet.cancel_named(&host, &mut pre, ALICE, name("a")), Ok(()));
    assert_eq!(pallet.lookup(&name("a")), None);
    assert_eq!(pallet.cancel(&host, &mut pre, ROOT, 4, 0), Ok(()));
    assert_eq!(pallet.cancel_decided(&mut pre, false, (4, 0)), Err(Error::NotFound));
}

#[test]
fn cancel_by_name_follows_the_verdict() {
    let mut host = Host::new();
    let mut pre = Preimages::new();
    let mut pallet = Pallet::new(params());
    pallet.do_schedule_named(&mut pre, name("a"), DispatchTime::At(4), None, 127, ALICE, call(2, 1)).unwrap();
    assert_eq!(pallet.cancel_named_decided(&mut pre, false, name("a")), Err(Error::Unauthorized));
    assert_eq!(pallet.cancel_named_decided(&mut pre, false, name("b")), Err(Error::NotFound));
    assert_eq!(pallet.cancel_named_decided(&mut pre, true, name("toolongname")), Err(Error::CapacityExceeded));
    assert_eq!(pallet.lookup(&name("a")), Some((4, 0)));
    assert_eq!(pallet.cancel_named_decided(&mut pre, true, name("a")), Ok(()));
    assert_eq!(pallet.lookup(&name("a")), None);
    assert_eq!(pallet.cancel_named_decided(&mut pre, true, name("a")), Err(Error::NotFound));
    assert_eq!(pallet.address_of(&name("a")), Err(Error::NotFound));
}

#[test]
fn privilege_verdicts() {
    assert!(may_cancel(Some(Privilege::Equal)));
    assert!(may_cancel(Some(Privilege::Greater)));
    assert!(!may_cancel(Some(Privilege::Less)));
    assert!(!may_cancel(None));
    assert_eq!(equal_privilege_only(&3, &3), Some(Privilege::Equal));
    assert_eq!(equal_privilege_only(&3, &4), None);
}

#[test]
fn cancelling_an_anonymous_address_frees_the_name_of_a_named_task() {
    let mut host = Host::new();
    let mut pre = Preimages::new();
    let mut pallet = Pallet::new(params());
    pallet.do_schedule_named(&mut pre, name("a"), DispatchTime::At(4), None, 127, ALICE, call(2, 1)).unwrap();
    assert_eq!(pallet.do_cancel(&host, &mut pre, None, (4, 0)), Ok(()));
    assert_eq!(pallet.lookup(&name("a")), None);
    assert_eq!(pallet.lookup_count(), 0);
}

#[test]
fn budget_defers_tasks_to_the_next_slot() {
    let mut p = params();
    p.maximum_weight = 40;
    let mut host = Host::new();
    let mut pre = Preimages::new();
    let mut pallet = Pallet::new(p);
    pallet.do_schedule(&mut pre, DispatchTime::At(4), None, 1, ROOT, call(1, 20)).unwrap();
    pallet.do_schedule_named(&mut pre, name("b"), DispatchTime::At(4), Some((7, 2)), 2, BOB, call(2, 20)).unwrap();
    pallet.do_schedule(&mut pre, DispatchTime::At(4), None, 3, ROOT, call(3, 5)).unwrap();
    pallet.do_schedule(&mut pre, DispatchTime::At(5), None, 3, ROOT, call(4, 1)).unwrap();
    pallet.take_events();
    let spent = pallet.on_initialize(&mut host, &mut pre, 4);
    // 5 + (1 + 20) = 26; the second would need 26 + 20 + 4 = 50 > 40 and is charged 10;
    // the third needs 36 + 5 + 1 = 42 > 40 and is charged 9
    assert_eq!(host.tags(), vec![1]);
    assert_eq!(spent, 5 + 21 + 10 + 9);
    assert_eq!(pallet.events()[..], [Event::Dispatched { task: (4, 0), id: None, result: Ok(()) }]);
    assert_eq!(pallet.agenda_len(4), 0);
    assert_eq!(pallet.agenda_len(5), 3);
    let deferred = pallet.task((5, 1)).unwrap();
    assert_eq!(deferred.maybe_id, Some(name("b")));
    assert_eq!(deferred.priority, 2);
    assert_eq!(deferred.maybe_periodic, Some((7, 1)));
    assert_eq!(deferred.origin, BOB);
    assert_eq!(deferred.call.to_inner(), call(2, 20));
    assert_eq!(pallet.lookup(&name("b")), Some((5, 1)));
    let spent = pallet.on_initialize(&mut host, &mut pre, 5);
    // by priority: b (2), then the two of priority 3 by index
    assert_eq!(host.tags(), vec![1, 2, 4, 3]);
    assert_eq!(spent, 5 + (4 + 20) + (1 + 1) + (1 + 5));
    assert_eq!(pallet.lookup(&name("b")), Some((12, 0)));
}

#[test]
fn hard_deadline_is_exempt_from_the_budget() {
    let mut p = params();
    p.maximum_weight = 10;
    let mut host = Host::new();
    let mut pre = Preimages::new();
    let mut pallet = Pallet::new(p);
    pallet.do_schedule(&mut pre, DispatchTime::At(4), None, 0, ROOT, call(1, 50)).unwrap();
    pallet.do_schedule(&mut pre, DispatchTime::At(4), None, 63, ROOT, call(2, 50)).unwrap();
    pallet.do_schedule(&mut pre, DispatchTime::At(4), None, 62, ROOT, call(3, 50)).unwrap();
    pallet.do_schedule(&mut pre, DispatchTime::At(4), None, 64, ROOT, call(4, 50)).unwrap();
    pallet.on_initialize(&mut host, &mut pre, 4);
    assert_eq!(host.tags(), vec![1, 2]);
    assert_eq!(pallet.agenda_len(5), 2);
}

#[test]
fn admission_rule() {
    assert!(admits(63, 3, 100, 1, 1, 10));
    assert!(!admits(62, 3, 100, 1, 1, 10));
    assert!(!admits(64, 3, 100, 1, 1, 10));
    assert!(admits(200, 0, 100, 1, 1, 10));
    assert!(admits(200, 1, 5, 2, 3, 10));
    assert!(!admits(200, 1, 5, 3, 3, 10));
    assert!(!admits(200, 1, u64::MAX, 3, 3, 10));
    assert!(admits(200, 1, u64::MAX, 3, 3, u64::MAX));
}

#[test]
fn failed_run_is_reported_and_not_retried() {
    let mut host = Host::new();
    let mut pre = Preimages::new();
    let mut pallet = Pallet::new(params());
    pallet
        .do_schedule_named(&mut pre, name("f"), DispatchTime::At(4), None, 127, ALICE, CallOrHashOf::Value(vec![1, 30, 1, 4]))
        .unwrap();
    pallet.take_events();
    let spent = pallet.on_initialize(&mut host, &mut pre, 4);
    // the host measured 4 where 30 were expected
    assert_eq!(spent, 5 + 2 + 4);
    assert_eq!(
        pallet.events()[..],
        [Event::Dispatched { task: (4, 0), id: Some(name("f")), result: Err(DispatchError(7)) }]
    );
    assert_eq!(pallet.agenda_count(), 0);
    assert_eq!(pallet.lookup(&name("f")), None);
}

#[test]
fn task_that_cannot_be_put_back_is_dropped_with_a_note() {
    let mut p = params();
    p.maximum_weight = 10;
    p.max_scheduled_per_block = 2;
    let mut host = Host::new();
    let mut pre = Preimages::new();
    let mut pallet = Pallet::new(p);
    pallet.do_schedule(&mut pre, DispatchTime::At(4), None, 1, ROOT, call(1, 50)).unwrap();
    pallet.do_schedule_named(&mut pre, name("d"), DispatchTime::At(4), None, 2, ROOT, call(2, 50)).unwrap();
    pallet.do_schedule(&mut pre, DispatchTime::At(5), None, 1, ROOT, call(3, 1)).unwrap();
    pallet.do_schedule(&mut pre, DispatchTime::At(5), None, 1, ROOT, call(4, 1)).unwrap();
    pallet.take_events();
    pallet.on_initialize(&mut host, &mut pre, 4);
    assert_eq!(host.tags(), vec![1]);
    assert_eq!(
        pallet.events()[..],
        [
            Event::Dispatched { task: (4, 0), id: None, result: Ok(()) },
            Event::Cancelled { when: 4, index: 1 },
        ]
    );
    assert_eq!(pallet.agenda_len(5), 2);
    assert_eq!(pallet.lookup(&name("d")), None);
}

#[test]
fn postponement_by_nothing_drops_the_task() {
    let mut p = params();
    p.no_preimage_postponement = Some(0);
    let mut host = Host::new();
    let mut pre = Preimages::new();
    let mut pallet = Pallet::new(p);
    pallet.do_schedule(&mut pre, DispatchTime::At(4), None, 1, ROOT, CallOrHashOf::Hash([1u8; 32])).unwrap();
    pallet.take_events();
    pallet.on_initialize(&mut host, &mut pre, 4);
    assert_eq!(
        pallet.events()[..],
        [Event::LookupFailed { task: (4, 0), id: None }, Event::Cancelled { when: 4, index: 0 }]
    );
    assert_eq!(pallet.agenda_count(), 0);
}

#[test]
fn empty_slot_costs_the_base() {
    let mut host = Host::new();
    let mut pre = Preimages::new();
    let mut pallet = Pallet::new(params());
    assert_eq!(pallet.on_initialize(&mut host, &mut pre, 1), 5);
    assert_eq!(pallet.block_number(), 1);
    assert!(pallet.events().is_empty());
}

#[test]
fn service_task_follows_the_answer() {
    let mut pre = Preimages::new();
    let mut pallet = Pallet::new(params());
    let task = ScheduledV3 {
        maybe_id: None,
        priority: 100,
        call: encoded(1, 1),
        maybe_periodic: Some((3, 2)),
        origin: ALICE,
    };
    let answer = Answer { resolution: None, call_weight: 11, result: Err(DispatchError(1)), actual_weight: Some(2) };
    // a call given in full needs no lookup; position 0 is always admitted
    let spent = pallet.service_task(&mut pre, 1000, (4, 2), 0, task, answer);
    assert_eq!(spent, 1000 + 3 + 2);
    assert_eq!(
        pallet.events()[..],
        [Event::Dispatched { task: (4, 2), id: None, result: Err(DispatchError(1)) }]
    );
    assert_eq!(pallet.task((7, 0)).unwrap().maybe_periodic, Some((3, 1)));

    let task = ScheduledV3 {
        maybe_id: None,
        priority: 100,
        call: EncodedCallOrHashOf::new(CallOrHashOf::Hash([8u8; 32]), 64).unwrap(),
        maybe_periodic: None,
        origin: ALICE,
    };
    let answer = Answer { resolution: Some(true), call_weight: 11, result: Ok(()), actual_weight: None };
    // 50 + 11 + 5 <= 100
    assert_eq!(pallet.service_task(&mut pre, 50, (4, 3), 1, task, answer), 50 + 5 + 11);
}

#[test]
fn weights_are_lines_that_stop_at_the_largest_weight() {
    assert_eq!(line(5, 3).at(0), 5);
    assert_eq!(line(5, 3).at(4), 17);
    assert_eq!(line(u64::MAX - 1, 3).at(1), u64::MAX);
    assert_eq!(line(0, u64::MAX).at(u32::MAX), u64::MAX);
    let w = weights();
    assert_eq!(w.base(), 5);
    assert_eq!(w.item(false, false, None), 9);
    assert_eq!(w.item(true, false, None), 9);
    assert_eq!(w.item(false, true, None), 10);
    assert_eq!(w.item(false, false, Some(false)), 1);
    assert_eq!(w.item(false, true, Some(false)), 2);
    assert_eq!(w.item(true, false, Some(false)), 3);
    assert_eq!(w.item(true, true, Some(false)), 4);
    assert_eq!(w.item(false, false, Some(true)), 5);
    assert_eq!(w.item(false, true, Some(true)), 6);
    assert_eq!(w.item(true, false, Some(true)), 7);
    assert_eq!(w.item(true, true, Some(true)), 8);
    // near the top the step shrinks
    let mut top = weights();
    top.on_initialize = line(u64::MAX - 6, 3);
    assert_eq!(top.item(false, false, Some(false)), 3);
    top.on_initialize = line(u64::MAX - 4, 3);
    assert_eq!(top.item(false, false, Some(false)), 1);
    top.on_initialize = line(u64::MAX - 4, 4);
    assert_eq!(top.item(false, false, Some(false)), 0);
}

#[test]
fn payload_is_kept_in_its_encoding() {
    let value = EncodedCallOrHashOf::new(CallOrHashOf::Value(vec![7, 8, 9]), 5).unwrap();
    // the kind, the length, the call
    assert_eq!(value.encoded_len(), 5);
    assert_eq!(value.to_inner(), CallOrHashOf::Value(vec![7, 8, 9]));
    assert_eq!(value.into_inner(), CallOrHashOf::Value(vec![7, 8, 9]));
    assert_eq!(EncodedCallOrHashOf::new(CallOrHashOf::Value(vec![7, 8, 9]), 4), Err(Error::CapacityExceeded));
    let hash = EncodedCallOrHashOf::new(CallOrHashOf::Hash([6u8; 32]), 33).unwrap();
    assert_eq!(hash.encoded_len(), 33);
    assert_eq!(hash.into_inner(), CallOrHashOf::Hash([6u8; 32]));
    assert_eq!(EncodedCallOrHashOf::new(CallOrHashOf::Hash([6u8; 32]), 32), Err(Error::CapacityExceeded));
    assert_eq!(EncodedCallOrHashOf::from_call(vec![1], 64).unwrap().into_inner(), CallOrHashOf::Value(vec![1]));
    assert_eq!(EncodedCallOrHashOf::from_call(vec![1; 64], 64), Err(Error::CapacityExceeded));
}

#[test]
fn events_are_handed_out_once() {
    let mut host = Host::new();
    let mut pre = Preimages::new();
    let mut pallet = Pallet::new(params());
    pallet.schedule(&mut pre, ROOT, 4, None, 127, call(1, 1)).unwrap();
    assert_eq!(pallet.take_events(), vec![Event::Scheduled { when: 4, index: 0 }]);
    assert!(pallet.events().is_empty());
    assert_eq!(pallet.parameters(), params());
}

#[test]
fn resolver_is_asked_to_keep_a_hash_once_and_only_on_success() {
    let mut p = params();
    p.max_scheduled_per_block = 1;
    let mut pre = Preimages::new();
    let mut pallet = Pallet::new(p);
    let hash = [7u8; 32];
    pallet.do_schedule(&mut pre, DispatchTime::At(4), None, 1, ROOT, call(1, 1)).unwrap();
    assert!(pre.requested().is_empty());
    // the slot is full
    assert_eq!(
        pallet.do_schedule(&mut pre, DispatchTime::At(4), None, 1, ROOT, CallOrHashOf::Hash(hash)),
        Err(Error::CapacityExceeded)
    );
    // the time is not in the future
    assert_eq!(
        pallet.do_schedule(&mut pre, DispatchTime::At(0), None, 1, ROOT, CallOrHashOf::Hash(hash)),
        Err(Error::TimeInPast)
    );
    assert!(pre.requested().is_empty());
    pallet.do_schedule_named(&mut pre, name("h"), DispatchTime::At(5), None, 1, ROOT, CallOrHashOf::Hash(hash)).unwrap();
    assert_eq!(pre.requested(), vec![hash]);
    // the name is in use
    assert_eq!(
        pallet.do_schedule_named(&mut pre, name("h"), DispatchTime::At(6), None, 1, ROOT, CallOrHashOf::Hash(hash)),
        Err(Error::DuplicateName)
    );
    assert_eq!(pre.requested(), vec![hash]);
    assert!(pre.released().is_empty());
}

#[test]
fn resolver_is_told_to_let_go_once_and_only_on_success() {
    let host = Host::new();
    let mut pre = Preimages::new();
    let mut pallet = Pallet::new(params());
    let hash = [7u8; 32];
    pallet.do_schedule_named(&mut pre, name("h"), DispatchTime::At(5), None, 1, ALICE, CallOrHashOf::Hash(hash)).unwrap();
    pallet.do_schedule(&mut pre, DispatchTime::At(5), None, 1, ALICE, call(1, 1)).unwrap();
    assert_eq!(pallet.do_cancel_named(&host, &mut pre, Some(BOB), name("h")), Err(Error::Unauthorized));
    assert_eq!(pallet.do_cancel(&host, &mut pre, Some(BOB), (5, 0)), Err(Error::Unauthorized));
    assert_eq!(pallet.do_cancel(&host, &mut pre, None, (5, 2)), Err(Error::NotFound));
    assert_eq!(pallet.do_cancel_named(&host, &mut pre, None, name("x")), Err(Error::NotFound));
    assert!(pre.released().is_empty());
    assert_eq!(pallet.do_cancel(&host, &mut pre, None, (5, 1)), Ok(()));
    assert!(pre.released().is_empty());
    assert_eq!(pallet.do_cancel_named(&host, &mut pre, None, name("h")), Ok(()));
    assert_eq!(pre.released(), vec![hash]);
    assert_eq!(pre.requested(), vec![hash]);
}

#[test]
fn host_runs_the_admitted_calls_in_order_on_behalf_of_their_origins() {
    let mut p = params();
    p.maximum_weight = 40;
    let mut host = Host::new();
    let mut pre = Preimages::new();
    let hash = [9u8; 32];
    pre.preimages.push((hash, vec![9, 2, 0], true));
    let mut pallet = Pallet::new(p);
    pallet.do_schedule(&mut pre, DispatchTime::At(4), None, 3, ALICE, call(3, 20)).unwrap();
    pallet.do_schedule(&mut pre, DispatchTime::At(4), None, 1, BOB, CallOrHashOf::Hash(hash)).unwrap();
    pallet.do_schedule(&mut pre, DispatchTime::At(4), None, 2, ROOT, call(2, 10)).unwrap();
    pallet.on_initialize(&mut host, &mut pre, 4);
    // the third does not fit the budget and is not run
    assert_eq!(host.dispatched(), vec![(vec![9, 2, 0], BOB), (vec![2, 10, 0], ROOT)]);
    assert_eq!(pre.sought(), vec![hash]);
    assert_eq!(pre.released(), vec![hash]);
    assert_eq!(pre.requested(), vec![hash]);
}

#[test]
fn deferred_task_without_room_lets_go_of_its_hash() {
    let mut p = params();
    p.maximum_weight = 10;
    p.max_scheduled_per_block = 2;
    let mut host = Host::new();
    let mut pre = Preimages::new();
    let kept = [5u8; 32];
    let gone = [6u8; 32];
    pre.preimages.push((kept, vec![2, 50, 0], false));
    pre.preimages.push((gone, vec![3, 50, 0], true));
    let mut pallet = Pallet::new(p);
    pallet.do_schedule(&mut pre, DispatchTime::At(5), None, 1, ROOT, call(8, 1)).unwrap();
    pallet.do_schedule(&mut pre, DispatchTime::At(5), None, 1, ROOT, call(9, 1)).unwrap();
    pallet.do_schedule(&mut pre, DispatchTime::At(4), None, 1, ROOT, call(1, 50)).unwrap();
    pallet.do_schedule(&mut pre, DispatchTime::At(4), None, 2, ROOT, CallOrHashOf::Hash(kept)).unwrap();
    pallet.take_events();
    pallet.on_initialize(&mut host, &mut pre, 4);
    // the second is over budget, the next slot is full: it is dropped, and
    // the hash that the resolver still kept for it is let go
    assert_eq!(host.tags(), vec![1]);
    assert_eq!(pre.released(), vec![kept]);
    assert_eq!(
        pallet.events()[..],
        [
            Event::Dispatched { task: (4, 0), id: None, result: Ok(()) },
            Event::Cancelled { when: 4, index: 1 },
        ]
    );
    // a hash that was let go on resolution is not let go again
    pallet.on_initialize(&mut host, &mut pre, 5);
    pallet.do_schedule(&mut pre, DispatchTime::At(8), None, 1, ROOT, call(7, 1)).unwrap();
    pallet.do_schedule(&mut pre, DispatchTime::At(8), None, 2, ROOT, CallOrHashOf::Hash(gone)).unwrap();
    pallet.do_schedule(&mut pre, DispatchTime::At(9), None, 1, ROOT, call(7, 1)).unwrap();
    pallet.do_schedule(&mut pre, DispatchTime::At(9), None, 1, ROOT, call(7, 1)).unwrap();
    let before = pre.released().len();
    pallet.on_initialize(&mut host, &mut pre, 8);
    assert_eq!(pre.released()[before..], [gone]);
}

#[test]
fn name_of_a_dropped_task_can_be_used_again() {
    let mut host = Host::new();
    let mut pre = Preimages::new();
    let mut pallet = Pallet::new(params());
    pallet
        .do_schedule_named(&mut pre, name("n"), DispatchTime::At(4), None, 7, ALICE, CallOrHashOf::Hash([3u8; 32]))
        .unwrap();
    pallet.on_initialize(&mut host, &mut pre, 4);
    assert_eq!(pallet.lookup(&name("n")), None);
    assert_eq!(
        pallet.do_schedule_named(&mut pre, name("n"), DispatchTime::At(5), None, 7, ALICE, call(1, 1)),
        Ok((5, 0))
    );
}
