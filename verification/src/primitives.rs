//! Plain values shared by every part of the scheduler: slots, weights,
//! priorities, addresses, notifications and failures.

use vstd::prelude::*;

verus! {

/// A logical time slot. Slots only ever grow.
pub type BlockNumber = u64;

/// Resource cost of work done inside one slot.
pub type Weight = u64;

/// Urgency of a task. Lower values are served first.
pub type Priority = u8;

/// Counts the runs of a repeating task.
pub type PeriodicIndex = u32;

/// Where a task stands: the slot it is due in and its index in the list
/// of that slot.
pub type TaskAddress = (BlockNumber, u32);

/// The period of a repeating task and a number of runs.
pub type Period = (BlockNumber, PeriodicIndex);

/// Reference to a payload that is stored elsewhere.
pub type CallHash = [u8; 32];

/// Who scheduled a task. Only the privilege comparator gives it meaning.
pub type PalletsOrigin = u64;

/// When a task should run.
#[derive(Clone, Copy, Debug, PartialEq, Eq, Structural)]
pub enum DispatchTime {
    /// At the given slot.
    At(BlockNumber),
    /// After the given number of slots, counted from the slot that follows the current one.
    After(BlockNumber),
}

/// Why a scheduling request was turned down.
#[derive(Clone, Copy, Debug, PartialEq, Eq, Structural)]
pub enum Error {
    /// A bound was hit: the slot is full, there are too many slots or names,
    /// or the name or the payload is too long.
    CapacityExceeded,
    /// No task lives at the given address or under the given name.
    NotFound,
    /// The name is already taken.
    DuplicateName,
    /// The requested slot is not after the current one.
    TimeInPast,
    /// The task is already due in the requested slot.
    NoOpReschedule,
    /// The caller is not privileged enough to remove the task.
    Unauthorized,
}

/// Failure reported by the host when it ran a payload.
#[derive(Clone, Copy, Debug, PartialEq, Eq, Structural)]
pub struct DispatchError(pub u32);

/// Outcome of comparing the privileges of two origins.
#[derive(Clone, Copy, Debug, PartialEq, Eq, Structural)]
pub enum Privilege {
    /// The left origin is less privileged than the right one.
    Less,
    /// Both origins are equally privileged.
    Equal,
    /// The left origin is more privileged than the right one.
    Greater,
}

/// A notification left in the scheduler's log.
#[derive(Debug, PartialEq, Eq)]
pub enum Event {
    /// Scheduled some task.
    Scheduled { when: BlockNumber, index: u32 },
    /// Cancelled some task.
    Cancelled { when: BlockNumber, index: u32 },
    /// Dispatched some task.
    Dispatched { task: TaskAddress, id: Option<Vec<u8>>, result: Result<(), DispatchError> },
    /// The payload of a task could not be resolved.
    LookupFailed { task: TaskAddress, id: Option<Vec<u8>> },
}

/// Mathematical value of an [`Event`].
pub enum EventView {
    Scheduled { when: BlockNumber, index: u32 },
    Cancelled { when: BlockNumber, index: u32 },
    Dispatched { task: TaskAddress, id: Option<Seq<u8>>, result: Result<(), DispatchError> },
    LookupFailed { task: TaskAddress, id: Option<Seq<u8>> },
}

/// Mathematical value of an optional byte string.
pub open spec fn bytes_view(id: Option<Vec<u8>>) -> Option<Seq<u8>> {
    match id {
        Some(v) => Some(v@),
        None => None,
    }
}

impl View for Event {
    type V = EventView;

    open spec fn view(&self) -> EventView {
        match *self {
            Event::Scheduled { when, index } => EventView::Scheduled { when, index },
            Event::Cancelled { when, index } => EventView::Cancelled { when, index },
            Event::Dispatched { task, id, result } => EventView::Dispatched {
                task,
                id: bytes_view(id),
                result,
            },
            Event::LookupFailed { task, id } => EventView::LookupFailed { task, id: bytes_view(id) },
        }
    }
}

/// Mathematical value of a log of events.
pub open spec fn events_view(log: Seq<Event>) -> Seq<EventView> {
    Seq::new(log.len(), |i: int| log[i]@)
}

/// Sum of two weights that stops at the largest weight.
pub open spec fn saturating_sum(a: Weight, b: Weight) -> Weight {
    if a + b > u64::MAX {
        u64::MAX
    } else {
        (a + b) as u64
    }
}

/// The priority that is served in its slot whatever the budget.
pub open spec fn hard_deadline() -> Priority {
    63
}

/// frame_support's constant `HARD_DEADLINE`. Trusted: its value is 63.
#[verifier::external_body]
pub(crate) fn frame_hard_deadline() -> (priority: Priority)
    ensures
        priority == hard_deadline(),
{
    frame_support::traits::schedule::HARD_DEADLINE
}

/// Copies a byte string.
pub fn clone_bytes(bytes: &Vec<u8>) -> (copy: Vec<u8>)
    ensures
        copy@ == bytes@,
{
    let mut copy: Vec<u8> = Vec::new();
    let mut i: usize = 0;
    while i < bytes.len()
        invariant
            i <= bytes.len(),
            copy@ == bytes@.subrange(0, i as int),
        decreases bytes.len() - i,
    {
        copy.push(bytes[i]);
        proof {
            assert(bytes@.subrange(0, i + 1) =~= bytes@.subrange(0, i as int).push(bytes@[i as int]));
        }
        i += 1;
    }
    proof {
        assert(bytes@.subrange(0, bytes@.len() as int) =~= bytes@);
    }
    copy
}

/// Copies an optional name.
pub fn clone_id(id: &Option<Vec<u8>>) -> (copy: Option<Vec<u8>>)
    ensures
        bytes_view(copy) == bytes_view(*id),
{
    match id {
        Some(name) => Some(clone_bytes(name)),
        None => None,
    }
}

/// Whether two byte strings hold the same bytes.
pub fn bytes_eq(a: &Vec<u8>, b: &Vec<u8>) -> (same: bool)
    ensures
        same == (a@ == b@),
{
    if a.len() != b.len() {
        return false;
    }
    let mut i: usize = 0;
    while i < a.len()
        invariant
            i <= a.len(),
            a.len() == b.len(),
            a@.subrange(0, i as int) == b@.subrange(0, i as int),
        decreases a.len() - i,
    {
        if a[i] != b[i] {
            return false;
        }
        proof {
            assert(a@.subrange(0, i + 1) =~= a@.subrange(0, i as int).push(a@[i as int]));
            assert(b@.subrange(0, i + 1) =~= b@.subrange(0, i as int).push(b@[i as int]));
        }
        i += 1;
    }
    proof {
        assert(a@.subrange(0, a@.len() as int) =~= a@);
        assert(b@.subrange(0, b@.len() as int) =~= b@);
    }
    true
}

} // verus!
