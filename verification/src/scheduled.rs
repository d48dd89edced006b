//! The unit of scheduled work and the deployment's fixed parameters.

use vstd::prelude::*;

use crate::encoded::{payload_of, CallOrHashView, EncodedCallOrHashOf};
use crate::primitives::{bytes_view, BlockNumber, PalletsOrigin, Period, Priority, Weight};
use crate::weights::WeightInfo;

verus! {

/// A task: work that is due in some slot.
#[derive(Debug, PartialEq, Eq)]
pub struct ScheduledV3 {
    /// The name under which the task can be found, if it has one.
    pub maybe_id: Option<Vec<u8>>,
    /// How urgent the task is. Lower values are served first.
    pub priority: Priority,
    /// What the task runs, in its encoded form.
    pub call: EncodedCallOrHashOf,
    /// For a repeating task, its period and the number of runs it is still owed after the next.
    pub maybe_periodic: Option<Period>,
    /// On whose behalf the task runs.
    pub origin: PalletsOrigin,
}

/// The current version of the task record.
pub type Scheduled = ScheduledV3;

/// Mathematical value of a task.
pub struct ScheduledView {
    pub maybe_id: Option<Seq<u8>>,
    pub priority: Priority,
    /// The encoded payload.
    pub call: Seq<u8>,
    pub maybe_periodic: Option<Period>,
    pub origin: PalletsOrigin,
}

impl ScheduledView {
    /// The payload that the task runs.
    pub open spec fn payload(self) -> CallOrHashView {
        payload_of(self.call)
    }

    /// Whether the task has a name.
    pub open spec fn named(self) -> bool {
        self.maybe_id is Some
    }

    /// The same task with another periodic descriptor.
    pub open spec fn with_periodic(self, maybe_periodic: Option<Period>) -> ScheduledView {
        ScheduledView { maybe_periodic, ..self }
    }
}

impl View for ScheduledV3 {
    type V = ScheduledView;

    open spec fn view(&self) -> ScheduledView {
        ScheduledView {
            maybe_id: bytes_view(self.maybe_id),
            priority: self.priority,
            call: self.call.bytes(),
            maybe_periodic: self.maybe_periodic,
            origin: self.origin,
        }
    }
}

/// One position of a slot: a task, or the gap that a removed task left.
pub type Entry = Option<ScheduledView>;

/// Mathematical value of one position of a slot.
pub open spec fn entry_view(entry: Option<ScheduledV3>) -> Entry {
    match entry {
        Some(task) => Some(task@),
        None => None,
    }
}

/// Mathematical value of the list of tasks due in one slot.
pub open spec fn slot_view(slot: Seq<Option<ScheduledV3>>) -> Seq<Entry> {
    Seq::new(slot.len(), |i: int| entry_view(slot[i]))
}

/// The fixed parameters of a deployment.
#[derive(Clone, Copy, Debug, PartialEq, Eq)]
pub struct Parameters {
    /// The weight that may be spent per slot on tasks that are not exempt.
    pub maximum_weight: Weight,
    /// The maximum number of tasks, gaps included, in the list of one slot.
    pub max_scheduled_per_block: u32,
    /// The maximum number of slots that hold a list, if bounded.
    pub max_agendas: Option<u32>,
    /// The maximum number of names in use, if bounded.
    pub max_schedules: Option<u32>,
    /// The maximum length of a name.
    pub max_schedule_id_len: u32,
    /// The maximum length of an encoded payload.
    pub max_call_len: u32,
    /// The number of slots by which a task is put off when its payload
    /// cannot be resolved. Without it such a task is dropped.
    pub no_preimage_postponement: Option<BlockNumber>,
    /// The costs of the scheduler's own work.
    pub weight_info: WeightInfo,
}

} // verus!
