//! Costs that the scheduler charges for its own work, measured per kind of
//! task as a line over the number of tasks served.

use vstd::prelude::*;

use crate::primitives::Weight;

verus! {

/// A cost that grows by a fixed amount with every task served and stops at
/// the largest weight.
#[derive(Clone, Copy, Debug, PartialEq, Eq, Structural)]
pub struct LinearWeight {
    /// Cost of serving no task.
    pub base: Weight,
    /// Cost added by each task.
    pub per_item: Weight,
}

impl LinearWeight {
    /// The cost of serving `items` tasks.
    pub open spec fn spec_at(self, items: u32) -> Weight {
        if self.base + self.per_item * items > u64::MAX {
            u64::MAX
        } else {
            (self.base + self.per_item * items) as u64
        }
    }

    /// The cost of serving `items` tasks.
    pub fn at(self, items: u32) -> (cost: Weight)
        ensures
            cost == self.spec_at(items),
    {
        proof {
            assert(self.per_item * items <= 0xffff_ffff_ffff_ffff * 0xffff_ffff) by (nonlinear_arith)
                requires
                    0 <= self.per_item <= 0xffff_ffff_ffff_ffff,
                    0 <= items <= 0xffff_ffff,
            ;
        }
        let grown: u128 = (self.per_item as u128) * (items as u128);
        let total: u128 = (self.base as u128) + grown;
        if total > u64::MAX as u128 {
            u64::MAX
        } else {
            total as u64
        }
    }
}

/// The measured costs of serving a slot, one line for each kind of task.
#[derive(Clone, Copy, Debug, PartialEq, Eq, Structural)]
pub struct WeightInfo {
    /// One-off tasks without a name, given in full.
    pub on_initialize: LinearWeight,
    /// One-off tasks with a name, given in full.
    pub on_initialize_named: LinearWeight,
    /// Repeating tasks without a name, given in full.
    pub on_initialize_periodic: LinearWeight,
    /// Repeating tasks with a name, given in full.
    pub on_initialize_periodic_named: LinearWeight,
    /// One-off tasks without a name, whose payload was looked up and released.
    pub on_initialize_resolved: LinearWeight,
    /// One-off tasks with a name, whose payload was looked up and released.
    pub on_initialize_named_resolved: LinearWeight,
    /// Repeating tasks without a name, whose payload was looked up and released.
    pub on_initialize_periodic_resolved: LinearWeight,
    /// Repeating tasks with a name, whose payload was looked up and released.
    pub on_initialize_periodic_named_resolved: LinearWeight,
    /// Tasks without a name that were not run.
    pub on_initialize_aborted: LinearWeight,
    /// Tasks with a name that were not run.
    pub on_initialize_named_aborted: LinearWeight,
}

impl WeightInfo {
    /// The line that measures one kind of task. `resolved` is `None` for a
    /// task that was not run, and otherwise says whether its payload was
    /// looked up and released.
    pub open spec fn curve(
        self,
        periodic: bool,
        named: bool,
        resolved: Option<bool>,
    ) -> LinearWeight {
        match (periodic, named, resolved) {
            (_, false, None) => self.on_initialize_aborted,
            (_, true, None) => self.on_initialize_named_aborted,
            (false, false, Some(false)) => self.on_initialize,
            (false, true, Some(false)) => self.on_initialize_named,
            (true, false, Some(false)) => self.on_initialize_periodic,
            (true, true, Some(false)) => self.on_initialize_periodic_named,
            (false, false, Some(true)) => self.on_initialize_resolved,
            (false, true, Some(true)) => self.on_initialize_named_resolved,
            (true, false, Some(true)) => self.on_initialize_periodic_resolved,
            (true, true, Some(true)) => self.on_initialize_periodic_named_resolved,
        }
    }

    /// The fixed cost of entering a slot.
    pub open spec fn spec_base(self) -> Weight {
        self.on_initialize.spec_at(0)
    }

    /// The fixed cost of entering a slot.
    pub fn base(&self) -> (cost: Weight)
        ensures
            cost == self.spec_base(),
    {
        self.on_initialize.at(0)
    }

    /// What one more task of the given kind adds to the cost of a slot: the
    /// step from one task to two on that kind's line.
    pub open spec fn spec_item(
        self,
        periodic: bool,
        named: bool,
        resolved: Option<bool>,
    ) -> Weight {
        (self.curve(periodic, named, resolved).spec_at(2) - self.curve(
            periodic,
            named,
            resolved,
        ).spec_at(1)) as u64
    }

    /// What one more task of the given kind adds to the cost of a slot.
    pub fn item(&self, periodic: bool, named: bool, resolved: Option<bool>) -> (cost: Weight)
        ensures
            cost == self.spec_item(periodic, named, resolved),
            cost <= self.curve(periodic, named, resolved).per_item,
    {
        let line = match (periodic, named, resolved) {
            (_, false, None) => self.on_initialize_aborted,
            (_, true, None) => self.on_initialize_named_aborted,
            (false, false, Some(false)) => self.on_initialize,
            (false, true, Some(false)) => self.on_initialize_named,
            (true, false, Some(false)) => self.on_initialize_periodic,
            (true, true, Some(false)) => self.on_initialize_periodic_named,
            (false, false, Some(true)) => self.on_initialize_resolved,
            (false, true, Some(true)) => self.on_initialize_named_resolved,
            (true, false, Some(true)) => self.on_initialize_periodic_resolved,
            (true, true, Some(true)) => self.on_initialize_periodic_named_resolved,
        };
        line.at(2) - line.at(1)
    }
}

} // verus!
