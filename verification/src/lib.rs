//! A deferred-task scheduler: work is registered for a future slot, optionally
//! under a name and optionally repeating, and is served slot by slot in order
//! of priority within a weight budget.
//!
//! The state lives in [`Pallet`]: the [`Agenda`] of tasks by slot, the
//! [`Lookup`] of names, the current slot and a log of notifications. The
//! surroundings stand behind two traits. A
//! [`PreimageProviderAndMaybeRecipient`] resolves payloads that are given by
//! hash; a [`Config`] compares privileges and runs the calls. Both keep
//! records of what they were asked, over which the contracts say what the
//! scheduler asks of them.
//!
//! Every operation is specified against a mathematical model. `model` holds
//! the state and its invariant, `requests` what scheduling, cancelling and
//! rescheduling do, `engine` what serving a slot does, and `order` the order
//! of service. `laws` states what follows for the scheduler as a whole.

pub mod agenda;
pub mod api;
pub mod encoded;
pub mod engine;
pub mod host;
pub mod invariants;
pub mod laws;
pub mod lookup;
pub mod model;
pub mod order;
pub mod pallet;
pub mod primitives;
pub mod requests;
pub mod scheduled;
pub mod service;
pub mod service_proofs;
pub mod weights;

pub use agenda::Agenda;
pub use engine::Answer;
pub use encoded::{CallOrHashOf, EncodedCallOrHashOf};
pub use host::{Config, PostDispatchInfo, PreimageProviderAndMaybeRecipient};
pub use lookup::Lookup;
pub use pallet::Pallet;
pub use scheduled::{Parameters, Scheduled, ScheduledV3};
pub use weights::{LinearWeight, WeightInfo};
pub use primitives::{
    BlockNumber, CallHash, DispatchError, DispatchTime, Error, Event, PalletsOrigin, Period,
    PeriodicIndex, Priority, Privilege, TaskAddress, Weight,
};
