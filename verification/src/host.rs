//! What the scheduler needs from its surroundings: the payload resolver,
//! the privilege comparator and the execution of payloads.

use vstd::prelude::*;

use crate::encoded::CallOrHashView;
use crate::primitives::{CallHash, DispatchError, PalletsOrigin, Privilege, Weight};
use crate::scheduled::Entry;

verus! {

/// The payload resolver, which keeps the calls that tasks refer to by hash.
/// It counts the references to each call and keeps a call while one is left.
/// It remembers what it was asked to keep, to let go and to look up: an
/// implementation
/// is trusted to add each request, each release and each lookup to its
/// records and to leave them alone otherwise. Nothing is promised of what it resolves.
pub trait PreimageProviderAndMaybeRecipient {
    /// The hashes that the resolver was asked to keep, in the order of the
    /// requests.
    spec fn requested(&self) -> Vec<CallHash>;

    /// The hashes that the resolver was told are no longer referred to, in
    /// the order in which it was told.
    spec fn released(&self) -> Vec<CallHash>;

    /// The hashes whose calls the resolver was asked for, in the order of
    /// the lookups.
    spec fn sought(&self) -> Vec<CallHash>;

    /// One more task refers to the call with this hash.
    fn request(&mut self, hash: &CallHash)
        ensures
            final(self).requested()@ == old(self).requested()@.push(*hash),
            final(self).released()@ == old(self).released()@,
            final(self).sought()@ == old(self).sought()@,
    ;

    /// One task that referred to the call with this hash no longer does.
    fn release(&mut self, hash: &CallHash)
        ensures
            final(self).released()@ == old(self).released()@.push(*hash),
            final(self).requested()@ == old(self).requested()@,
            final(self).sought()@ == old(self).sought()@,
    ;

    /// The call with this hash, if it is at hand, and whether no other
    /// pending task refers to it.
    fn resolve(&mut self, hash: &CallHash) -> (found: Option<(Vec<u8>, bool)>)
        ensures
            final(self).sought()@ == old(self).sought()@.push(*hash),
            final(self).requested()@ == old(self).requested()@,
            final(self).released()@ == old(self).released()@,
    ;
}

/// What the host reports after it ran a call.
#[derive(Clone, Copy, Debug, PartialEq, Eq)]
pub struct PostDispatchInfo {
    /// Whether the call succeeded.
    pub result: Result<(), DispatchError>,
    /// The weight that the call really took, if the host measured it.
    pub actual_weight: Option<Weight>,
}

/// A call that was run, and the origin on whose behalf it was run.
pub type Run = (Seq<u8>, PalletsOrigin);

/// Mathematical value of a record of runs.
pub open spec fn runs_view(record: Seq<(Vec<u8>, PalletsOrigin)>) -> Seq<Run> {
    Seq::new(record.len(), |i: int| (record[i].0@, record[i].1))
}

/// The surroundings of the scheduler: they compare privileges and run the
/// calls, and remember what they ran. An implementation is trusted to
/// compare as `privilege` says and to add each run to its record. Nothing
/// is promised of the verdicts, the weights or the outcomes.
pub trait Config {
    /// What the comparison of two origins gives. `None` when they cannot be
    /// compared.
    spec fn privilege(&self, left: PalletsOrigin, right: PalletsOrigin) -> Option<Privilege>;

    /// The calls that were run, with their origins, in the order of the
    /// runs.
    spec fn dispatched(&self) -> Vec<(Vec<u8>, PalletsOrigin)>;

    /// Compares the privileges of two origins.
    fn compare_privilege(&self, left: &PalletsOrigin, right: &PalletsOrigin) -> (verdict: Option<
        Privilege,
    >)
        ensures
            verdict == self.privilege(*left, *right),
    ;

    /// The weight that running a call is expected to take.
    fn call_weight(&self, call: &Vec<u8>) -> Weight;

    /// Runs a call on behalf of an origin.
    fn dispatch(&mut self, call: Vec<u8>, origin: PalletsOrigin) -> (post: PostDispatchInfo)
        ensures
            runs_view(final(self).dispatched()@) == runs_view(old(self).dispatched()@).push(
                (call@, origin),
            ),
    ;
}

/// Whether a caller may remove what stands at an address: no caller is
/// given, nothing stands there, or the caller is at least as privileged as
/// the origin of the task.
pub open spec fn permitted<T: Config>(
    host: &T,
    origin: Option<PalletsOrigin>,
    entry: Entry,
) -> bool {
    ||| origin is None
    ||| entry is None
    ||| spec_may_cancel(host.privilege(origin->0, entry->0.origin))
}

/// The record of a resolver's hashes after a payload was handed to it, if
/// it was: a payload given by hash adds its hash.
pub open spec fn noted(
    record: Seq<CallHash>,
    payload: CallOrHashView,
    done: bool,
) -> Seq<CallHash> {
    match payload {
        CallOrHashView::Hash(hash) => if done {
            record.push(hash)
        } else {
            record
        },
        CallOrHashView::Value(_) => record,
    }
}

/// Whether a comparison lets the left origin remove a task of the right
/// one: it must be at least as privileged.
pub open spec fn spec_may_cancel(verdict: Option<Privilege>) -> bool {
    verdict == Some(Privilege::Equal) || verdict == Some(Privilege::Greater)
}

/// Whether a comparison lets the left origin remove a task of the right one.
pub fn may_cancel(verdict: Option<Privilege>) -> (allowed: bool)
    ensures
        allowed == spec_may_cancel(verdict),
{
    match verdict {
        Some(Privilege::Equal) => true,
        Some(Privilege::Greater) => true,
        Some(Privilege::Less) => false,
        None => false,
    }
}

/// The comparison that takes two origins to be equally privileged when they
/// are the same and cannot compare them otherwise.
pub open spec fn spec_equal_privilege_only(left: PalletsOrigin, right: PalletsOrigin) -> Option<
    Privilege,
> {
    if left == right {
        Some(Privilege::Equal)
    } else {
        None
    }
}

/// The comparison that takes two origins to be equally privileged when they
/// are the same and cannot compare them otherwise.
pub fn equal_privilege_only(left: &PalletsOrigin, right: &PalletsOrigin) -> (verdict: Option<
    Privilege,
>)
    ensures
        verdict == spec_equal_privilege_only(*left, *right),
{
    if *left == *right {
        Some(Privilege::Equal)
    } else {
        None
    }
}

} // verus!
