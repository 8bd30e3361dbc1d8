//! What a computation left behind, and what its caller does about it.
//!
//! A computation that runs inside a region cannot hand its result straight
//! to the caller: the region has to be given back first. So the result, or
//! the payload of the failure that ended the computation, is put into a slot
//! that outlives the region, and the slot is settled once the region is gone.
use vstd::prelude::*;

verus! {

/// The slot that outlives the region.
pub enum Slot<R, P> {
    /// The computation was never reached.
    Vacant,
    /// The computation returned this value.
    Returned(R),
    /// The computation ended abnormally, with this payload.
    Unwound(P),
}

/// What the caller does once the region is gone.
pub enum Action<R, P> {
    /// Return the value.
    Return(R),
    /// Go on with the failure, as if nothing had stood in its way.
    Resume(P),
    /// Stop for good: there is neither a value nor a failure to go on with.
    Abort,
}

impl<R, P> Slot<R, P> {
    /// The slot that holds `outcome`.
    pub open spec fn recorded(outcome: Result<R, P>) -> Self {
        match outcome {
            Ok(value) => Slot::Returned(value),
            Err(payload) => Slot::Unwound(payload),
        }
    }

    /// What settles the slot.
    pub open spec fn settled(self) -> Action<R, P> {
        match self {
            Slot::Vacant => Action::Abort,
            Slot::Returned(value) => Action::Return(value),
            Slot::Unwound(payload) => Action::Resume(payload),
        }
    }

    /// Stores what the computation came to: its value, or the payload of its
    /// failure.
    pub fn record(outcome: Result<R, P>) -> (slot: Self)
        ensures
            slot == Self::recorded(outcome),
    {
        match outcome {
            Ok(value) => Slot::Returned(value),
            Err(payload) => Slot::Unwound(payload),
        }
    }

    /// Decides what happens after the region is gone. A vacant slot does not
    /// count as a result without a value: the caller has to stop.
    pub fn settle(self) -> (action: Action<R, P>)
        ensures
            action == self.settled(),
    {
        match self {
            Slot::Vacant => Action::Abort,
            Slot::Returned(value) => Action::Return(value),
            Slot::Unwound(payload) => Action::Resume(payload),
        }
    }
}

/// A value is returned exactly where the computation returned it, a failure
/// goes on exactly where the computation raised it, and a recorded outcome
/// never ends in an abort.
pub proof fn lemma_settled_follows_outcome<R, P>(outcome: Result<R, P>)
    ensures
        Slot::recorded(outcome).settled() == match outcome {
            Ok(value) => Action::<R, P>::Return(value),
            Err(payload) => Action::<R, P>::Resume(payload),
        },
        Slot::recorded(outcome).settled() != Action::<R, P>::Abort,
        Slot::<R, P>::Vacant.settled() == Action::<R, P>::Abort,
{
}

} // verus!
