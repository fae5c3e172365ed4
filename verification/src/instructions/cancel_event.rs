//! Canceling an event.
use vstd::prelude::*;

use crate::address::Address;
use crate::errors::Failure;
use crate::state::Event;

verus! {

/// The addresses a cancellation names.
#[derive(Clone, Copy, Debug, PartialEq, Eq)]
pub struct CancelEvent {
    /// The event to cancel.
    pub event: Address,
    /// The caller, who has signed the operation.
    pub event_authority: Address,
}

impl CancelEvent {
    /// What a cancellation comes to for the event found at the named
    /// address: the event as it is left, or why the cancellation is turned
    /// down.
    pub open spec fn outcome(self, event: Event) -> Result<Event, Failure> {
        if event.event_authority != self.event_authority {
            Err(Failure::ConstraintViolated)
        } else {
            Ok(Event { canceled: true, ..event })
        }
    }
}

/// Cancels `event` on behalf of its authority.
///
/// A canceled event stays canceled.  Cancellation stops further minting and
/// nothing else: tickets already sold can still change hands, be checked in
/// and be refunded.  On failure the event is left as it was.
pub fn cancel_event(accounts: &CancelEvent, event: &mut Event) -> (r: Result<(), Failure>)
    ensures
        match accounts.outcome(*old(event)) {
            Ok(after) => r is Ok && *final(event) == after,
            Err(e) => r == Err::<(), Failure>(e) && *final(event) == *old(event),
        },
{
    if event.event_authority != accounts.event_authority {
        return Err(Failure::ConstraintViolated);
    }
    event.canceled = true;
    Ok(())
}

} // verus!
