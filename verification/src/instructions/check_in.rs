//! Checking a ticket in at the door.
use vstd::prelude::*;

use crate::address::Address;
use crate::errors::{EventTicketingError, Failure};
use crate::state::{Event, Ticket};

verus! {

/// The addresses a check-in names.
#[derive(Clone, Copy, Debug, PartialEq, Eq)]
pub struct CheckIn {
    /// The event that is being entered.
    pub event: Address,
    /// The ticket that is presented.
    pub ticket: Address,
    /// The caller, who has signed the operation.
    pub event_authority: Address,
}

impl CheckIn {
    /// What a check-in comes to for the records found at the named
    /// addresses: the ticket as it is left, or why the check-in is turned
    /// down.
    pub open spec fn outcome(self, event: Event, ticket: Ticket) -> Result<Ticket, Failure> {
        if ticket.event != self.event {
            Err(Failure::Program(EventTicketingError::UnauthorizedCheckIn))
        } else if self.event_authority != event.event_authority {
            Err(Failure::Program(EventTicketingError::UnauthorizedCheckIn))
        } else if ticket.is_used {
            Err(Failure::Program(EventTicketingError::AlreadyCheckedIn))
        } else if ticket.refunded {
            Err(Failure::Program(EventTicketingError::AlreadyRefunded))
        } else {
            Ok(Ticket { is_used: true, ..ticket })
        }
    }
}

/// Marks `ticket` as used on behalf of the authority of `event`.
///
/// A ticket is checked in once and stays used.  On failure the ticket is left
/// as it was.
pub fn check_in(accounts: &CheckIn, event: &Event, ticket: &mut Ticket) -> (r: Result<(), Failure>)
    ensures
        match accounts.outcome(*event, *old(ticket)) {
            Ok(after) => r is Ok && *final(ticket) == after,
            Err(e) => r == Err::<(), Failure>(e) && *final(ticket) == *old(ticket),
        },
{
    if ticket.event != accounts.event {
        return Err(Failure::Program(EventTicketingError::UnauthorizedCheckIn));
    }
    if accounts.event_authority != event.event_authority {
        return Err(Failure::Program(EventTicketingError::UnauthorizedCheckIn));
    }
    if ticket.is_used {
        return Err(Failure::Program(EventTicketingError::AlreadyCheckedIn));
    }
    if ticket.refunded {
        return Err(Failure::Program(EventTicketingError::AlreadyRefunded));
    }
    ticket.is_used = true;
    Ok(())
}

} // verus!
