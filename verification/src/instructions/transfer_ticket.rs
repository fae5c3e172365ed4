//! Handing a ticket to a new owner.
use vstd::prelude::*;

use crate::address::Address;
use crate::errors::{EventTicketingError, Failure};
use crate::state::Ticket;

verus! {

/// The addresses a transfer of a ticket names.
#[derive(Clone, Copy, Debug, PartialEq, Eq)]
pub struct TransferTicket {
    /// The ticket that changes hands.
    pub ticket: Address,
    /// The caller, who has signed the operation.
    pub current_owner: Address,
    /// Who receives the ticket.  The recipient does not sign.
    pub new_owner: Address,
}

impl TransferTicket {
    /// What a transfer comes to for the ticket found at the named address:
    /// the ticket as it is left, or why the transfer is turned down.
    pub open spec fn outcome(self, ticket: Ticket) -> Result<Ticket, Failure> {
        if ticket.owner != self.current_owner {
            Err(Failure::Program(EventTicketingError::UnauthorizedTransfer))
        } else if ticket.is_used {
            Err(Failure::Program(EventTicketingError::TicketAlreadyUsed))
        } else if ticket.refunded {
            Err(Failure::Program(EventTicketingError::AlreadyRefunded))
        } else {
            Ok(Ticket { owner: self.new_owner, ..ticket })
        }
    }
}

/// Makes the named recipient the owner of `ticket`.
///
/// No currency moves.  On failure the ticket is left as it was.
pub fn transfer_ticket(accounts: &TransferTicket, ticket: &mut Ticket) -> (r: Result<(), Failure>)
    ensures
        match accounts.outcome(*old(ticket)) {
            Ok(after) => r is Ok && *final(ticket) == after,
            Err(e) => r == Err::<(), Failure>(e) && *final(ticket) == *old(ticket),
        },
{
    if ticket.owner != accounts.current_owner {
        return Err(Failure::Program(EventTicketingError::UnauthorizedTransfer));
    }
    if ticket.is_used {
        return Err(Failure::Program(EventTicketingError::TicketAlreadyUsed));
    }
    if ticket.refunded {
        return Err(Failure::Program(EventTicketingError::AlreadyRefunded));
    }
    ticket.owner = accounts.new_owner;
    Ok(())
}

} // verus!
