//! Refunding a ticket out of the event's vault.
use vstd::prelude::*;

use crate::address::{derived, vault_address, vault_seeds, Address};
use crate::errors::{EventTicketingError, Failure};
use crate::state::{Event, Ticket, Transfer};

verus! {

/// The addresses a refund names.
#[derive(Clone, Copy, Debug, PartialEq, Eq)]
pub struct Refund {
    /// The event the ticket was sold for.
    pub event: Address,
    /// The ticket to refund.
    pub ticket: Address,
    /// The vault of the event, out of which the refund is paid.
    pub vault: Address,
    /// The caller, who has signed the operation.
    pub event_authority: Address,
}

impl Refund {
    /// What a refund comes to for the records found at the named addresses:
    /// the ticket as it is left and the payment to make, or why the refund is
    /// turned down.
    ///
    /// The amount is the event's present price.  The vault signs nothing: that
    /// its address is the one derived from the event is what authorizes the
    /// payment out of it.
    pub open spec fn outcome(self, event: Event, ticket: Ticket) -> Result<
        (Ticket, Transfer),
        Failure,
    > {
        if event.event_authority != self.event_authority {
            Err(Failure::ConstraintViolated)
        } else if ticket.event != self.event {
            Err(Failure::ConstraintViolated)
        } else if ticket.is_used {
            Err(Failure::Program(EventTicketingError::CannotRefundUsedTicket))
        } else if ticket.refunded {
            Err(Failure::Program(EventTicketingError::AlreadyRefunded))
        } else if derived(vault_seeds(self.event)) != Some(self.vault) {
            Err(Failure::ConstraintSeeds)
        } else {
            Ok(
                (
                    Ticket { refunded: true, ..ticket },
                    Transfer { from: self.vault, to: ticket.owner, lamports: event.price },
                ),
            )
        }
    }
}

/// Refunds `ticket` of `event` on behalf of the event's authority.
///
/// On success the ticket is marked refunded and the payment of the event's
/// price from the vault to the ticket's owner is returned for the caller to
/// carry out.  The sold count of the event is not touched: a refunded place
/// is not sold again.  On failure the ticket is left as it was.
pub fn refund(accounts: &Refund, event: &Event, ticket: &mut Ticket) -> (r: Result<
    Transfer,
    Failure,
>)
    ensures
        match accounts.outcome(*event, *old(ticket)) {
            Ok((after, payment)) => r == Ok::<Transfer, Failure>(payment) && *final(ticket)
                == after,
            Err(e) => r == Err::<Transfer, Failure>(e) && *final(ticket) == *old(ticket),
        },
{
    if event.event_authority != accounts.event_authority {
        return Err(Failure::ConstraintViolated);
    }
    if ticket.event != accounts.event {
        return Err(Failure::ConstraintViolated);
    }
    if ticket.is_used {
        return Err(Failure::Program(EventTicketingError::CannotRefundUsedTicket));
    }
    if ticket.refunded {
        return Err(Failure::Program(EventTicketingError::AlreadyRefunded));
    }
    let vault_matches = match vault_address(&accounts.event) {
        Some(vault) => vault == accounts.vault,
        None => false,
    };
    if !vault_matches {
        return Err(Failure::ConstraintSeeds);
    }
    let payment = Transfer { from: accounts.vault, to: ticket.owner, lamports: event.price };
    ticket.refunded = true;
    Ok(payment)
}

} // verus!
