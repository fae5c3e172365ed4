//! Minting a ticket against payment into the event's vault.
use vstd::prelude::*;

use crate::address::{derived, ticket_address, ticket_seeds, vault_address, vault_seeds, Address};
use crate::errors::{EventTicketingError, Failure};
use crate::state::{Event, Ticket, Transfer};

verus! {

/// The addresses a mint names.
#[derive(Clone, Copy, Debug, PartialEq, Eq)]
pub struct MintTicket {
    /// The event to buy a ticket for.
    pub event: Address,
    /// Where the new ticket is to be created.
    pub ticket: Address,
    /// The vault of the event, into which the price is paid.
    pub vault: Address,
    /// The buyer, who has signed the operation and pays.
    pub buyer: Address,
}

/// What a successful mint produces.
#[derive(Clone, Copy, Debug, PartialEq, Eq)]
pub struct Minted {
    /// The new ticket, to be stored at the address the mint named for it.
    pub ticket: Ticket,
    /// The payment of the price from the buyer to the vault.
    pub payment: Transfer,
}

impl MintTicket {
    /// What a mint comes to for the event found at the named address: the
    /// event as it is left with the ticket and the payment, or why the mint
    /// is turned down.
    ///
    /// The ticket takes the number of tickets sold before it as its number,
    /// and has to be named at the address derived from the event and that
    /// number.
    pub open spec fn outcome(self, event: Event) -> Result<(Event, Minted), Failure> {
        if event.canceled {
            Err(Failure::Program(EventTicketingError::EventCanceled))
        } else if event.sold >= event.supply {
            Err(Failure::Program(EventTicketingError::EventSoldOut))
        } else if derived(ticket_seeds(self.event, event.sold)) != Some(self.ticket) {
            Err(Failure::ConstraintSeeds)
        } else if derived(vault_seeds(self.event)) != Some(self.vault) {
            Err(Failure::ConstraintSeeds)
        } else {
            Ok(
                (
                    Event { sold: (event.sold + 1) as u32, ..event },
                    Minted {
                        ticket: Ticket {
                            owner: self.buyer,
                            event: self.event,
                            ticket_id: event.sold,
                            is_used: false,
                            refunded: false,
                        },
                        payment: Transfer {
                            from: self.buyer,
                            to: self.vault,
                            lamports: event.price,
                        },
                    },
                ),
            )
        }
    }
}

/// Mints the next ticket of `event` for the buyer.
///
/// On success the sold count of the event has grown by one, and the new
/// ticket and the payment of the price from the buyer to the vault are
/// returned for the caller to store and to carry out.  On failure the event
/// is left as it was.
pub fn mint_ticket(accounts: &MintTicket, event: &mut Event) -> (r: Result<Minted, Failure>)
    ensures
        match accounts.outcome(*old(event)) {
            Ok((after, minted)) => r == Ok::<Minted, Failure>(minted) && *final(event) == after,
            Err(e) => r == Err::<Minted, Failure>(e) && *final(event) == *old(event),
        },
{
    if event.canceled {
        return Err(Failure::Program(EventTicketingError::EventCanceled));
    }
    if event.sold >= event.supply {
        return Err(Failure::Program(EventTicketingError::EventSoldOut));
    }
    let ticket_matches = match ticket_address(&accounts.event, event.sold) {
        Some(ticket) => ticket == accounts.ticket,
        None => false,
    };
    if !ticket_matches {
        return Err(Failure::ConstraintSeeds);
    }
    let vault_matches = match vault_address(&accounts.event) {
        Some(vault) => vault == accounts.vault,
        None => false,
    };
    if !vault_matches {
        return Err(Failure::ConstraintSeeds);
    }
    let payment = Transfer { from: accounts.buyer, to: accounts.vault, lamports: event.price };
    let ticket_id: u32 = event.sold;
    let ticket = Ticket {
        owner: accounts.buyer,
        event: accounts.event,
        ticket_id,
        is_used: false,
        refunded: false,
    };
    event.sold = event.sold + 1;
    Ok(Minted { ticket, payment })
}

} // verus!
