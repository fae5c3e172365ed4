//! Creating an event.
use vstd::prelude::*;
use vstd::utf8::encode_utf8;

use crate::address::{derived, event_address, event_seeds, Address};
use crate::constants::{MAX_DATE_LEN, MAX_NAME_LEN};
use crate::errors::{EventTicketingError, Failure};
use crate::state::Event;

verus! {

/// The addresses the creation of an event names.
#[derive(Clone, Copy, Debug, PartialEq, Eq)]
pub struct InitializeEvent {
    /// Where the event is to be created.
    pub event: Address,
    /// The organizer, who has signed the operation and becomes the event's
    /// authority.
    pub event_authority: Address,
}

impl InitializeEvent {
    /// Why the creation of an event with these settings is turned down, if it
    /// is.
    ///
    /// The texts are measured in bytes of UTF-8, and the event has to be
    /// named at the address derived from its authority and its number.
    pub open spec fn rejection(self, event_id: u32, name: Seq<char>, date: Seq<char>) -> Option<
        Failure,
    > {
        if encode_utf8(name).len() > MAX_NAME_LEN {
            Some(Failure::Program(EventTicketingError::NameTooLong))
        } else if encode_utf8(date).len() > MAX_DATE_LEN {
            Some(Failure::Program(EventTicketingError::DateTooLong))
        } else if derived(event_seeds(self.event_authority, event_id)) != Some(self.event) {
            Some(Failure::ConstraintSeeds)
        } else {
            None
        }
    }
}

/// Makes the record of a new event.
///
/// The event starts with nothing sold and not canceled, and keeps the
/// settings as they are given.  It is returned for the caller to store at the
/// address the operation named for it.
pub fn initialize_event(
    accounts: &InitializeEvent,
    event_id: u32,
    price: u64,
    supply: u32,
    name: String,
    date: String,
) -> (r: Result<Event, Failure>)
    ensures
        match accounts.rejection(event_id, name@, date@) {
            Some(e) => r == Err::<Event, Failure>(e),
            None => r == Ok::<Event, Failure>(
                Event {
                    event_authority: accounts.event_authority,
                    price,
                    supply,
                    sold: 0,
                    canceled: false,
                    event_id,
                    name,
                    date,
                },
            ),
        },
        r is Ok ==> r->Ok_0.wf(),
{
    if name.as_str().as_bytes().len() > MAX_NAME_LEN {
        return Err(Failure::Program(EventTicketingError::NameTooLong));
    }
    if date.as_str().as_bytes().len() > MAX_DATE_LEN {
        return Err(Failure::Program(EventTicketingError::DateTooLong));
    }
    let event_matches = match event_address(&accounts.event_authority, event_id) {
        Some(event) => event == accounts.event,
        None => false,
    };
    if !event_matches {
        return Err(Failure::ConstraintSeeds);
    }
    Ok(
        Event {
            event_authority: accounts.event_authority,
            price,
            supply,
            sold: 0,
            canceled: false,
            event_id,
            name,
            date,
        },
    )
}

} // verus!
