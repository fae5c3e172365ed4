//! The records of the ticketing engine.
use vstd::prelude::*;
use vstd::utf8::encode_utf8;

use crate::address::Address;
use crate::constants::{MAX_DATE_LEN, MAX_NAME_LEN};

verus! {

/// An event: its configuration and its sales counters.
#[derive(Debug, PartialEq, Eq)]
pub struct Event {
    pub event_authority: Address,
    pub price: u64,
    pub supply: u32,
    pub sold: u32,
    pub canceled: bool,
    pub event_id: u32,
    pub name: String,
    pub date: String,
}

impl Clone for Event {
    fn clone(&self) -> (r: Event)
        ensures
            r == *self,
    {
        Event {
            event_authority: self.event_authority,
            price: self.price,
            supply: self.supply,
            sold: self.sold,
            canceled: self.canceled,
            event_id: self.event_id,
            name: self.name.clone(),
            date: self.date.clone(),
        }
    }
}

impl Event {
    /// Length of the event's name in bytes of UTF-8.
    pub open spec fn name_len(&self) -> nat {
        encode_utf8(self.name@).len()
    }

    /// Length of the event's date in bytes of UTF-8.
    pub open spec fn date_len(&self) -> nat {
        encode_utf8(self.date@).len()
    }

    /// An event never has more tickets sold than it has to sell, and its
    /// texts fit the room their record has for them.
    pub open spec fn wf(&self) -> bool {
        &&& self.sold <= self.supply
        &&& self.name_len() <= MAX_NAME_LEN
        &&& self.date_len() <= MAX_DATE_LEN
    }

    /// Size in bytes of an event record whose name and date may take up to
    /// the given numbers of bytes: an 8-byte tag, the authority, the price,
    /// supply, sold count, canceled flag and event number, then each text
    /// behind a 4-byte length.
    pub fn space(max_name_len: usize, max_date_len: usize) -> (r: usize)
        requires
            69 + max_name_len + max_date_len <= usize::MAX,
        ensures
            r == 69 + max_name_len + max_date_len,
    {
        8 + 32 + 8 + 4 + 4 + 1 + 4 + 4 + max_name_len + 4 + max_date_len
    }
}

/// A ticket: who owns it, which event it admits to, and what became of it.
#[derive(Clone, Copy, Debug, PartialEq, Eq)]
pub struct Ticket {
    pub owner: Address,
    pub event: Address,
    pub ticket_id: u32,
    pub is_used: bool,
    pub refunded: bool,
}

impl Ticket {
    /// Size in bytes of a ticket record: an 8-byte tag, two addresses, the
    /// ticket number and two flags.
    pub const SPACE: usize = 8 + 32 + 32 + 4 + 1 + 1;
}

/// Proof that an identity registered itself as an organizer, and when.
#[derive(Clone, Copy, Debug, PartialEq, Eq)]
pub struct OrganizerRegistry {
    pub organizer: Address,
    pub registered_at: i64,
}

impl OrganizerRegistry {
    /// Size in bytes of a registry record: an 8-byte tag, the organizer and
    /// the time of registration.
    pub const SPACE: usize = 8 + 32 + 8;
}

/// A payment that an operation calls for: `lamports` units of currency out
/// of the balance of `from` and into that of `to`.
#[derive(Clone, Copy, Debug, PartialEq, Eq)]
pub struct Transfer {
    pub from: Address,
    pub to: Address,
    pub lamports: u64,
}

} // verus!
