//! The failures an operation can end in.
use vstd::prelude::*;

verus! {

/// A rule of the ticketing engine that an operation broke.
#[derive(Clone, Copy, Debug, PartialEq, Eq, Structural)]
pub enum EventTicketingError {
    EventAlreadyExists,
    EventSoldOut,
    EventCanceled,
    UnauthorizedTransfer,
    TicketAlreadyUsed,
    AlreadyCheckedIn,
    UnauthorizedCheckIn,
    CannotRefundUsedTicket,
    AlreadyRefunded,
    NameTooLong,
    DateTooLong,
}

impl EventTicketingError {
    /// The text that explains the error to a person.
    pub open spec fn spec_message(self) -> Seq<char> {
        match self {
            EventTicketingError::EventAlreadyExists => "Event already exists"@,
            EventTicketingError::EventSoldOut => "Event is sold out"@,
            EventTicketingError::EventCanceled => "Event has been canceled"@,
            EventTicketingError::UnauthorizedTransfer => "Only the ticket owner can transfer"@,
            EventTicketingError::TicketAlreadyUsed => "Cannot transfer a used ticket"@,
            EventTicketingError::AlreadyCheckedIn => "Ticket has already been checked in"@,
            EventTicketingError::UnauthorizedCheckIn => "Only event authority can check in tickets"@,
            EventTicketingError::CannotRefundUsedTicket => "Cannot refund a used ticket"@,
            EventTicketingError::AlreadyRefunded => "Ticket has already been refunded"@,
            EventTicketingError::NameTooLong => "Event name is too long"@,
            EventTicketingError::DateTooLong => "Event date is too long"@,
        }
    }

    /// The text that explains the error to a person.
    pub fn message(&self) -> (r: &'static str)
        ensures
            r@ == self.spec_message(),
    {
        match self {
            EventTicketingError::EventAlreadyExists => "Event already exists",
            EventTicketingError::EventSoldOut => "Event is sold out",
            EventTicketingError::EventCanceled => "Event has been canceled",
            EventTicketingError::UnauthorizedTransfer => "Only the ticket owner can transfer",
            EventTicketingError::TicketAlreadyUsed => "Cannot transfer a used ticket",
            EventTicketingError::AlreadyCheckedIn => "Ticket has already been checked in",
            EventTicketingError::UnauthorizedCheckIn => "Only event authority can check in tickets",
            EventTicketingError::CannotRefundUsedTicket => "Cannot refund a used ticket",
            EventTicketingError::AlreadyRefunded => "Ticket has already been refunded",
            EventTicketingError::NameTooLong => "Event name is too long",
            EventTicketingError::DateTooLong => "Event date is too long",
        }
    }
}

/// Why an operation was turned down.  Nothing has changed when one is
/// returned.
#[derive(Clone, Copy, Debug, PartialEq, Eq, Structural)]
pub enum Failure {
    /// A rule of the ticketing engine was broken.
    Program(EventTicketingError),
    /// A named address holds no record of the kind the operation needs.
    MissingRecord,
    /// A supplied address is not the one derived for its role.
    ConstraintSeeds,
    /// The caller is not the authority of the event, or the ticket belongs to
    /// another event, in an operation that names no error of its own for it.
    ConstraintViolated,
    /// The address at which a record was to be created is already occupied.
    CreationCollision,
    /// The paying side holds less than the amount to move.
    InsufficientFunds,
    /// The receiving side cannot hold the amount on top of its balance.
    BalanceOverflow,
}

} // verus!
