//! The operations of the ticketing engine, one to a file.
//!
//! Each function works on the records found at the addresses an operation
//! names.  It checks every rule, changes the records it is handed, and
//! returns the payment to make where there is one.  Storing the records and
//! moving the currency is the caller's part.
pub mod cancel_event;
pub mod check_in;
pub mod initialize_event;
pub mod mint_ticket;
pub mod refund;
pub mod register_organizer;
pub mod transfer_ticket;

pub use cancel_event::{cancel_event, CancelEvent};
pub use check_in::{check_in, CheckIn};
pub use initialize_event::{initialize_event, InitializeEvent};
pub use mint_ticket::{mint_ticket, MintTicket, Minted};
pub use refund::{refund, Refund};
pub use register_organizer::{register_organizer, RegisterOrganizer};
pub use transfer_ticket::{transfer_ticket, TransferTicket};
