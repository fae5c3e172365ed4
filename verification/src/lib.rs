//! An event-ticketing engine for a ledger of addressed records.
//!
//! An organizer creates an event with a fixed supply and price, buyers mint
//! tickets by paying into the event's vault, and the organizer checks tickets
//! in, refunds them, or cancels the event.  Every rule is stated as a
//! contract and proved.
//!
//! * [`state`] holds the records, [`layout`] their binary form, and
//!   [`address`] the identities and the derived addresses under which
//!   records live.
//! * [`instructions`] holds one function per operation; each works on the
//!   records it is handed and names the payment to make, if any.
//! * [`table`] and [`ledger`] are a store of records and balances that runs
//!   the operations atomically, and [`laws`] proves what holds of every
//!   state it reaches.
//!
//! Beside the engine stand four small modules that share nothing with it:
//! [`calculator`], a checked-arithmetic calculator with a history;
//! [`shapes`], the error kinds of a geometry module; [`vault`], withdrawal
//! from a lockable vault; and [`twitter`], taking back a reaction to a tweet.
pub mod address;
pub mod calculator;
pub mod constants;
pub mod errors;
pub mod instructions;
pub mod laws;
pub mod layout;
pub mod ledger;
pub mod shapes;
pub mod state;
pub mod table;
pub mod twitter;
pub mod vault;
