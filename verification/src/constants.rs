use vstd::prelude::*;

verus! {

/// Tag of an event's address: the ASCII text `event`.
pub const EVENT_SEED: [u8; 5] = [101, 118, 101, 110, 116];

/// Tag of a ticket's address: the ASCII text `ticket`.
pub const TICKET_SEED: [u8; 6] = [116, 105, 99, 107, 101, 116];

/// Tag of a vault's address: the ASCII text `vault`.
pub const VAULT_SEED: [u8; 5] = [118, 97, 117, 108, 116];

/// Tag of an organizer registry's address: the ASCII text `organizer`.
pub const ORGANIZER_SEED: [u8; 9] = [111, 114, 103, 97, 110, 105, 122, 101, 114];

/// Longest event name, in bytes of its UTF-8 encoding.
pub const MAX_NAME_LEN: usize = 50;

/// Longest event date, in bytes of its UTF-8 encoding.
pub const MAX_DATE_LEN: usize = 30;

/// The program's own identity, under which every address is derived.
pub const PROGRAM_ID: [u8; 32] = [
    73, 117, 28, 11, 108, 217, 176, 226, 124, 131, 224, 66, 218, 123, 132, 110,
    253, 162, 137, 166, 222, 99, 68, 129, 224, 20, 233, 190, 137, 125, 32, 113,
];

} // verus!
