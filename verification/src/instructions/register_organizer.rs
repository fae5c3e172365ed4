//! Registering an organizer.
use vstd::prelude::*;

use crate::address::{derived, organizer_address, organizer_seeds, Address};
use crate::errors::Failure;
use crate::state::OrganizerRegistry;

verus! {

/// The addresses a registration names.
#[derive(Clone, Copy, Debug, PartialEq, Eq)]
pub struct RegisterOrganizer {
    /// Where the registry record is to be created.
    pub organizer_registry: Address,
    /// The organizer, who has signed the operation.
    pub organizer: Address,
}

impl RegisterOrganizer {
    /// Whether the registry record is named at the address derived from the
    /// organizer.
    pub open spec fn well_addressed(self) -> bool {
        derived(organizer_seeds(self.organizer)) == Some(self.organizer_registry)
    }
}

/// Makes the registry record of an organizer who registers at the time
/// `unix_timestamp`, which is the ledger's clock at the time of the call.
///
/// The record is returned for the caller to store at the address the
/// operation named for it.
pub fn register_organizer(accounts: &RegisterOrganizer, unix_timestamp: i64) -> (r: Result<
    OrganizerRegistry,
    Failure,
>)
    ensures
        r == (if accounts.well_addressed() {
            Ok::<OrganizerRegistry, Failure>(
                OrganizerRegistry { organizer: accounts.organizer, registered_at: unix_timestamp },
            )
        } else {
            Err::<OrganizerRegistry, Failure>(Failure::ConstraintSeeds)
        }),
{
    let registry_matches = match organizer_address(&accounts.organizer) {
        Some(registry) => registry == accounts.organizer_registry,
        None => false,
    };
    if !registry_matches {
        return Err(Failure::ConstraintSeeds);
    }
    Ok(OrganizerRegistry { organizer: accounts.organizer, registered_at: unix_timestamp })
}

} // verus!
