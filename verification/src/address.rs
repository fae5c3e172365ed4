//! Identities and the addresses derived from them.
//!
//! Records are not linked by free-form keys.  Each lives at an address that is
//! computed from a fixed tag and the identifiers of its parents, so that the
//! address both finds the record and proves its parentage.
use anchor_lang::prelude::Pubkey;
use vstd::prelude::*;

use crate::constants::{EVENT_SEED, ORGANIZER_SEED, PROGRAM_ID, TICKET_SEED, VAULT_SEED};
use crate::layout::{put_u32, spec_u32_le};

verus! {

/// A 32-byte identity: a signer's key or the address of a record.
#[derive(Clone, Copy, Debug, Hash)]
pub struct Address {
    pub bytes: [u8; 32],
}

impl View for Address {
    type V = Seq<u8>;

    open spec fn view(&self) -> Seq<u8> {
        self.bytes@
    }
}

impl PartialEq for Address {
    fn eq(&self, other: &Address) -> (r: bool) {
        let mut i: usize = 0;
        while i < 32
            invariant
                i <= 32,
                forall|j: int| 0 <= j < i ==> self.bytes[j] == other.bytes[j],
            decreases 32 - i,
        {
            if self.bytes[i] != other.bytes[i] {
                return false;
            }
            i = i + 1;
        }
        assert(self.bytes =~= other.bytes);
        true
    }
}

impl Eq for Address {

}

impl vstd::std_specs::cmp::PartialEqSpecImpl for Address {
    open spec fn obeys_eq_spec() -> bool {
        true
    }

    open spec fn eq_spec(&self, other: &Address) -> bool {
        *self == *other
    }
}

/// Two addresses with the same bytes are the same address.
pub proof fn lemma_address_by_bytes(a: Address, b: Address)
    requires
        a@ == b@,
    ensures
        a == b,
{
    assert(a.bytes =~= b.bytes);
}

impl Address {
    /// The address made of the given bytes.
    pub fn new(bytes: [u8; 32]) -> (r: Address)
        ensures
            r.bytes == bytes,
    {
        Address { bytes }
    }

    /// The bytes of the address, as a growable vector.
    pub fn to_vec(&self) -> (v: Vec<u8>)
        ensures
            v@ == self@,
    {
        let mut v: Vec<u8> = Vec::new();
        let mut i: usize = 0;
        while i < 32
            invariant
                i <= 32,
                v@ == self@.subrange(0, i as int),
            decreases 32 - i,
        {
            v.push(self.bytes[i]);
            assert(v@ =~= self@.subrange(0, i + 1));
            i = i + 1;
        }
        assert(v@ =~= self@);
        v
    }
}

/// The identity of the ticketing program.
pub fn program_id() -> (r: Address)
    ensures
        r.bytes == PROGRAM_ID,
{
    Address { bytes: PROGRAM_ID }
}

/// What the ledger's address derivation yields for a list of seeds under a
/// program identity: the derived address together with the bump byte that
/// completed it, or nothing when no bump gives a usable address.
pub uninterp spec fn program_address(seeds: Seq<Seq<u8>>, program_id: Seq<u8>) -> Option<
    (Seq<u8>, u8),
>;

/// The bytes of each seed of a list.
pub open spec fn seed_bytes(seeds: Seq<&[u8]>) -> Seq<Seq<u8>> {
    seeds.map_values(|seed: &[u8]| seed@)
}

/// Calls `Pubkey::try_find_program_address` of the `anchor_lang` prelude.
///
/// Trusted: the result is taken to be a function of the seeds and the program
/// identity alone, named [`program_address`].  Off the ledger the outside
/// function hashes the seeds, a bump byte counted down from 255, the program
/// identity and a fixed marker, and returns the first hash that is not a curve
/// point; it returns `None` rather than panic when none is found or a seed is
/// over-long.
#[verifier::external_body]
fn try_find_program_address(seeds: &Vec<&[u8]>, program_id: &Address) -> (r: Option<
    (Address, u8),
>)
    ensures
        match r {
            Some((address, bump)) => program_address(seed_bytes(seeds@), program_id@) == Some(
                (address@, bump),
            ),
            None => program_address(seed_bytes(seeds@), program_id@) is None,
        },
{
    match Pubkey::try_find_program_address(seeds, &Pubkey::new_from_array(program_id.bytes)) {
        Some((key, bump)) => Some((Address { bytes: key.to_bytes() }, bump)),
        None => None,
    }
}

/// The address with the given bytes, where there are 32 of them.
pub open spec fn address_of(bytes: Seq<u8>) -> Address {
    choose|a: Address| a@ == bytes
}

/// The address derived from `seeds` under the program's own identity.
pub open spec fn derived(seeds: Seq<Seq<u8>>) -> Option<Address> {
    match program_address(seeds, PROGRAM_ID@) {
        Some((bytes, _)) => Some(address_of(bytes)),
        None => None,
    }
}

/// Derives the address for `seeds` under the program's own identity.
pub fn derive(seeds: &Vec<Vec<u8>>) -> (r: Option<Address>)
    ensures
        r == derived(seeds.deep_view()),
{
    let mut parts: Vec<&[u8]> = Vec::new();
    let mut i: usize = 0;
    while i < seeds.len()
        invariant
            i <= seeds.len(),
            parts@.len() == i,
            forall|j: int| 0 <= j < i ==> (#[trigger] parts@[j])@ == seeds@[j]@,
        decreases seeds.len() - i,
    {
        parts.push(seeds[i].as_slice());
        i = i + 1;
    }
    assert(seed_bytes(parts@) =~~= seeds.deep_view());
    let owner = program_id();
    match try_find_program_address(&parts, &owner) {
        Some((address, _)) => {
            proof {
                lemma_address_by_bytes(address, address_of(address@));
            }
            Some(address)
        },
        None => None,
    }
}

/// Seeds of an organizer's registry: the tag `organizer`, then the organizer.
pub open spec fn organizer_seeds(organizer: Address) -> Seq<Seq<u8>> {
    seq![ORGANIZER_SEED@, organizer@]
}

/// Seeds of an event: the tag `event`, the authority, then the event's number
/// as four little-endian bytes.
pub open spec fn event_seeds(authority: Address, event_id: u32) -> Seq<Seq<u8>> {
    seq![EVENT_SEED@, authority@, spec_u32_le(event_id)]
}

/// Seeds of an event's vault: the tag `vault`, then the event's address.
pub open spec fn vault_seeds(event: Address) -> Seq<Seq<u8>> {
    seq![VAULT_SEED@, event@]
}

/// Seeds of a ticket: the tag `ticket`, the event's address, then the number
/// of tickets sold before it as four little-endian bytes.
pub open spec fn ticket_seeds(event: Address, ticket_id: u32) -> Seq<Seq<u8>> {
    seq![TICKET_SEED@, event@, spec_u32_le(ticket_id)]
}

/// Copies a tag into a vector.
fn tag_vec<const N: usize>(tag: &[u8; N]) -> (v: Vec<u8>)
    ensures
        v@ == tag@,
{
    let mut v: Vec<u8> = Vec::new();
    let mut i: usize = 0;
    while i < N
        invariant
            i <= N,
            v@ == tag@.subrange(0, i as int),
        decreases N - i,
    {
        v.push(tag[i]);
        assert(v@ =~= tag@.subrange(0, i + 1));
        i = i + 1;
    }
    assert(v@ =~= tag@);
    v
}

/// The address of the registry record of `organizer`.
pub fn organizer_address(organizer: &Address) -> (r: Option<Address>)
    ensures
        r == derived(organizer_seeds(*organizer)),
{
    let mut seeds: Vec<Vec<u8>> = Vec::new();
    seeds.push(tag_vec(&ORGANIZER_SEED));
    seeds.push(organizer.to_vec());
    assert(seeds.deep_view() =~~= organizer_seeds(*organizer));
    derive(&seeds)
}

/// The address of the event numbered `event_id` under `authority`.
pub fn event_address(authority: &Address, event_id: u32) -> (r: Option<Address>)
    ensures
        r == derived(event_seeds(*authority, event_id)),
{
    let mut seeds: Vec<Vec<u8>> = Vec::new();
    seeds.push(tag_vec(&EVENT_SEED));
    seeds.push(authority.to_vec());
    let mut number: Vec<u8> = Vec::new();
    put_u32(&mut number, event_id);
    assert(number@ =~= spec_u32_le(event_id));
    seeds.push(number);
    assert(seeds.deep_view() =~~= event_seeds(*authority, event_id));
    derive(&seeds)
}

/// The address of the vault that holds the takings of `event`.
pub fn vault_address(event: &Address) -> (r: Option<Address>)
    ensures
        r == derived(vault_seeds(*event)),
{
    let mut seeds: Vec<Vec<u8>> = Vec::new();
    seeds.push(tag_vec(&VAULT_SEED));
    seeds.push(event.to_vec());
    assert(seeds.deep_view() =~~= vault_seeds(*event));
    derive(&seeds)
}

/// The address of the ticket of `event` that was sold as number `ticket_id`.
pub fn ticket_address(event: &Address, ticket_id: u32) -> (r: Option<Address>)
    ensures
        r == derived(ticket_seeds(*event, ticket_id)),
{
    let mut seeds: Vec<Vec<u8>> = Vec::new();
    seeds.push(tag_vec(&TICKET_SEED));
    seeds.push(event.to_vec());
    let mut number: Vec<u8> = Vec::new();
    put_u32(&mut number, ticket_id);
    assert(number@ =~= spec_u32_le(ticket_id));
    seeds.push(number);
    assert(seeds.deep_view() =~~= ticket_seeds(*event, ticket_id));
    derive(&seeds)
}

} // verus!
