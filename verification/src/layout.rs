//! The binary layout of the records.
//!
//! A record is stored as a tag of eight bytes that tells its kind, followed
//! by its fields in the order in which they are declared: an address as its
//! 32 bytes, a number in little-endian order, a flag as one byte that is 0 or
//! 1, and a text as its length in bytes, in four bytes, followed by its
//! UTF-8 encoding.  Bytes behind the last field are not part of the record
//! and are ignored when it is read.
use vstd::prelude::*;
use vstd::slice::slice_subrange;
use vstd::string::StringExecFns;
use vstd::utf8::{encode_utf8, encode_utf8_decode_utf8, encode_utf8_valid_utf8, valid_utf8};

use crate::address::{lemma_address_by_bytes, Address};
use crate::constants::{MAX_DATE_LEN, MAX_NAME_LEN};
use crate::state::{Event, OrganizerRegistry, Ticket};

verus! {

/// Tag of an event record.
pub const EVENT_TAG: [u8; 8] = [125, 192, 125, 158, 9, 115, 152, 233];

/// Tag of a ticket record.
pub const TICKET_TAG: [u8; 8] = [41, 228, 24, 165, 78, 90, 235, 200];

/// Tag of an organizer registry record.
pub const ORGANIZER_TAG: [u8; 8] = [86, 12, 14, 195, 145, 159, 246, 157];

/// The four bytes of `x`, least significant first.
#[verifier::opaque]
pub open spec fn spec_u32_le(x: u32) -> Seq<u8> {
    seq![
        (x % 256) as u8,
        ((x / 256) % 256) as u8,
        ((x / 65536) % 256) as u8,
        ((x / 16777216) % 256) as u8,
    ]
}

/// The number whose four bytes, least significant first, are `b`.
#[verifier::opaque]
pub open spec fn spec_u32_from_le(b: Seq<u8>) -> u32
    recommends
        b.len() == 4,
{
    (b[0] + 256 * b[1] + 65536 * b[2] + 16777216 * b[3]) as u32
}

/// The eight bytes of `x`, least significant first.
#[verifier::opaque]
pub open spec fn spec_u64_le(x: u64) -> Seq<u8> {
    spec_u32_le((x % 4294967296) as u32) + spec_u32_le((x / 4294967296) as u32)
}

/// The number whose eight bytes, least significant first, are `b`.
#[verifier::opaque]
pub open spec fn spec_u64_from_le(b: Seq<u8>) -> u64
    recommends
        b.len() == 8,
{
    (spec_u32_from_le(b.subrange(0, 4)) + 4294967296 * spec_u32_from_le(b.subrange(4, 8))) as u64
}

/// The unsigned number with the same 64 bits as `x` in two's complement.
pub open spec fn spec_bits(x: i64) -> u64 {
    if x >= 0 {
        x as u64
    } else {
        (x + 18446744073709551616) as u64
    }
}

/// The signed number with the same 64 bits as `u` in two's complement.
pub open spec fn spec_signed(u: u64) -> i64 {
    if u < 9223372036854775808 {
        u as i64
    } else {
        (u - 18446744073709551616) as i64
    }
}

/// The byte of a flag: 1 where it is set, 0 where it is not.
pub open spec fn spec_flag(flag: bool) -> u8 {
    if flag {
        1
    } else {
        0
    }
}

/// A number is the sum of its four bytes, each weighted by its place.
proof fn lemma_u32_split(x: u32)
    ensures
        x == x % 256 + 256 * ((x / 256) % 256) + 65536 * ((x / 65536) % 256) + 16777216 * ((x
            / 16777216) % 256),
{
    let q1: int = (x / 256) as int;
    let q2: int = q1 / 256;
    let q3: int = q2 / 256;
    assert(x == 256 * q1 + x % 256);
    assert(q1 == 256 * q2 + q1 % 256);
    assert(q2 == 256 * q3 + q2 % 256);
    assert(q2 == x / 65536);
    assert(q3 == x / 16777216);
    assert(q3 < 256);
}

/// The bytes of the number that four bytes add up to are those bytes.
proof fn lemma_u32_join(b0: u8, b1: u8, b2: u8, b3: u8)
    ensures
        ({
            let y = b0 + 256 * b1 + 65536 * b2 + 16777216 * b3;
            &&& 0 <= y <= u32::MAX
            &&& y % 256 == b0
            &&& (y / 256) % 256 == b1
            &&& (y / 65536) % 256 == b2
            &&& (y / 16777216) % 256 == b3
        }),
{
    let y: int = b0 + 256 * b1 + 65536 * b2 + 16777216 * b3;
    let q1: int = b1 + 256 * b2 + 65536 * b3;
    let q2: int = b2 + 256 * b3;
    assert(y == 256 * q1 + b0);
    assert(y / 256 == q1);
    assert(q1 == 256 * q2 + b1);
    assert(q1 / 256 == q2);
    assert(y / 65536 == q2);
    assert(q2 / 256 == b3);
    assert(y / 16777216 == b3);
}

/// What is written for a number is four bytes that read as that number.
pub proof fn lemma_u32_written(x: u32)
    ensures
        spec_u32_le(x).len() == 4,
        spec_u32_from_le(spec_u32_le(x)) == x,
{
    reveal(spec_u32_le);
    reveal(spec_u32_from_le);
    lemma_u32_split(x);
}

/// What is read from four bytes is written as those bytes.
pub proof fn lemma_u32_read(b: Seq<u8>)
    requires
        b.len() == 4,
    ensures
        spec_u32_le(spec_u32_from_le(b)) == b,
{
    reveal(spec_u32_le);
    reveal(spec_u32_from_le);
    lemma_u32_join(b[0], b[1], b[2], b[3]);
    assert(spec_u32_le(spec_u32_from_le(b)) =~= b);
}

/// A number of 64 bits is made of its low and its high half.
proof fn lemma_u64_halves(x: u64)
    ensures
        x == x % 4294967296 + 4294967296 * (x / 4294967296),
        x / 4294967296 <= u32::MAX,
{
}

/// The halves of the number that two halves make are those halves.
proof fn lemma_u64_of_halves(low: u32, high: u32)
    ensures
        0 <= low + 4294967296 * high <= u64::MAX,
        (low + 4294967296 * high) % 4294967296 == low,
        (low + 4294967296 * high) / 4294967296 == high,
{
}

/// What is written for a number is eight bytes that read as that number.
pub proof fn lemma_u64_written(x: u64)
    ensures
        spec_u64_le(x).len() == 8,
        spec_u64_from_le(spec_u64_le(x)) == x,
{
    reveal(spec_u64_le);
    reveal(spec_u64_from_le);
    let low = (x % 4294967296) as u32;
    let high = (x / 4294967296) as u32;
    let e = spec_u32_le(low) + spec_u32_le(high);
    lemma_u32_written(low);
    lemma_u32_written(high);
    lemma_u64_halves(x);
    assert(e.subrange(0, 4) =~= spec_u32_le(low));
    assert(e.subrange(4, 8) =~= spec_u32_le(high));
}

/// What is read from eight bytes is written as those bytes.
pub proof fn lemma_u64_read(b: Seq<u8>)
    requires
        b.len() == 8,
    ensures
        spec_u64_le(spec_u64_from_le(b)) == b,
{
    reveal(spec_u64_le);
    reveal(spec_u64_from_le);
    let low = spec_u32_from_le(b.subrange(0, 4));
    let high = spec_u32_from_le(b.subrange(4, 8));
    lemma_u64_of_halves(low, high);
    lemma_u32_read(b.subrange(0, 4));
    lemma_u32_read(b.subrange(4, 8));
    assert(b.subrange(0, 4) + b.subrange(4, 8) =~= b);
}

/// A signed number and its 64 bits determine each other.
pub proof fn lemma_bits(x: i64, u: u64)
    ensures
        spec_signed(spec_bits(x)) == x,
        spec_bits(spec_signed(u)) == u,
{
}

/// Appends the four bytes of `x`.
pub(crate) fn put_u32(out: &mut Vec<u8>, x: u32)
    ensures
        final(out)@ == old(out)@ + spec_u32_le(x),
{
    out.push((x % 256) as u8);
    out.push(((x / 256) % 256) as u8);
    out.push(((x / 65536) % 256) as u8);
    out.push(((x / 16777216) % 256) as u8);
    proof {
        reveal(spec_u32_le);
    }
    assert(out@ =~= old(out)@ + spec_u32_le(x));
}

/// Appends the eight bytes of `x`.
fn put_u64(out: &mut Vec<u8>, x: u64)
    ensures
        final(out)@ == old(out)@ + spec_u64_le(x),
{
    put_u32(out, (x % 4294967296) as u32);
    put_u32(out, (x / 4294967296) as u32);
    proof {
        reveal(spec_u64_le);
    }
    assert(out@ =~= old(out)@ + spec_u64_le(x));
}

/// Appends the eight bytes of `x` in two's complement.
fn put_i64(out: &mut Vec<u8>, x: i64)
    ensures
        final(out)@ == old(out)@ + spec_u64_le(spec_bits(x)),
{
    let bits: u64 = if x >= 0 {
        x as u64
    } else {
        ((x + i64::MAX) + 1) as u64 + 9223372036854775808u64
    };
    put_u64(out, bits);
}

/// Appends the byte of a flag.
fn put_flag(out: &mut Vec<u8>, flag: bool)
    ensures
        final(out)@ == old(out)@.push(spec_flag(flag)),
{
    out.push(if flag { 1u8 } else { 0u8 });
}

/// Appends the bytes of an array.
fn put_array<const N: usize>(out: &mut Vec<u8>, bytes: &[u8; N])
    ensures
        final(out)@ == old(out)@ + bytes@,
{
    let mut i: usize = 0;
    while i < N
        invariant
            i <= N,
            out@ == old(out)@ + bytes@.subrange(0, i as int),
        decreases N - i,
    {
        out.push(bytes[i]);
        assert(out@ =~= old(out)@ + bytes@.subrange(0, i + 1));
        i = i + 1;
    }
    assert(out@ =~= old(out)@ + bytes@);
}

/// Reads the number in the four bytes from position `at`.
fn get_u32(bytes: &[u8], at: usize) -> (x: u32)
    requires
        at + 4 <= bytes.len(),
    ensures
        x == spec_u32_from_le(bytes@.subrange(at as int, at + 4)),
{
    let b0: u32 = bytes[at] as u32;
    let b1: u32 = bytes[at + 1] as u32;
    let b2: u32 = bytes[at + 2] as u32;
    let b3: u32 = bytes[at + 3] as u32;
    proof {
        reveal(spec_u32_from_le);
    }
    b0 + 256 * b1 + 65536 * b2 + 16777216 * b3
}

/// Reads the number in the eight bytes from position `at`.
fn get_u64(bytes: &[u8], at: usize) -> (x: u64)
    requires
        at + 8 <= bytes.len(),
    ensures
        x == spec_u64_from_le(bytes@.subrange(at as int, at + 8)),
{
    let low: u64 = get_u32(bytes, at) as u64;
    let high: u64 = get_u32(bytes, at + 4) as u64;
    proof {
        reveal(spec_u64_from_le);
    }
    assert(bytes@.subrange(at as int, at + 8).subrange(0, 4) =~= bytes@.subrange(
        at as int,
        at + 4,
    ));
    assert(bytes@.subrange(at as int, at + 8).subrange(4, 8) =~= bytes@.subrange(
        at + 4,
        at + 8,
    ));
    low + 4294967296 * high
}

/// Reads the number in the eight bytes from position `at`, in two's
/// complement.
fn get_i64(bytes: &[u8], at: usize) -> (x: i64)
    requires
        at + 8 <= bytes.len(),
    ensures
        x == spec_signed(spec_u64_from_le(bytes@.subrange(at as int, at + 8))),
{
    let bits: u64 = get_u64(bytes, at);
    if bits < 9223372036854775808u64 {
        bits as i64
    } else {
        (bits - 9223372036854775808u64) as i64 + i64::MIN
    }
}

/// Reads the address in the 32 bytes from position `at`.
fn get_address(bytes: &[u8], at: usize) -> (a: Address)
    requires
        at + 32 <= bytes.len(),
    ensures
        a@ == bytes@.subrange(at as int, at + 32),
{
    let mut a: [u8; 32] = [0u8; 32];
    let mut i: usize = 0;
    while i < 32
        invariant
            i <= 32,
            at + 32 <= bytes.len(),
            forall|j: int| 0 <= j < i ==> a[j] == bytes@[at + j],
        decreases 32 - i,
    {
        a[i] = bytes[at + i];
        i = i + 1;
    }
    assert(a@ =~= bytes@.subrange(at as int, at + 32));
    Address { bytes: a }
}

/// Whether the bytes from position `at` are those of `tag`.
fn has_tag(bytes: &[u8], tag: &[u8; 8]) -> (r: bool)
    ensures
        r == (bytes@.len() >= 8 && bytes@.subrange(0, 8) == tag@),
{
    if bytes.len() < 8 {
        return false;
    }
    let mut i: usize = 0;
    while i < 8
        invariant
            i <= 8,
            bytes@.len() >= 8,
            forall|j: int| 0 <= j < i ==> bytes@[j] == tag@[j],
        decreases 8 - i,
    {
        if bytes[i] != tag[i] {
            assert(bytes@.subrange(0, 8)[i as int] != tag@[i as int]);
            return false;
        }
        i = i + 1;
    }
    assert(bytes@.subrange(0, 8) =~= tag@);
    true
}

/// A part of a sequence that opens another is the same part of the other.
proof fn lemma_prefix_part(part: Seq<u8>, whole: Seq<u8>, from: int, to: int)
    requires
        part.is_prefix_of(whole),
        0 <= from <= to <= part.len(),
    ensures
        part.subrange(from, to) == whole.subrange(from, to),
{
    assert(part.subrange(from, to) =~= whole.subrange(0, part.len() as int).subrange(from, to));
    assert(whole.subrange(0, part.len() as int).subrange(from, to) =~= whole.subrange(from, to));
}

impl Ticket {
    /// The bytes of the ticket record: the tag, the owner, the event, the
    /// ticket number, and the flags for used and refunded.
    pub open spec fn encoding(self) -> Seq<u8> {
        TICKET_TAG@ + self.owner@ + self.event@ + spec_u32_le(self.ticket_id) + seq![
            spec_flag(self.is_used),
            spec_flag(self.refunded),
        ]
    }

    /// The ticket whose record opens `bytes`, if there is one.
    pub open spec fn decoded(bytes: Seq<u8>) -> Option<Ticket> {
        if exists|t: Ticket| (#[trigger] t.encoding()).is_prefix_of(bytes) {
            Some(choose|t: Ticket| (#[trigger] t.encoding()).is_prefix_of(bytes))
        } else {
            None
        }
    }

    proof fn lemma_fields(self)
        ensures
            self.encoding().len() == 78,
            self.encoding().subrange(0, 8) == TICKET_TAG@,
            self.encoding().subrange(8, 40) == self.owner@,
            self.encoding().subrange(40, 72) == self.event@,
            self.encoding().subrange(72, 76) == spec_u32_le(self.ticket_id),
            self.encoding()[76] == spec_flag(self.is_used),
            self.encoding()[77] == spec_flag(self.refunded),
    {
        let e = self.encoding();
        lemma_u32_written(self.ticket_id);
        assert(e.subrange(0, 8) =~= TICKET_TAG@);
        assert(e.subrange(8, 40) =~= self.owner@);
        assert(e.subrange(40, 72) =~= self.event@);
        assert(e.subrange(72, 76) =~= spec_u32_le(self.ticket_id));
    }

    /// Writes the ticket record.
    pub fn encode(&self) -> (bytes: Vec<u8>)
        ensures
            bytes@ == self.encoding(),
    {
        let mut bytes: Vec<u8> = Vec::new();
        put_array(&mut bytes, &TICKET_TAG);
        put_array(&mut bytes, &self.owner.bytes);
        put_array(&mut bytes, &self.event.bytes);
        put_u32(&mut bytes, self.ticket_id);
        put_flag(&mut bytes, self.is_used);
        put_flag(&mut bytes, self.refunded);
        assert(bytes@ =~= self.encoding());
        bytes
    }

    /// Reads the ticket record that opens `bytes`.  There is none where the
    /// bytes are too few, the tag is not that of a ticket, or a flag is
    /// neither 0 nor 1.
    pub fn decode(bytes: &[u8]) -> (r: Option<Ticket>)
        ensures
            r == Ticket::decoded(bytes@),
    {
        if !has_tag(bytes, &TICKET_TAG) || bytes.len() < 78 {
            proof {
                assert forall|t: Ticket| !(#[trigger] t.encoding()).is_prefix_of(bytes@) by {
                    t.lemma_fields();
                    if t.encoding().is_prefix_of(bytes@) {
                        lemma_prefix_part(t.encoding(), bytes@, 0, 8);
                    }
                }
            }
            return None;
        }
        let is_used: u8 = bytes[76];
        let refunded: u8 = bytes[77];
        if is_used > 1 || refunded > 1 {
            proof {
                assert forall|t: Ticket| !(#[trigger] t.encoding()).is_prefix_of(bytes@) by {
                    t.lemma_fields();
                    if t.encoding().is_prefix_of(bytes@) {
                        lemma_prefix_part(t.encoding(), bytes@, 76, 78);
                        assert(t.encoding().subrange(76, 78)[0] == bytes@.subrange(76, 78)[0]);
                        assert(t.encoding().subrange(76, 78)[1] == bytes@.subrange(76, 78)[1]);
                    }
                }
            }
            return None;
        }
        let ticket = Ticket {
            owner: get_address(bytes, 8),
            event: get_address(bytes, 40),
            ticket_id: get_u32(bytes, 72),
            is_used: is_used == 1,
            refunded: refunded == 1,
        };
        proof {
            ticket.lemma_fields();
            lemma_u32_read(bytes@.subrange(72, 76));
            let e = ticket.encoding();
            assert forall|i: int| 0 <= i < 78 implies e[i] == bytes@[i] by {
                if i < 8 {
                    assert(e[i] == e.subrange(0, 8)[i]);
                    assert(bytes@[i] == bytes@.subrange(0, 8)[i]);
                } else if i < 40 {
                    assert(e[i] == e.subrange(8, 40)[i - 8]);
                    assert(bytes@[i] == bytes@.subrange(8, 40)[i - 8]);
                } else if i < 72 {
                    assert(e[i] == e.subrange(40, 72)[i - 40]);
                    assert(bytes@[i] == bytes@.subrange(40, 72)[i - 40]);
                } else if i < 76 {
                    assert(e[i] == e.subrange(72, 76)[i - 72]);
                    assert(bytes@[i] == bytes@.subrange(72, 76)[i - 72]);
                }
            }
            assert(e =~= bytes@.subrange(0, 78));
            assert(e.is_prefix_of(bytes@));
            law_ticket_encoding_unique(ticket, Ticket::decoded(bytes@)->Some_0, bytes@);
        }
        Some(ticket)
    }
}

/// A ticket record takes exactly the room that is kept for it.
pub proof fn law_ticket_encoding_size(t: Ticket)
    ensures
        t.encoding().len() == Ticket::SPACE,
{
    t.lemma_fields();
}

/// No two tickets have records that open the same bytes.
pub proof fn law_ticket_encoding_unique(a: Ticket, b: Ticket, bytes: Seq<u8>)
    requires
        a.encoding().is_prefix_of(bytes),
        b.encoding().is_prefix_of(bytes),
    ensures
        a == b,
{
    a.lemma_fields();
    b.lemma_fields();
    assert(a.encoding() =~= b.encoding());
    lemma_address_by_bytes(a.owner, b.owner);
    lemma_address_by_bytes(a.event, b.event);
    lemma_u32_written(a.ticket_id);
    lemma_u32_written(b.ticket_id);
}

/// Reading what was written gives the ticket back, whatever bytes follow
/// the record.
pub proof fn law_ticket_round_trip(t: Ticket, rest: Seq<u8>)
    ensures
        Ticket::decoded(t.encoding() + rest) == Some(t),
{
    let bytes = t.encoding() + rest;
    assert(t.encoding() =~= bytes.subrange(0, t.encoding().len() as int));
    assert(t.encoding().is_prefix_of(bytes));
    law_ticket_encoding_unique(t, Ticket::decoded(bytes)->Some_0, bytes);
}

impl OrganizerRegistry {
    /// The bytes of the registry record: the tag, the organizer, and the
    /// time of registration.
    pub open spec fn encoding(self) -> Seq<u8> {
        ORGANIZER_TAG@ + self.organizer@ + spec_u64_le(spec_bits(self.registered_at))
    }

    /// The registry record that opens `bytes`, if there is one.
    pub open spec fn decoded(bytes: Seq<u8>) -> Option<OrganizerRegistry> {
        if exists|r: OrganizerRegistry| (#[trigger] r.encoding()).is_prefix_of(bytes) {
            Some(choose|r: OrganizerRegistry| (#[trigger] r.encoding()).is_prefix_of(bytes))
        } else {
            None
        }
    }

    proof fn lemma_fields(self)
        ensures
            self.encoding().len() == 48,
            self.encoding().subrange(0, 8) == ORGANIZER_TAG@,
            self.encoding().subrange(8, 40) == self.organizer@,
            self.encoding().subrange(40, 48) == spec_u64_le(spec_bits(self.registered_at)),
    {
        let e = self.encoding();
        lemma_u64_written(spec_bits(self.registered_at));
        assert(e.subrange(0, 8) =~= ORGANIZER_TAG@);
        assert(e.subrange(8, 40) =~= self.organizer@);
        assert(e.subrange(40, 48) =~= spec_u64_le(spec_bits(self.registered_at)));
    }

    /// Writes the registry record.
    pub fn encode(&self) -> (bytes: Vec<u8>)
        ensures
            bytes@ == self.encoding(),
    {
        let mut bytes: Vec<u8> = Vec::new();
        put_array(&mut bytes, &ORGANIZER_TAG);
        put_array(&mut bytes, &self.organizer.bytes);
        put_i64(&mut bytes, self.registered_at);
        assert(bytes@ =~= self.encoding());
        bytes
    }

    /// Reads the registry record that opens `bytes`.  There is none where
    /// the bytes are too few or the tag is not that of a registry record.
    pub fn decode(bytes: &[u8]) -> (r: Option<OrganizerRegistry>)
        ensures
            r == OrganizerRegistry::decoded(bytes@),
    {
        if !has_tag(bytes, &ORGANIZER_TAG) || bytes.len() < 48 {
            proof {
                assert forall|r: OrganizerRegistry| !(#[trigger] r.encoding()).is_prefix_of(
                    bytes@,
                ) by {
                    r.lemma_fields();
                    if r.encoding().is_prefix_of(bytes@) {
                        lemma_prefix_part(r.encoding(), bytes@, 0, 8);
                    }
                }
            }
            return None;
        }
        let registry = OrganizerRegistry {
            organizer: get_address(bytes, 8),
            registered_at: get_i64(bytes, 40),
        };
        proof {
            registry.lemma_fields();
            lemma_u64_read(bytes@.subrange(40, 48));
            lemma_bits(0, spec_u64_from_le(bytes@.subrange(40, 48)));
            let e = registry.encoding();
            assert forall|i: int| 0 <= i < 48 implies e[i] == bytes@[i] by {
                if i < 8 {
                    assert(e[i] == e.subrange(0, 8)[i]);
                    assert(bytes@[i] == bytes@.subrange(0, 8)[i]);
                } else if i < 40 {
                    assert(e[i] == e.subrange(8, 40)[i - 8]);
                    assert(bytes@[i] == bytes@.subrange(8, 40)[i - 8]);
                } else {
                    assert(e[i] == e.subrange(40, 48)[i - 40]);
                    assert(bytes@[i] == bytes@.subrange(40, 48)[i - 40]);
                }
            }
            assert(e =~= bytes@.subrange(0, 48));
            assert(e.is_prefix_of(bytes@));
            law_organizer_encoding_unique(
                registry,
                OrganizerRegistry::decoded(bytes@)->Some_0,
                bytes@,
            );
        }
        Some(registry)
    }
}

/// A registry record takes exactly the room that is kept for it.
pub proof fn law_organizer_encoding_size(r: OrganizerRegistry)
    ensures
        r.encoding().len() == OrganizerRegistry::SPACE,
{
    r.lemma_fields();
}

/// No two registry records open the same bytes.
pub proof fn law_organizer_encoding_unique(
    a: OrganizerRegistry,
    b: OrganizerRegistry,
    bytes: Seq<u8>,
)
    requires
        a.encoding().is_prefix_of(bytes),
        b.encoding().is_prefix_of(bytes),
    ensures
        a == b,
{
    a.lemma_fields();
    b.lemma_fields();
    assert(a.encoding() =~= b.encoding());
    lemma_address_by_bytes(a.organizer, b.organizer);
    lemma_u64_written(spec_bits(a.registered_at));
    lemma_u64_written(spec_bits(b.registered_at));
    lemma_bits(a.registered_at, 0);
    lemma_bits(b.registered_at, 0);
}

/// Reading what was written gives the registry record back, whatever bytes
/// follow it.
pub proof fn law_organizer_round_trip(r: OrganizerRegistry, rest: Seq<u8>)
    ensures
        OrganizerRegistry::decoded(r.encoding() + rest) == Some(r),
{
    let bytes = r.encoding() + rest;
    assert(r.encoding() =~= bytes.subrange(0, r.encoding().len() as int));
    assert(r.encoding().is_prefix_of(bytes));
    law_organizer_encoding_unique(r, OrganizerRegistry::decoded(bytes)->Some_0, bytes);
}

/// The bytes of a text: its length in bytes of UTF-8, in four bytes, then
/// its UTF-8 encoding.
pub open spec fn spec_text(chars: Seq<char>) -> Seq<u8> {
    spec_u32_le(encode_utf8(chars).len() as u32) + encode_utf8(chars)
}

/// Appends the bytes of a text.
fn put_text(out: &mut Vec<u8>, text: &str)
    requires
        encode_utf8(text@).len() <= u32::MAX,
    ensures
        final(out)@ == old(out)@ + spec_text(text@),
{
    let bytes = text.as_bytes();
    let n: usize = bytes.len();
    put_u32(out, n as u32);
    let mut i: usize = 0;
    while i < n
        invariant
            i <= n,
            n == bytes@.len(),
            out@ == old(out)@ + spec_u32_le(n as u32) + bytes@.subrange(0, i as int),
        decreases n - i,
    {
        out.push(bytes[i]);
        assert(out@ =~= old(out)@ + spec_u32_le(n as u32) + bytes@.subrange(0, i + 1));
        i = i + 1;
    }
    assert(out@ =~= old(out)@ + spec_text(text@));
}

/// Calls `std::str::from_utf8`.
///
/// Trusted: the bytes are returned as a text exactly where they are valid
/// UTF-8, and the text then has those bytes as its encoding.
#[verifier::external_body]
fn text_of(bytes: &[u8]) -> (r: Option<&str>)
    ensures
        match r {
            Some(text) => valid_utf8(bytes@) && encode_utf8(text@) == bytes@,
            None => !valid_utf8(bytes@),
        },
{
    match std::str::from_utf8(bytes) {
        Ok(text) => Some(text),
        Err(_) => None,
    }
}

/// The first part of a sequence, extended by the part that follows it.
proof fn lemma_extend(bytes: Seq<u8>, from: int, to: int)
    requires
        0 <= from <= to <= bytes.len(),
    ensures
        bytes.subrange(0, from) + bytes.subrange(from, to) == bytes.subrange(0, to),
{
    assert(bytes.subrange(0, from) + bytes.subrange(from, to) =~= bytes.subrange(0, to));
}

/// Eleven parts joined one after the other, the last two pairs bracketed
/// as texts are: each part is found again at the place where it starts.
proof fn lemma_joined(p: Seq<Seq<u8>>)
    requires
        p.len() == 11,
    ensures
        ({
            let w = p[0] + p[1] + p[2] + p[3] + p[4] + p[5] + p[6] + (p[7] + p[8]) + (p[9] + p[10]);
            let at1 = p[0].len() as int;
            let at2 = at1 + p[1].len();
            let at3 = at2 + p[2].len();
            let at4 = at3 + p[3].len();
            let at5 = at4 + p[4].len();
            let at6 = at5 + p[5].len();
            let at7 = at6 + p[6].len();
            let at8 = at7 + p[7].len();
            let at9 = at8 + p[8].len();
            let at10 = at9 + p[9].len();
            let end = at10 + p[10].len();
            &&& w.len() == end
            &&& w.subrange(0, at1) == p[0]
            &&& w.subrange(at1, at2) == p[1]
            &&& w.subrange(at2, at3) == p[2]
            &&& w.subrange(at3, at4) == p[3]
            &&& w.subrange(at4, at5) == p[4]
            &&& w.subrange(at5, at6) == p[5]
            &&& p[5].len() == 1 ==> w[at5] == p[5][0]
            &&& w.subrange(at6, at7) == p[6]
            &&& w.subrange(at7, at8) == p[7]
            &&& w.subrange(at8, at9) == p[8]
            &&& w.subrange(at9, at10) == p[9]
            &&& w.subrange(at10, end) == p[10]
        }),
{
    let w = p[0] + p[1] + p[2] + p[3] + p[4] + p[5] + p[6] + (p[7] + p[8]) + (p[9] + p[10]);
    let at1 = p[0].len() as int;
    let at2 = at1 + p[1].len();
    let at3 = at2 + p[2].len();
    let at4 = at3 + p[3].len();
    let at5 = at4 + p[4].len();
    let at6 = at5 + p[5].len();
    let at7 = at6 + p[6].len();
    let at8 = at7 + p[7].len();
    let at9 = at8 + p[8].len();
    let at10 = at9 + p[9].len();
    let end = at10 + p[10].len();
    assert(w.subrange(0, at1) =~= p[0]);
    assert(w.subrange(at1, at2) =~= p[1]);
    assert(w.subrange(at2, at3) =~= p[2]);
    assert(w.subrange(at3, at4) =~= p[3]);
    assert(w.subrange(at4, at5) =~= p[4]);
    assert(w.subrange(at5, at6) =~= p[5]);
    assert(w.subrange(at6, at7) =~= p[6]);
    assert(w.subrange(at7, at8) =~= p[7]);
    assert(w.subrange(at8, at9) =~= p[8]);
    assert(w.subrange(at9, at10) =~= p[9]);
    assert(w.subrange(at10, end) =~= p[10]);
}

impl Event {
    /// Whether each text of the event has a length that fits the four bytes
    /// in which it is written.
    pub open spec fn encodable(self) -> bool {
        self.name_len() <= u32::MAX && self.date_len() <= u32::MAX
    }

    /// The bytes of the event record: the tag, the authority, the price, the
    /// supply, the sold count, the canceled flag, the event number, the name
    /// and the date.
    pub open spec fn encoding(self) -> Seq<u8> {
        EVENT_TAG@ + self.event_authority@ + spec_u64_le(self.price) + spec_u32_le(self.supply)
            + spec_u32_le(self.sold) + seq![spec_flag(self.canceled)] + spec_u32_le(
            self.event_id,
        ) + spec_text(self.name@) + spec_text(self.date@)
    }

    /// Whether two events say the same: their settings and counters are
    /// equal, and their texts read the same.
    pub open spec fn same_as(self, other: Event) -> bool {
        &&& self.event_authority == other.event_authority
        &&& self.price == other.price
        &&& self.supply == other.supply
        &&& self.sold == other.sold
        &&& self.canceled == other.canceled
        &&& self.event_id == other.event_id
        &&& self.name@ == other.name@
        &&& self.date@ == other.date@
    }

    proof fn lemma_fields(self)
        requires
            self.encodable(),
        ensures
            ({
                let e = self.encoding();
                let n = self.name_len() as int;
                let m = self.date_len() as int;
                &&& e.len() == 69 + n + m
                &&& e.subrange(0, 8) == EVENT_TAG@
                &&& e.subrange(8, 40) == self.event_authority@
                &&& e.subrange(40, 48) == spec_u64_le(self.price)
                &&& e.subrange(48, 52) == spec_u32_le(self.supply)
                &&& e.subrange(52, 56) == spec_u32_le(self.sold)
                &&& e[56] == spec_flag(self.canceled)
                &&& e.subrange(57, 61) == spec_u32_le(self.event_id)
                &&& e.subrange(61, 65) == spec_u32_le(n as u32)
                &&& e.subrange(65, 65 + n) == encode_utf8(self.name@)
                &&& e.subrange(65 + n, 69 + n) == spec_u32_le(m as u32)
                &&& e.subrange(69 + n, 69 + n + m) == encode_utf8(self.date@)
            }),
    {
        let n = self.name_len() as int;
        let m = self.date_len() as int;
        lemma_u64_written(self.price);
        lemma_u32_written(self.supply);
        lemma_u32_written(self.sold);
        lemma_u32_written(self.event_id);
        lemma_u32_written(n as u32);
        lemma_u32_written(m as u32);
        lemma_joined(
            seq![
                EVENT_TAG@,
                self.event_authority@,
                spec_u64_le(self.price),
                spec_u32_le(self.supply),
                spec_u32_le(self.sold),
                seq![spec_flag(self.canceled)],
                spec_u32_le(self.event_id),
                spec_u32_le(n as u32),
                encode_utf8(self.name@),
                spec_u32_le(m as u32),
                encode_utf8(self.date@),
            ],
        );
    }

    /// Writes the event record.
    pub fn encode(&self) -> (bytes: Vec<u8>)
        requires
            self.encodable(),
        ensures
            bytes@ == self.encoding(),
    {
        let mut bytes: Vec<u8> = Vec::new();
        put_array(&mut bytes, &EVENT_TAG);
        put_array(&mut bytes, &self.event_authority.bytes);
        put_u64(&mut bytes, self.price);
        put_u32(&mut bytes, self.supply);
        put_u32(&mut bytes, self.sold);
        put_flag(&mut bytes, self.canceled);
        put_u32(&mut bytes, self.event_id);
        put_text(&mut bytes, self.name.as_str());
        put_text(&mut bytes, self.date.as_str());
        assert(bytes@ =~= self.encoding());
        bytes
    }

    /// No event has a record that opens `bytes`.
    pub open spec fn none_opens(bytes: Seq<u8>) -> bool {
        forall|e: Event| e.encodable() ==> !(#[trigger] e.encoding()).is_prefix_of(bytes)
    }

    /// Reads the event record that opens `bytes`.  There is none where the
    /// bytes are too few for the fields and for the texts of the lengths
    /// given, the tag is not that of an event, the flag is neither 0 nor 1,
    /// or a text is not valid UTF-8.
    pub fn decode(bytes: &[u8]) -> (r: Option<Event>)
        ensures
            match r {
                Some(event) => event.encodable() && event.encoding().is_prefix_of(bytes@),
                None => Event::none_opens(bytes@),
            },
    {
        let len: usize = bytes.len();
        if !has_tag(bytes, &EVENT_TAG) || len < 69 {
            proof {
                assert forall|e: Event| e.encodable() implies !(#[trigger] e.encoding()).is_prefix_of(
                    bytes@,
                ) by {
                    e.lemma_fields();
                    if e.encoding().is_prefix_of(bytes@) {
                        lemma_prefix_part(e.encoding(), bytes@, 0, 8);
                    }
                }
            }
            return None;
        }
        let canceled: u8 = bytes[56];
        if canceled > 1 {
            proof {
                assert forall|e: Event| e.encodable() implies !(#[trigger] e.encoding()).is_prefix_of(
                    bytes@,
                ) by {
                    e.lemma_fields();
                    if e.encoding().is_prefix_of(bytes@) {
                        lemma_prefix_part(e.encoding(), bytes@, 56, 57);
                        assert(e.encoding()[56] == e.encoding().subrange(56, 57)[0]);
                        assert(bytes@[56] == bytes@.subrange(56, 57)[0]);
                    }
                }
            }
            return None;
        }
        let n: usize = get_u32(bytes, 61) as usize;
        if len - 69 < n {
            proof {
                assert forall|e: Event| e.encodable() implies !(#[trigger] e.encoding()).is_prefix_of(
                    bytes@,
                ) by {
                    if e.encoding().is_prefix_of(bytes@) {
                        e.lemma_name_len(bytes@);
                    }
                }
            }
            return None;
        }
        let name = match text_of(slice_subrange(bytes, 65, 65 + n)) {
            Some(text) => String::from_str(text),
            None => {
                proof {
                    assert forall|e: Event| e.encodable() implies !(
                    #[trigger] e.encoding()).is_prefix_of(bytes@) by {
                        if e.encoding().is_prefix_of(bytes@) {
                            e.lemma_name_len(bytes@);
                            e.lemma_fields();
                            lemma_prefix_part(e.encoding(), bytes@, 65, 65 + n);
                            encode_utf8_valid_utf8(e.name@);
                        }
                    }
                }
                return None;
            },
        };
        let m: usize = get_u32(bytes, 65 + n) as usize;
        if len - 69 - n < m {
            proof {
                assert forall|e: Event| e.encodable() implies !(#[trigger] e.encoding()).is_prefix_of(
                    bytes@,
                ) by {
                    if e.encoding().is_prefix_of(bytes@) {
                        e.lemma_name_len(bytes@);
                        e.lemma_date_len(bytes@);
                    }
                }
            }
            return None;
        }
        let date = match text_of(slice_subrange(bytes, 69 + n, 69 + n + m)) {
            Some(text) => String::from_str(text),
            None => {
                proof {
                    assert forall|e: Event| e.encodable() implies !(
                    #[trigger] e.encoding()).is_prefix_of(bytes@) by {
                        if e.encoding().is_prefix_of(bytes@) {
                            e.lemma_name_len(bytes@);
                            e.lemma_date_len(bytes@);
                            e.lemma_fields();
                            lemma_prefix_part(e.encoding(), bytes@, 69 + n, 69 + n + m);
                            encode_utf8_valid_utf8(e.date@);
                        }
                    }
                }
                return None;
            },
        };
        let event = Event {
            event_authority: get_address(bytes, 8),
            price: get_u64(bytes, 40),
            supply: get_u32(bytes, 48),
            sold: get_u32(bytes, 52),
            canceled: canceled == 1,
            event_id: get_u32(bytes, 57),
            name,
            date,
        };
        proof {
            let b = bytes@;
            lemma_u64_read(b.subrange(40, 48));
            lemma_u32_read(b.subrange(48, 52));
            lemma_u32_read(b.subrange(52, 56));
            lemma_u32_read(b.subrange(57, 61));
            lemma_u32_read(b.subrange(61, 65));
            lemma_u32_read(b.subrange(65 + n, 69 + n));
            assert(seq![spec_flag(event.canceled)] =~= b.subrange(56, 57));
            assert(spec_text(event.name@) == b.subrange(61, 65) + b.subrange(65, 65 + n));
            assert(spec_text(event.date@) == b.subrange(65 + n, 69 + n) + b.subrange(
                69 + n,
                69 + n + m,
            ));
            lemma_extend(b, 8, 40);
            lemma_extend(b, 40, 48);
            lemma_extend(b, 48, 52);
            lemma_extend(b, 52, 56);
            lemma_extend(b, 56, 57);
            lemma_extend(b, 57, 61);
            lemma_extend(b, 61, 65);
            lemma_extend(b, 65, 65 + n);
            lemma_extend(b, 65 + n, 69 + n);
            lemma_extend(b, 69 + n, 69 + n + m);
            assert(event.encoding() =~= b.subrange(0, 69 + n + m));
        }
        Some(event)
    }

    /// The length that a record which opens `bytes` gives for the name is
    /// the one read from `bytes`, and the name lies within `bytes`.
    proof fn lemma_name_len(self, bytes: Seq<u8>)
        requires
            self.encodable(),
            self.encoding().is_prefix_of(bytes),
        ensures
            bytes.len() >= 69 + self.name_len() + self.date_len(),
            self.name_len() == spec_u32_from_le(bytes.subrange(61, 65)),
    {
        self.lemma_fields();
        lemma_prefix_part(self.encoding(), bytes, 61, 65);
        lemma_u32_written(self.name_len() as u32);
    }

    /// The length that a record which opens `bytes` gives for the date is
    /// the one read from `bytes` behind the name.
    proof fn lemma_date_len(self, bytes: Seq<u8>)
        requires
            self.encodable(),
            self.encoding().is_prefix_of(bytes),
        ensures
            self.date_len() == spec_u32_from_le(
                bytes.subrange(65 + self.name_len() as int, 69 + self.name_len() as int),
            ),
    {
        self.lemma_fields();
        let n = self.name_len() as int;
        lemma_prefix_part(self.encoding(), bytes, 65 + n, 69 + n);
        lemma_u32_written(self.date_len() as u32);
    }
}

/// An event record takes the room of its fixed part and of its two texts;
/// that of a well-formed event fits the room that is kept for it.
pub proof fn law_event_encoding_size(e: Event)
    requires
        e.encodable(),
    ensures
        e.encoding().len() == 69 + e.name_len() + e.date_len(),
        e.wf() ==> e.encoding().len() <= 69 + MAX_NAME_LEN + MAX_DATE_LEN,
{
    e.lemma_fields();
}

/// Two events whose records open the same bytes say the same.
pub proof fn law_event_encoding_unique(a: Event, b: Event, bytes: Seq<u8>)
    requires
        a.encodable(),
        b.encodable(),
        a.encoding().is_prefix_of(bytes),
        b.encoding().is_prefix_of(bytes),
    ensures
        a.same_as(b),
{
    a.lemma_fields();
    b.lemma_fields();
    let x = a.encoding();
    let y = b.encoding();
    let n = a.name_len() as int;
    let m = a.date_len() as int;
    lemma_prefix_part(x, bytes, 8, 40);
    lemma_prefix_part(y, bytes, 8, 40);
    lemma_address_by_bytes(a.event_authority, b.event_authority);
    lemma_prefix_part(x, bytes, 40, 48);
    lemma_prefix_part(y, bytes, 40, 48);
    lemma_u64_written(a.price);
    lemma_u64_written(b.price);
    lemma_prefix_part(x, bytes, 48, 52);
    lemma_prefix_part(y, bytes, 48, 52);
    lemma_u32_written(a.supply);
    lemma_u32_written(b.supply);
    lemma_prefix_part(x, bytes, 52, 56);
    lemma_prefix_part(y, bytes, 52, 56);
    lemma_u32_written(a.sold);
    lemma_u32_written(b.sold);
    lemma_prefix_part(x, bytes, 56, 57);
    lemma_prefix_part(y, bytes, 56, 57);
    assert(x[56] == x.subrange(56, 57)[0]);
    assert(y[56] == y.subrange(56, 57)[0]);
    lemma_prefix_part(x, bytes, 57, 61);
    lemma_prefix_part(y, bytes, 57, 61);
    lemma_u32_written(a.event_id);
    lemma_u32_written(b.event_id);
    lemma_prefix_part(x, bytes, 61, 65);
    lemma_prefix_part(y, bytes, 61, 65);
    lemma_u32_written(a.name_len() as u32);
    lemma_u32_written(b.name_len() as u32);
    assert(a.name_len() == b.name_len());
    lemma_prefix_part(x, bytes, 65, 65 + n);
    lemma_prefix_part(y, bytes, 65, 65 + n);
    encode_utf8_decode_utf8(a.name@);
    encode_utf8_decode_utf8(b.name@);
    lemma_prefix_part(x, bytes, 65 + n, 69 + n);
    lemma_prefix_part(y, bytes, 65 + n, 69 + n);
    lemma_u32_written(a.date_len() as u32);
    lemma_u32_written(b.date_len() as u32);
    assert(a.date_len() == b.date_len());
    lemma_prefix_part(x, bytes, 69 + n, 69 + n + m);
    lemma_prefix_part(y, bytes, 69 + n, 69 + n + m);
    encode_utf8_decode_utf8(a.date@);
    encode_utf8_decode_utf8(b.date@);
}

} // verus!
