//! What holds of every state a ledger reaches, and of every operation on it.
use vstd::prelude::*;

use crate::address::{derived, organizer_seeds, ticket_seeds, vault_seeds, Address};
use crate::errors::{EventTicketingError, Failure};
use crate::instructions::{
    CancelEvent, CheckIn, InitializeEvent, MintTicket, Refund, RegisterOrganizer, TransferTicket,
};
use crate::ledger::{genesis, Instruction, Record, State};
use crate::state::{Event, Ticket, Transfer};

verus! {

/// A ledger on which nothing has happened yet is sound.
pub proof fn law_genesis_sound()
    ensures
        genesis().sound(),
{
    assert forall|a: Address| #[trigger] genesis().record_addressed(a) by {}
    assert forall|e: Address, n: u32| #[trigger] genesis().number_taken(e, n) by {}
}

/// A state that differs from another in its balances or its clock alone
/// is as sound as the other: soundness is a matter of the records.
pub proof fn law_sound_of_records(s: State, paid: State)
    requires
        paid.records == s.records,
    ensures
        s.inv() ==> paid.inv(),
        s.addressed() ==> paid.addressed(),
        s.complete() ==> paid.complete(),
        s.sound() ==> paid.sound(),
{
    if s.complete() {
        assert forall|e: Address, n: u32| #[trigger] paid.number_taken(e, n) by {
            assert(s.number_taken(e, n));
        }
    }
    if s.addressed() {
        assert forall|a: Address| #[trigger] paid.record_addressed(a) by {
            assert(s.record_addressed(a));
        }
    }
    if s.inv() {
        assert forall|a: Address| #[trigger] paid.event_sound(a) by {
            assert(s.event_sound(a));
        }
        assert forall|a: Address| #[trigger] paid.ticket_sound(a) by {
            assert(s.ticket_sound(a));
        }
        assert forall|a: Address, b: Address| #[trigger] paid.tickets_apart(a, b) by {
            assert(s.tickets_apart(a, b));
        }
    }
}

/// Replacing a ticket by one of the same event and number, not both used and
/// refunded, keeps the invariant.
proof fn lemma_restore_ticket(s: State, at: Address, after: Ticket)
    requires
        s.inv(),
        s.ticket_at(at) matches Some(before) && before.event == after.event && before.ticket_id
            == after.ticket_id,
        !(after.is_used && after.refunded),
    ensures
        s.store(at, Record::Ticket(after)).inv(),
{
    let next = s.store(at, Record::Ticket(after));
    assert forall|a: Address| #[trigger] next.event_sound(a) by {
        assert(s.event_sound(a));
    }
    assert forall|a: Address| #[trigger] next.ticket_sound(a) by {
        assert(s.ticket_sound(a));
        assert(s.ticket_sound(at));
    }
    assert forall|a: Address, b: Address| #[trigger] next.tickets_apart(a, b) by {
        assert(s.tickets_apart(a, b));
        assert(s.tickets_apart(a, at));
        assert(s.tickets_apart(at, b));
    }
}

/// Replacing an event by one that is well formed and has sold no less keeps
/// the invariant.
proof fn lemma_restore_event(s: State, at: Address, after: Event)
    requires
        s.inv(),
        s.event_at(at) matches Some(before) && before.sold <= after.sold,
        after.wf(),
    ensures
        s.store(at, Record::Event(after)).inv(),
{
    let next = s.store(at, Record::Event(after));
    assert forall|a: Address| #[trigger] next.event_sound(a) by {
        assert(s.event_sound(a));
    }
    assert forall|a: Address| #[trigger] next.ticket_sound(a) by {
        assert(s.ticket_sound(a));
    }
    assert forall|a: Address, b: Address| #[trigger] next.tickets_apart(a, b) by {
        assert(s.tickets_apart(a, b));
    }
}

/// Whether a record may be stored at a free address of `s`: a registry
/// record, a well-formed event, or a ticket of an event of the ledger whose
/// number is below the event's sold count and is borne by no other ticket of
/// that event.
spec fn admissible(s: State, record: Record) -> bool {
    match record {
        Record::Organizer(_) => true,
        Record::Event(event) => event.wf(),
        Record::Ticket(ticket) => {
            &&& s.event_at(ticket.event) matches Some(event) && ticket.ticket_id < event.sold
            &&& !(ticket.is_used && ticket.refunded)
            &&& forall|a: Address| #[trigger] unlike(s, a, ticket)
        },
    }
}

/// The ticket stored at `at`, if it is one of the same event as `ticket`,
/// has another number.
spec fn unlike(s: State, at: Address, ticket: Ticket) -> bool {
    s.ticket_at(at) matches Some(other) ==> other.event == ticket.event ==> other.ticket_id
        != ticket.ticket_id
}

/// Storing an admissible record at a free address keeps the invariant.
proof fn lemma_store_fresh(s: State, at: Address, record: Record)
    requires
        s.inv(),
        !s.records.contains_key(at),
        admissible(s, record),
    ensures
        s.store(at, record).inv(),
{
    let next = s.store(at, record);
    assert forall|a: Address| #[trigger] next.event_sound(a) by {
        assert(s.event_sound(a));
    }
    assert forall|a: Address| #[trigger] next.ticket_sound(a) by {
        assert(s.ticket_sound(a));
    }
    assert forall|a: Address, b: Address| #[trigger] next.tickets_apart(a, b) by {
        assert(s.tickets_apart(a, b));
        if let Record::Ticket(ticket) = record {
            assert(unlike(s, a, ticket));
            assert(unlike(s, b, ticket));
        }
    }
}

/// The invariant holds after registering an organizer.
proof fn lemma_register_organizer_invariant(s: State, accounts: RegisterOrganizer)
    requires
        s.inv(),
    ensures
        s.after(s.register_organizer(accounts)).inv(),
{
    if let Ok(next) = s.register_organizer(accounts) {
        lemma_store_fresh(s, accounts.organizer_registry, next.records[accounts.organizer_registry]);
    }
}

/// The invariant holds after creating an event.
proof fn lemma_initialize_event_invariant(
    s: State,
    accounts: InitializeEvent,
    event_id: u32,
    price: u64,
    supply: u32,
    name: String,
    date: String,
)
    requires
        s.inv(),
    ensures
        s.after(s.initialize_event(accounts, event_id, price, supply, name, date)).inv(),
{
    if let Ok(next) = s.initialize_event(accounts, event_id, price, supply, name, date) {
        lemma_store_fresh(s, accounts.event, next.records[accounts.event]);
    }
}

/// The invariant holds after minting a ticket.
proof fn lemma_mint_ticket_invariant(s: State, accounts: MintTicket)
    requires
        s.inv(),
    ensures
        s.after(s.mint_ticket(accounts)).inv(),
{
    if let Ok(next) = s.mint_ticket(accounts) {
        let event = s.event_at(accounts.event)->Some_0;
        let (after, minted) = accounts.outcome(event)->Ok_0;
        let paid = s.pay(minted.payment)->Ok_0;
        law_sound_of_records(s, paid);
        assert(s.event_sound(accounts.event));
        lemma_restore_event(paid, accounts.event, after);
        let sold = paid.store(accounts.event, Record::Event(after));
        assert forall|a: Address| #[trigger] unlike(sold, a, minted.ticket) by {
            assert(s.ticket_sound(a));
        }
        lemma_store_fresh(sold, accounts.ticket, Record::Ticket(minted.ticket));
    }
}

/// The invariant holds after transferring a ticket.
proof fn lemma_transfer_ticket_invariant(s: State, accounts: TransferTicket)
    requires
        s.inv(),
    ensures
        s.after(s.transfer_ticket(accounts)).inv(),
{
    if let Ok(next) = s.transfer_ticket(accounts) {
        let ticket = s.ticket_at(accounts.ticket)->Some_0;
        lemma_restore_ticket(s, accounts.ticket, accounts.outcome(ticket)->Ok_0);
    }
}

/// The invariant holds after checking a ticket in.
proof fn lemma_check_in_invariant(s: State, accounts: CheckIn)
    requires
        s.inv(),
    ensures
        s.after(s.check_in(accounts)).inv(),
{
    if let Ok(next) = s.check_in(accounts) {
        let event = s.event_at(accounts.event)->Some_0;
        let ticket = s.ticket_at(accounts.ticket)->Some_0;
        lemma_restore_ticket(s, accounts.ticket, accounts.outcome(event, ticket)->Ok_0);
    }
}

/// The invariant holds after refunding a ticket.
proof fn lemma_refund_invariant(s: State, accounts: Refund)
    requires
        s.inv(),
    ensures
        s.after(s.refund(accounts)).inv(),
{
    if let Ok(next) = s.refund(accounts) {
        let event = s.event_at(accounts.event)->Some_0;
        let ticket = s.ticket_at(accounts.ticket)->Some_0;
        let (after, payment) = accounts.outcome(event, ticket)->Ok_0;
        law_sound_of_records(s, s.pay(payment)->Ok_0);
        lemma_restore_ticket(s.pay(payment)->Ok_0, accounts.ticket, after);
    }
}

/// The invariant holds after canceling an event.
proof fn lemma_cancel_event_invariant(s: State, accounts: CancelEvent)
    requires
        s.inv(),
    ensures
        s.after(s.cancel_event(accounts)).inv(),
{
    if let Ok(next) = s.cancel_event(accounts) {
        let event = s.event_at(accounts.event)->Some_0;
        assert(s.event_sound(accounts.event));
        lemma_restore_event(s, accounts.event, accounts.outcome(event)->Ok_0);
    }
}

/// Whatever operation is submitted, and whether it succeeds or is turned
/// down, the invariant holds afterwards: at all times no event has sold more
/// than its supply, and every ticket has a number of its own below the sold
/// count of its event.
pub proof fn law_step_invariant(s: State, instruction: Instruction)
    requires
        s.inv(),
    ensures
        s.after(s.step(instruction)).inv(),
{
    match instruction {
        Instruction::RegisterOrganizer(accounts) => lemma_register_organizer_invariant(s, accounts),
        Instruction::InitializeEvent { accounts, event_id, price, supply, name, date } => {
            lemma_initialize_event_invariant(s, accounts, event_id, price, supply, name, date)
        },
        Instruction::MintTicket(accounts) => lemma_mint_ticket_invariant(s, accounts),
        Instruction::TransferTicket(accounts) => lemma_transfer_ticket_invariant(s, accounts),
        Instruction::CheckIn(accounts) => lemma_check_in_invariant(s, accounts),
        Instruction::Refund(accounts) => lemma_refund_invariant(s, accounts),
        Instruction::CancelEvent(accounts) => lemma_cancel_event_invariant(s, accounts),
    }
}

/// No event has sold more than its supply.
pub proof fn law_sold_within_supply(s: State, at: Address)
    requires
        s.inv(),
        s.event_at(at) is Some,
    ensures
        0 <= s.event_at(at)->Some_0.sold <= s.event_at(at)->Some_0.supply,
{
    assert(s.event_sound(at));
}

/// Every ticket belongs to an event of the ledger, and its number is below
/// the sold count of that event and so below its supply.
pub proof fn law_ticket_number_below_supply(s: State, at: Address)
    requires
        s.inv(),
        s.ticket_at(at) is Some,
    ensures
        s.event_at(s.ticket_at(at)->Some_0.event) is Some,
        s.ticket_at(at)->Some_0.ticket_id < s.event_at(s.ticket_at(at)->Some_0.event)->Some_0.sold,
        s.ticket_at(at)->Some_0.ticket_id < s.event_at(
            s.ticket_at(at)->Some_0.event,
        )->Some_0.supply,
{
    assert(s.ticket_sound(at));
    assert(s.event_sound(s.ticket_at(at)->Some_0.event));
}

/// Two tickets of one event never have the same number.
pub proof fn law_ticket_numbers_unique(s: State, a: Address, b: Address)
    requires
        s.inv(),
        s.ticket_at(a) is Some,
        s.ticket_at(b) is Some,
        a != b,
        s.ticket_at(a)->Some_0.event == s.ticket_at(b)->Some_0.event,
    ensures
        s.ticket_at(a)->Some_0.ticket_id != s.ticket_at(b)->Some_0.ticket_id,
{
    assert(s.tickets_apart(a, b));
}

/// Storing a record at the address derived for it keeps every record at
/// the address derived for it.
proof fn lemma_store_addressed(s: State, at: Address, record: Record)
    requires
        s.addressed(),
        s.store(at, record).record_addressed(at),
    ensures
        s.store(at, record).addressed(),
{
    let next = s.store(at, record);
    assert forall|a: Address| #[trigger] next.record_addressed(a) by {
        assert(s.record_addressed(a));
    }
}

/// Whatever operation is submitted, every record is afterwards stored at
/// the address derived for it: a registry record from its organizer, an
/// event from its authority and its number, a ticket from its event and its
/// number.  So the address of a record proves its parentage.
pub proof fn law_step_addressed(s: State, instruction: Instruction)
    requires
        s.addressed(),
    ensures
        s.after(s.step(instruction)).addressed(),
{
    if let Ok(next) = s.step(instruction) {
        match instruction {
            Instruction::RegisterOrganizer(accounts) => {
                lemma_store_addressed(
                    s,
                    accounts.organizer_registry,
                    next.records[accounts.organizer_registry],
                );
            },
            Instruction::InitializeEvent { accounts, event_id, price, supply, name, date } => {
                lemma_store_addressed(s, accounts.event, next.records[accounts.event]);
            },
            Instruction::MintTicket(accounts) => {
                let event = s.event_at(accounts.event)->Some_0;
                let (after, minted) = accounts.outcome(event)->Ok_0;
                let paid = s.pay(minted.payment)->Ok_0;
                let sold = paid.store(accounts.event, Record::Event(after));
                law_sound_of_records(s, paid);
                assert(s.record_addressed(accounts.event));
                lemma_store_addressed(paid, accounts.event, Record::Event(after));
                lemma_store_addressed(sold, accounts.ticket, Record::Ticket(minted.ticket));
            },
            Instruction::TransferTicket(accounts) => {
                assert(s.record_addressed(accounts.ticket));
                lemma_store_addressed(s, accounts.ticket, next.records[accounts.ticket]);
            },
            Instruction::CheckIn(accounts) => {
                assert(s.record_addressed(accounts.ticket));
                lemma_store_addressed(s, accounts.ticket, next.records[accounts.ticket]);
            },
            Instruction::Refund(accounts) => {
                let event = s.event_at(accounts.event)->Some_0;
                let ticket = s.ticket_at(accounts.ticket)->Some_0;
                let (after, payment) = accounts.outcome(event, ticket)->Ok_0;
                let paid = s.pay(payment)->Ok_0;
                law_sound_of_records(s, paid);
                assert(s.record_addressed(accounts.ticket));
                lemma_store_addressed(paid, accounts.ticket, Record::Ticket(after));
            },
            Instruction::CancelEvent(accounts) => {
                assert(s.record_addressed(accounts.event));
                lemma_store_addressed(s, accounts.event, next.records[accounts.event]);
            },
        }
    }
}

/// No two events of one authority have the same number: two events with the
/// same authority and number are stored at the same address, and so are one
/// event.
pub proof fn law_event_numbers_unique(s: State, a: Address, b: Address)
    requires
        s.addressed(),
        s.event_at(a) is Some,
        s.event_at(b) is Some,
        s.event_at(a)->Some_0.event_authority == s.event_at(b)->Some_0.event_authority,
        s.event_at(a)->Some_0.event_id == s.event_at(b)->Some_0.event_id,
    ensures
        a == b,
{
    assert(s.record_addressed(a));
    assert(s.record_addressed(b));
}

/// A ticket is stored at the address derived from its event and its
/// number.
pub proof fn law_ticket_found_by_event_and_number(s: State, at: Address)
    requires
        s.addressed(),
        s.ticket_at(at) is Some,
    ensures
        derived(
            ticket_seeds(s.ticket_at(at)->Some_0.event, s.ticket_at(at)->Some_0.ticket_id),
        ) == Some(at),
{
    assert(s.record_addressed(at));
}

/// An organizer has at most one registry record, at the address derived
/// from the organizer.
pub proof fn law_one_registry_per_organizer(s: State, a: Address, b: Address)
    requires
        s.addressed(),
        s.organizer_at(a) is Some,
        s.organizer_at(b) is Some,
        s.organizer_at(a)->Some_0.organizer == s.organizer_at(b)->Some_0.organizer,
    ensures
        a == b,
        derived(organizer_seeds(s.organizer_at(a)->Some_0.organizer)) == Some(a),
{
    assert(s.record_addressed(a));
    assert(s.record_addressed(b));
}

/// Storing a record keeps every sold ticket there, where the record is not
/// an event, or an event that has sold nothing, or takes the place of an
/// event that has sold as much, and does not take the place of a ticket
/// unless it is a ticket of the same event and number.
proof fn lemma_store_complete(s: State, at: Address, record: Record)
    requires
        s.complete(),
        match record {
            Record::Event(event) => event.sold == 0 || (s.event_at(at) is Some && s.event_at(
                at,
            )->Some_0.sold == event.sold),
            _ => true,
        },
        s.ticket_at(at) matches Some(before) ==> (record matches Record::Ticket(after)
            && after.event == before.event && after.ticket_id == before.ticket_id),
    ensures
        s.store(at, record).complete(),
{
    let next = s.store(at, record);
    assert forall|e: Address, n: u32| #[trigger] next.number_taken(e, n) by {
        assert(s.number_taken(e, n));
    }
}

/// Whatever operation is submitted, the sold count of every event counts
/// its tickets afterwards: they bear the numbers from 0 up to the sold
/// count, without a gap.
pub proof fn law_step_complete(s: State, instruction: Instruction)
    requires
        s.complete(),
    ensures
        s.after(s.step(instruction)).complete(),
{
    if let Ok(next) = s.step(instruction) {
        match instruction {
            Instruction::RegisterOrganizer(accounts) => {
                lemma_store_complete(
                    s,
                    accounts.organizer_registry,
                    next.records[accounts.organizer_registry],
                );
            },
            Instruction::InitializeEvent { accounts, event_id, price, supply, name, date } => {
                lemma_store_complete(s, accounts.event, next.records[accounts.event]);
            },
            Instruction::MintTicket(accounts) => {
                let event = s.event_at(accounts.event)->Some_0;
                let (after, minted) = accounts.outcome(event)->Ok_0;
                let paid = s.pay(minted.payment)->Ok_0;
                law_sound_of_records(s, paid);
                assert forall|e: Address, n: u32| #[trigger] next.number_taken(e, n) by {
                    assert(paid.number_taken(e, n));
                }
            },
            Instruction::TransferTicket(accounts) => {
                lemma_store_complete(s, accounts.ticket, next.records[accounts.ticket]);
            },
            Instruction::CheckIn(accounts) => {
                lemma_store_complete(s, accounts.ticket, next.records[accounts.ticket]);
            },
            Instruction::Refund(accounts) => {
                let event = s.event_at(accounts.event)->Some_0;
                let ticket = s.ticket_at(accounts.ticket)->Some_0;
                let (after, payment) = accounts.outcome(event, ticket)->Ok_0;
                let paid = s.pay(payment)->Ok_0;
                law_sound_of_records(s, paid);
                lemma_store_complete(paid, accounts.ticket, Record::Ticket(after));
            },
            Instruction::CancelEvent(accounts) => {
                lemma_store_complete(s, accounts.event, next.records[accounts.event]);
            },
        }
    }
}

/// Whatever operation is submitted, and whether it succeeds or is turned
/// down, a sound ledger is sound afterwards.
pub proof fn law_step_sound(s: State, instruction: Instruction)
    requires
        s.sound(),
    ensures
        s.after(s.step(instruction)).sound(),
{
    law_step_invariant(s, instruction);
    law_step_addressed(s, instruction);
    law_step_complete(s, instruction);
}

/// The tickets of an event bear the numbers from 0 up to its sold count:
/// for each such number the ticket is stored at the address derived from
/// the event and the number.
pub proof fn law_sold_tickets_are_there(s: State, event: Address, number: u32)
    requires
        s.complete(),
        s.event_at(event) is Some,
        number < s.event_at(event)->Some_0.sold,
    ensures
        derived(ticket_seeds(event, number)) is Some,
        s.ticket_at(derived(ticket_seeds(event, number))->Some_0) is Some,
        s.ticket_at(derived(ticket_seeds(event, number))->Some_0)->Some_0.event == event,
        s.ticket_at(derived(ticket_seeds(event, number))->Some_0)->Some_0.ticket_id == number,
{
    assert(s.number_taken(event, number));
}

/// An event as it was and as it is later: its settings are the same, it has
/// sold no less, and if it was canceled it still is.
pub open spec fn event_carried(before: Event, after: Event) -> bool {
    &&& after.event_authority == before.event_authority
    &&& after.price == before.price
    &&& after.supply == before.supply
    &&& after.event_id == before.event_id
    &&& after.name == before.name
    &&& after.date == before.date
    &&& after.sold >= before.sold
    &&& before.canceled ==> after.canceled
}

/// A ticket as it was and as it is later: it is of the same event and has
/// the same number, and if it was used or refunded it still is.
pub open spec fn ticket_carried(before: Ticket, after: Ticket) -> bool {
    &&& after.event == before.event
    &&& after.ticket_id == before.ticket_id
    &&& before.is_used ==> after.is_used
    &&& before.refunded ==> after.refunded
}

/// The record stored at `at` in `s`, if there is one, is carried over to
/// `t`: a registry record as it is, an event and a ticket as
/// [`event_carried`] and [`ticket_carried`] say.
pub open spec fn record_carried(s: State, t: State, at: Address) -> bool {
    s.records.contains_key(at) ==> t.records.contains_key(at) && match s.records[at] {
        Record::Organizer(registry) => t.records[at] == Record::Organizer(registry),
        Record::Event(event) => t.event_at(at) matches Some(after) && event_carried(event, after),
        Record::Ticket(ticket) => t.ticket_at(at) matches Some(after) && ticket_carried(
            ticket,
            after,
        ),
    }
}

/// `t` is a state that a ledger in state `s` can be in later: no record is
/// lost or changes its kind, what is irreversible has not been reversed, and
/// the clock has not run backwards.
pub open spec fn later(s: State, t: State) -> bool {
    &&& forall|at: Address| #[trigger] record_carried(s, t, at)
    &&& s.clock <= t.clock
}

/// Every state is later than itself.
pub proof fn law_later_reflexive(s: State)
    ensures
        later(s, s),
{
    assert forall|at: Address| #[trigger] record_carried(s, s, at) by {}
}

/// What is later than a later state is later.
pub proof fn law_later_transitive(s: State, t: State, u: State)
    requires
        later(s, t),
        later(t, u),
    ensures
        later(s, u),
{
    assert forall|at: Address| #[trigger] record_carried(s, u, at) by {
        assert(record_carried(s, t, at));
        assert(record_carried(t, u, at));
    }
}

/// Replacing the record at `at` by one that carries it over, or storing one
/// at a free address, gives a later state.
proof fn lemma_store_later(s: State, at: Address, record: Record)
    requires
        record_carried(s, s.store(at, record), at),
    ensures
        later(s, s.store(at, record)),
{
    let t = s.store(at, record);
    assert forall|a: Address| #[trigger] record_carried(s, t, a) by {}
}

/// A state with the same records, whose clock has not run backwards, is a
/// later state: payments, deposits and the passing of time undo nothing.
pub proof fn law_later_with_same_records(s: State, t: State)
    requires
        t.records == s.records,
        s.clock <= t.clock,
    ensures
        later(s, t),
{
    assert forall|a: Address| #[trigger] record_carried(s, t, a) by {}
}

/// A payment gives a later state.
proof fn lemma_pay_later(s: State, payment: Transfer)
    ensures
        later(s, s.after(s.pay(payment))),
{
    law_later_with_same_records(s, s.after(s.pay(payment)));
}

/// Whatever operation is submitted, the state it leaves is later than the
/// state it found: sold counts never drop, tickets keep their event and
/// their number, and cancellation, check-in and refund are never undone.
pub proof fn law_step_later(s: State, instruction: Instruction)
    ensures
        later(s, s.after(s.step(instruction))),
{
    law_later_reflexive(s);
    if let Ok(next) = s.step(instruction) {
        match instruction {
            Instruction::RegisterOrganizer(accounts) => {
                lemma_store_later(
                    s,
                    accounts.organizer_registry,
                    next.records[accounts.organizer_registry],
                );
            },
            Instruction::InitializeEvent { accounts, event_id, price, supply, name, date } => {
                lemma_store_later(s, accounts.event, next.records[accounts.event]);
            },
            Instruction::MintTicket(accounts) => {
                let event = s.event_at(accounts.event)->Some_0;
                let (after, minted) = accounts.outcome(event)->Ok_0;
                let paid = s.pay(minted.payment)->Ok_0;
                let sold = paid.store(accounts.event, Record::Event(after));
                lemma_pay_later(s, minted.payment);
                lemma_store_later(paid, accounts.event, Record::Event(after));
                lemma_store_later(sold, accounts.ticket, Record::Ticket(minted.ticket));
                law_later_transitive(s, paid, sold);
                law_later_transitive(s, sold, next);
            },
            Instruction::TransferTicket(accounts) => {
                lemma_store_later(s, accounts.ticket, next.records[accounts.ticket]);
            },
            Instruction::CheckIn(accounts) => {
                lemma_store_later(s, accounts.ticket, next.records[accounts.ticket]);
            },
            Instruction::Refund(accounts) => {
                let event = s.event_at(accounts.event)->Some_0;
                let ticket = s.ticket_at(accounts.ticket)->Some_0;
                let (after, payment) = accounts.outcome(event, ticket)->Ok_0;
                let paid = s.pay(payment)->Ok_0;
                lemma_pay_later(s, payment);
                lemma_store_later(paid, accounts.ticket, Record::Ticket(after));
                law_later_transitive(s, paid, next);
            },
            Instruction::CancelEvent(accounts) => {
                lemma_store_later(s, accounts.event, next.records[accounts.event]);
            },
        }
    }
}

/// Only minting sells: an operation that is not a mint leaves the sold count
/// of every event as it is, and a mint changes that of its own event alone.
pub proof fn law_sold_changes_by_mint_alone(s: State, instruction: Instruction, at: Address)
    requires
        s.event_at(at) is Some,
        !(instruction matches Instruction::MintTicket(accounts) && accounts.event == at),
    ensures
        s.after(s.step(instruction)).event_at(at) is Some,
        s.after(s.step(instruction)).event_at(at)->Some_0.sold == s.event_at(at)->Some_0.sold,
{
}

/// Only cancellation cancels: an operation that is not the cancellation of
/// an event leaves its canceled flag as it is.
pub proof fn law_canceled_changes_by_cancel_alone(
    s: State,
    instruction: Instruction,
    at: Address,
)
    requires
        s.event_at(at) is Some,
        !(instruction matches Instruction::CancelEvent(accounts) && accounts.event == at),
    ensures
        s.after(s.step(instruction)).event_at(at) is Some,
        s.after(s.step(instruction)).event_at(at)->Some_0.canceled == s.event_at(
            at,
        )->Some_0.canceled,
{
}

/// A successful mint creates the ticket at the address named for it, with
/// the number of tickets sold before as its number, the buyer as its owner,
/// and neither used nor refunded; and the sold count of the event grows by
/// exactly one.
pub proof fn law_mint_takes_next_number(s: State, accounts: MintTicket)
    requires
        s.mint_ticket(accounts) is Ok,
    ensures
        ({
            let next = s.mint_ticket(accounts)->Ok_0;
            let before = s.event_at(accounts.event)->Some_0;
            &&& s.event_at(accounts.event) is Some
            &&& s.ticket_at(accounts.ticket) is None
            &&& next.ticket_at(accounts.ticket) == Some(
                Ticket {
                    owner: accounts.buyer,
                    event: accounts.event,
                    ticket_id: before.sold,
                    is_used: false,
                    refunded: false,
                },
            )
            &&& next.event_at(accounts.event) == Some(
                Event { sold: (before.sold + 1) as u32, ..before },
            )
            &&& before.sold < before.supply
        }),
{
}

/// Ticket numbers grow in the order of minting: of two successful mints for
/// one event, the later one gives its ticket the larger number, whatever
/// happened to the ledger in between.  So a number is never used again, not
/// even after a refund.
pub proof fn law_ticket_numbers_increase(
    s: State,
    first: MintTicket,
    t: State,
    second: MintTicket,
)
    requires
        s.mint_ticket(first) is Ok,
        later(s.mint_ticket(first)->Ok_0, t),
        second.event == first.event,
        t.mint_ticket(second) is Ok,
    ensures
        ({
            let a = s.mint_ticket(first)->Ok_0.ticket_at(first.ticket);
            let b = t.mint_ticket(second)->Ok_0.ticket_at(second.ticket);
            a is Some && b is Some && a->Some_0.ticket_id < b->Some_0.ticket_id
        }),
{
    law_mint_takes_next_number(s, first);
    law_mint_takes_next_number(t, second);
    assert(record_carried(s.mint_ticket(first)->Ok_0, t, first.event));
}

/// A successful mint moves exactly the price from the buyer to the vault,
/// and leaves every other balance as it is.
pub proof fn law_mint_moves_price(s: State, accounts: MintTicket, other: Address)
    requires
        s.mint_ticket(accounts) is Ok,
    ensures
        ({
            let next = s.mint_ticket(accounts)->Ok_0;
            let price = s.event_at(accounts.event)->Some_0.price;
            &&& s.balance(accounts.buyer) >= price
            &&& accounts.buyer != accounts.vault ==> {
                &&& next.balance(accounts.buyer) == s.balance(accounts.buyer) - price
                &&& next.balance(accounts.vault) == s.balance(accounts.vault) + price
            }
            &&& accounts.buyer == accounts.vault ==> next.balance(accounts.vault) == s.balance(
                accounts.vault,
            )
            &&& other != accounts.buyer && other != accounts.vault ==> next.balance(other)
                == s.balance(other)
        }),
{
}

/// Minting for an event that is not canceled and has sold its whole supply
/// fails as sold out, and changes nothing: not the sold count, not the
/// tickets, not a balance.
pub proof fn law_mint_sold_out(s: State, accounts: MintTicket)
    requires
        s.event_at(accounts.event) is Some,
        !s.event_at(accounts.event)->Some_0.canceled,
        s.event_at(accounts.event)->Some_0.sold == s.event_at(accounts.event)->Some_0.supply,
    ensures
        s.mint_ticket(accounts) == Err::<State, Failure>(
            Failure::Program(EventTicketingError::EventSoldOut),
        ),
        s.after(s.mint_ticket(accounts)) == s,
{
}

/// Minting for a canceled event fails as canceled, and changes nothing.
pub proof fn law_mint_canceled(s: State, accounts: MintTicket)
    requires
        s.event_at(accounts.event) is Some,
        s.event_at(accounts.event)->Some_0.canceled,
    ensures
        s.mint_ticket(accounts) == Err::<State, Failure>(
            Failure::Program(EventTicketingError::EventCanceled),
        ),
        s.after(s.mint_ticket(accounts)) == s,
{
}

/// A transfer of a ticket by anyone but its owner fails as unauthorized, and
/// changes nothing: the owner stays.
pub proof fn law_transfer_by_stranger(s: State, accounts: TransferTicket)
    requires
        s.ticket_at(accounts.ticket) is Some,
        s.ticket_at(accounts.ticket)->Some_0.owner != accounts.current_owner,
    ensures
        s.transfer_ticket(accounts) == Err::<State, Failure>(
            Failure::Program(EventTicketingError::UnauthorizedTransfer),
        ),
        s.after(s.transfer_ticket(accounts)) == s,
        s.after(s.transfer_ticket(accounts)).ticket_at(accounts.ticket)->Some_0.owner
            == s.ticket_at(accounts.ticket)->Some_0.owner,
{
}

/// After a successful check-in the ticket is used, and checking the same
/// ticket in again fails as already checked in and changes nothing: the
/// ticket stays used.
pub proof fn law_second_check_in(s: State, accounts: CheckIn)
    requires
        s.check_in(accounts) is Ok,
    ensures
        ({
            let next = s.check_in(accounts)->Ok_0;
            &&& next.ticket_at(accounts.ticket) is Some
            &&& next.ticket_at(accounts.ticket)->Some_0.is_used
            &&& next.check_in(accounts) == Err::<State, Failure>(
                Failure::Program(EventTicketingError::AlreadyCheckedIn),
            )
            &&& next.after(next.check_in(accounts)) == next
        }),
{
}

/// A ticket that was checked in stays used in every later state, so that a
/// check-in by the authority of its event fails there as already checked
/// in.
pub proof fn law_check_in_is_final(s: State, accounts: CheckIn, t: State)
    requires
        s.check_in(accounts) is Ok,
        later(s.check_in(accounts)->Ok_0, t),
    ensures
        t.ticket_at(accounts.ticket) is Some,
        t.ticket_at(accounts.ticket)->Some_0.is_used,
        t.check_in(accounts) == Err::<State, Failure>(
            Failure::Program(EventTicketingError::AlreadyCheckedIn),
        ),
{
    let next = s.check_in(accounts)->Ok_0;
    assert(record_carried(next, t, accounts.ticket));
    assert(record_carried(next, t, accounts.event));
}

/// A refund of a used ticket of the event, asked for by the event's
/// authority, fails as not refundable, and changes nothing.
pub proof fn law_refund_used_ticket(s: State, accounts: Refund)
    requires
        s.event_at(accounts.event) is Some,
        s.ticket_at(accounts.ticket) is Some,
        s.event_at(accounts.event)->Some_0.event_authority == accounts.event_authority,
        s.ticket_at(accounts.ticket)->Some_0.event == accounts.event,
        s.ticket_at(accounts.ticket)->Some_0.is_used,
    ensures
        s.refund(accounts) == Err::<State, Failure>(
            Failure::Program(EventTicketingError::CannotRefundUsedTicket),
        ),
        s.after(s.refund(accounts)) == s,
{
}

/// A refund of a refunded ticket of the event, asked for by the event's
/// authority, fails as already refunded, and changes nothing.
pub proof fn law_refund_refunded_ticket(s: State, accounts: Refund)
    requires
        s.inv(),
        s.event_at(accounts.event) is Some,
        s.ticket_at(accounts.ticket) is Some,
        s.event_at(accounts.event)->Some_0.event_authority == accounts.event_authority,
        s.ticket_at(accounts.ticket)->Some_0.event == accounts.event,
        s.ticket_at(accounts.ticket)->Some_0.refunded,
    ensures
        s.refund(accounts) == Err::<State, Failure>(
            Failure::Program(EventTicketingError::AlreadyRefunded),
        ),
        s.after(s.refund(accounts)) == s,
{
    assert(s.ticket_sound(accounts.ticket));
}

/// A successful refund moves exactly the event's price from the vault to
/// the ticket's owner, leaves every other balance as it is, and turns the
/// ticket from not refunded to refunded, changing nothing else of it.
pub proof fn law_refund_moves_price(s: State, accounts: Refund, other: Address)
    requires
        s.refund(accounts) is Ok,
    ensures
        ({
            let next = s.refund(accounts)->Ok_0;
            let price = s.event_at(accounts.event)->Some_0.price;
            let ticket = s.ticket_at(accounts.ticket)->Some_0;
            &&& s.event_at(accounts.event) is Some
            &&& s.ticket_at(accounts.ticket) is Some
            &&& !ticket.refunded
            &&& next.ticket_at(accounts.ticket) == Some(Ticket { refunded: true, ..ticket })
            &&& next.event_at(accounts.event) == s.event_at(accounts.event)
            &&& s.balance(accounts.vault) >= price
            &&& accounts.vault != ticket.owner ==> {
                &&& next.balance(accounts.vault) == s.balance(accounts.vault) - price
                &&& next.balance(ticket.owner) == s.balance(ticket.owner) + price
            }
            &&& accounts.vault == ticket.owner ==> next.balance(accounts.vault) == s.balance(
                accounts.vault,
            )
            &&& other != accounts.vault && other != ticket.owner ==> next.balance(other)
                == s.balance(other)
        }),
{
}

/// A ticket is refunded once: after a successful refund, a second refund of
/// the same ticket fails as already refunded and changes nothing, no balance
/// either.
pub proof fn law_second_refund(s: State, accounts: Refund)
    requires
        s.refund(accounts) is Ok,
    ensures
        ({
            let next = s.refund(accounts)->Ok_0;
            &&& next.refund(accounts) == Err::<State, Failure>(
                Failure::Program(EventTicketingError::AlreadyRefunded),
            )
            &&& next.after(next.refund(accounts)) == next
        }),
{
}

/// A ticket that was refunded stays refunded in every later state, so that
/// a refund asked for by the authority of its event fails there as already
/// refunded.
pub proof fn law_refund_is_final(s: State, accounts: Refund, t: State)
    requires
        s.refund(accounts) is Ok,
        later(s.refund(accounts)->Ok_0, t),
        t.inv(),
    ensures
        t.ticket_at(accounts.ticket) is Some,
        t.ticket_at(accounts.ticket)->Some_0.refunded,
        t.refund(accounts) == Err::<State, Failure>(
            Failure::Program(EventTicketingError::AlreadyRefunded),
        ),
{
    let next = s.refund(accounts)->Ok_0;
    assert(record_carried(next, t, accounts.ticket));
    assert(record_carried(next, t, accounts.event));
    assert(t.ticket_sound(accounts.ticket));
}

/// Cancellation stops minting and nothing else: a successful cancellation
/// changes the canceled flag of the event alone, so that every ticket and
/// every balance is as before.
pub proof fn law_cancel_changes_flag_only(s: State, accounts: CancelEvent)
    requires
        s.cancel_event(accounts) is Ok,
    ensures
        ({
            let next = s.cancel_event(accounts)->Ok_0;
            &&& s.event_at(accounts.event) is Some
            &&& next.event_at(accounts.event) == Some(
                Event { canceled: true, ..s.event_at(accounts.event)->Some_0 },
            )
            &&& next.balances == s.balances
            &&& forall|at: Address| #[trigger] next.ticket_at(at) == s.ticket_at(at)
        }),
{
}

/// Cancellation blocks minting and nothing else: for a check-in and for a
/// refund it makes no difference whether the event is canceled, and a
/// transfer does not look at the event at all.
pub proof fn law_canceled_event_still_serves(
    event: Event,
    ticket: Ticket,
    door: CheckIn,
    back: Refund,
)
    ensures
        door.outcome(Event { canceled: true, ..event }, ticket) == door.outcome(
            Event { canceled: false, ..event },
            ticket,
        ),
        back.outcome(Event { canceled: true, ..event }, ticket) == back.outcome(
            Event { canceled: false, ..event },
            ticket,
        ),
{
}

/// Whether `instruction` may write the record at `at`: the record it
/// creates, or the record it names to be changed.
pub open spec fn writes(instruction: Instruction, at: Address) -> bool {
    match instruction {
        Instruction::RegisterOrganizer(accounts) => at == accounts.organizer_registry,
        Instruction::InitializeEvent { accounts, .. } => at == accounts.event,
        Instruction::MintTicket(accounts) => at == accounts.event || at == accounts.ticket,
        Instruction::TransferTicket(accounts) => at == accounts.ticket,
        Instruction::CheckIn(accounts) => at == accounts.ticket,
        Instruction::Refund(accounts) => at == accounts.ticket,
        Instruction::CancelEvent(accounts) => at == accounts.event,
    }
}

/// An operation changes the records it writes and no others, leaves the
/// clock alone, and moves currency only where it is a mint or a refund.  So
/// operations on different events do not touch each other's records.
pub proof fn law_step_frame(s: State, instruction: Instruction, at: Address)
    ensures
        ({
            let next = s.after(s.step(instruction));
            &&& next.clock == s.clock
            &&& !writes(instruction, at) ==> {
                &&& next.records.contains_key(at) == s.records.contains_key(at)
                &&& s.records.contains_key(at) ==> next.records[at] == s.records[at]
            }
            &&& !(instruction is MintTicket || instruction is Refund) ==> next.balances
                == s.balances
        }),
{
}

/// Funds leave a balance in two ways only: the balance of a buyer drops by
/// a mint that the buyer signed, and the balance of a vault by a refund out
/// of the vault derived from the event of the refunded ticket.  Nothing else
/// lowers a balance.
pub proof fn law_balance_drops_by_mint_or_refund_alone(
    s: State,
    instruction: Instruction,
    of: Address,
)
    requires
        s.after(s.step(instruction)).balance(of) < s.balance(of),
    ensures
        match instruction {
            Instruction::MintTicket(accounts) => accounts.buyer == of,
            Instruction::Refund(accounts) => accounts.vault == of && derived(vault_seeds(accounts.event)) == Some(of) && s.event_at(accounts.event) is Some && s.event_at(
                accounts.event,
            )->Some_0.event_authority == accounts.event_authority,
            _ => false,
        },
{
}

} // verus!
