//! A ledger of records and balances that runs the operations of the
//! ticketing engine, each as one atomic unit: an operation either takes
//! effect in full or leaves the ledger as it was.
use vstd::prelude::*;

use crate::address::{derived, event_seeds, organizer_seeds, ticket_seeds, Address};
use crate::errors::{EventTicketingError, Failure};
use crate::instructions;
use crate::instructions::{
    CancelEvent, CheckIn, InitializeEvent, MintTicket, Refund, RegisterOrganizer, TransferTicket,
};
use crate::laws::{law_genesis_sound, law_sound_of_records, law_step_sound};
use crate::state::{Event, OrganizerRegistry, Ticket, Transfer};
use crate::table::Table;

verus! {

/// A record of the ledger.
#[derive(Debug)]
pub enum Record {
    Organizer(OrganizerRegistry),
    Event(Event),
    Ticket(Ticket),
}

/// The state of a ledger: the record at each occupied address, the balance
/// of each address that has one, and the clock.
pub struct State {
    pub records: Map<Address, Record>,
    pub balances: Map<Address, u64>,
    pub clock: i64,
}

/// An operation submitted to the ledger, with the addresses it names.
#[derive(Debug)]
pub enum Instruction {
    RegisterOrganizer(RegisterOrganizer),
    InitializeEvent {
        accounts: InitializeEvent,
        event_id: u32,
        price: u64,
        supply: u32,
        name: String,
        date: String,
    },
    MintTicket(MintTicket),
    TransferTicket(TransferTicket),
    CheckIn(CheckIn),
    Refund(Refund),
    CancelEvent(CancelEvent),
}

impl State {
    /// The event stored at `at`, if a record is stored there and is an event.
    pub open spec fn event_at(self, at: Address) -> Option<Event> {
        if self.records.contains_key(at) {
            match self.records[at] {
                Record::Event(event) => Some(event),
                _ => None,
            }
        } else {
            None
        }
    }

    /// The ticket stored at `at`, if a record is stored there and is a
    /// ticket.
    pub open spec fn ticket_at(self, at: Address) -> Option<Ticket> {
        if self.records.contains_key(at) {
            match self.records[at] {
                Record::Ticket(ticket) => Some(ticket),
                _ => None,
            }
        } else {
            None
        }
    }

    /// The registry record stored at `at`, if a record is stored there and
    /// is one.
    pub open spec fn organizer_at(self, at: Address) -> Option<OrganizerRegistry> {
        if self.records.contains_key(at) {
            match self.records[at] {
                Record::Organizer(registry) => Some(registry),
                _ => None,
            }
        } else {
            None
        }
    }

    /// The balance of `of`; an address that was never paid holds nothing.
    pub open spec fn balance(self, of: Address) -> u64 {
        if self.balances.contains_key(of) {
            self.balances[of]
        } else {
            0
        }
    }

    /// The event stored at `at`, if there is one, has sold no more than its
    /// supply, and its texts fit.
    pub open spec fn event_sound(self, at: Address) -> bool {
        self.event_at(at) matches Some(event) ==> event.wf()
    }

    /// The ticket stored at `at`, if there is one, belongs to an event of the
    /// ledger and has a number below that event's sold count; it is not both
    /// used and refunded.
    pub open spec fn ticket_sound(self, at: Address) -> bool {
        self.ticket_at(at) matches Some(ticket) ==> {
            &&& self.event_at(ticket.event) matches Some(event) && ticket.ticket_id < event.sold
            &&& !(ticket.is_used && ticket.refunded)
        }
    }

    /// The tickets stored at `a` and `b`, if they are two tickets of one
    /// event, have different numbers.
    pub open spec fn tickets_apart(self, a: Address, b: Address) -> bool {
        (self.ticket_at(a), self.ticket_at(b)) matches (Some(t), Some(u)) ==> a != b && t.event
            == u.event ==> t.ticket_id != u.ticket_id
    }

    /// The invariant of the counters: every event and every ticket is sound,
    /// and no two tickets of one event share a number.
    pub open spec fn inv(self) -> bool {
        &&& forall|at: Address| #[trigger] self.event_sound(at)
        &&& forall|at: Address| #[trigger] self.ticket_sound(at)
        &&& forall|a: Address, b: Address| #[trigger] self.tickets_apart(a, b)
    }

    /// The record stored at `at`, if there is one, is stored at the address
    /// derived for it: a registry record from its organizer, an event from
    /// its authority and its number, a ticket from its event and its number.
    pub open spec fn record_addressed(self, at: Address) -> bool {
        self.records.contains_key(at) ==> match self.records[at] {
            Record::Organizer(registry) => derived(organizer_seeds(registry.organizer)) == Some(
                at,
            ),
            Record::Event(event) => derived(event_seeds(event.event_authority, event.event_id))
                == Some(at),
            Record::Ticket(ticket) => derived(ticket_seeds(ticket.event, ticket.ticket_id))
                == Some(at),
        }
    }

    /// Every record is stored at the address derived for it.
    pub open spec fn addressed(self) -> bool {
        forall|at: Address| #[trigger] self.record_addressed(at)
    }

    /// If `event` is the address of an event that has sold more than `number`
    /// tickets, the ticket of that number is there: it is stored at the
    /// address derived from the event and the number.
    pub open spec fn number_taken(self, event: Address, number: u32) -> bool {
        self.event_at(event) matches Some(record) ==> number < record.sold ==> {
            &&& derived(ticket_seeds(event, number)) matches Some(at)
            &&& self.ticket_at(at) matches Some(ticket)
            &&& ticket.event == event
            &&& ticket.ticket_id == number
        }
    }

    /// The sold count of every event counts its tickets: they bear the
    /// numbers from 0 up to the sold count, without a gap.
    pub open spec fn complete(self) -> bool {
        forall|event: Address, number: u32| #[trigger] self.number_taken(event, number)
    }

    /// What holds of every state a ledger reaches: the invariant, every
    /// record at the address derived for it, and every sold ticket there.
    pub open spec fn sound(self) -> bool {
        &&& self.inv()
        &&& self.addressed()
        &&& self.complete()
    }

    /// The state after `payment` has been made, or why it cannot be made.
    pub open spec fn pay(self, payment: Transfer) -> Result<State, Failure> {
        if self.balance(payment.from) < payment.lamports {
            Err(Failure::InsufficientFunds)
        } else if payment.from == payment.to {
            Ok(self)
        } else if self.balance(payment.to) + payment.lamports > u64::MAX {
            Err(Failure::BalanceOverflow)
        } else {
            Ok(
                State {
                    balances: self.balances.insert(
                        payment.from,
                        (self.balance(payment.from) - payment.lamports) as u64,
                    ).insert(payment.to, (self.balance(payment.to) + payment.lamports) as u64),
                    ..self
                },
            )
        }
    }

    /// The state after `lamports` have been added to the balance of `to`.
    pub open spec fn deposit(self, to: Address, lamports: u64) -> Result<State, Failure> {
        if self.balance(to) + lamports > u64::MAX {
            Err(Failure::BalanceOverflow)
        } else {
            Ok(
                State {
                    balances: self.balances.insert(to, (self.balance(to) + lamports) as u64),
                    ..self
                },
            )
        }
    }

    /// The state with `record` stored at `at`.
    pub open spec fn store(self, at: Address, record: Record) -> State {
        State { records: self.records.insert(at, record), ..self }
    }

    /// Registration of an organizer.  The record is created at the derived
    /// address, which has to be free, and keeps the time of the ledger's
    /// clock.
    pub open spec fn register_organizer(self, accounts: RegisterOrganizer) -> Result<
        State,
        Failure,
    > {
        if !accounts.well_addressed() {
            Err(Failure::ConstraintSeeds)
        } else if self.records.contains_key(accounts.organizer_registry) {
            Err(Failure::CreationCollision)
        } else {
            Ok(
                self.store(
                    accounts.organizer_registry,
                    Record::Organizer(
                        OrganizerRegistry {
                            organizer: accounts.organizer,
                            registered_at: self.clock,
                        },
                    ),
                ),
            )
        }
    }

    /// Creation of an event.  The settings are checked first; then the
    /// derived address has to be free.  Where an event is already stored
    /// there, the failure says so.
    pub open spec fn initialize_event(
        self,
        accounts: InitializeEvent,
        event_id: u32,
        price: u64,
        supply: u32,
        name: String,
        date: String,
    ) -> Result<State, Failure> {
        match accounts.rejection(event_id, name@, date@) {
            Some(e) => Err(e),
            None => if self.event_at(accounts.event) is Some {
                Err(Failure::Program(EventTicketingError::EventAlreadyExists))
            } else if self.records.contains_key(accounts.event) {
                Err(Failure::CreationCollision)
            } else {
                Ok(
                    self.store(
                        accounts.event,
                        Record::Event(
                            Event {
                                event_authority: accounts.event_authority,
                                price,
                                supply,
                                sold: 0,
                                canceled: false,
                                event_id,
                                name,
                                date,
                            },
                        ),
                    ),
                )
            },
        }
    }

    /// Minting of a ticket.  The rules of the event are checked first; then
    /// the ticket's address has to be free and the buyer has to be able to
    /// pay the price into the vault.
    pub open spec fn mint_ticket(self, accounts: MintTicket) -> Result<State, Failure> {
        match self.event_at(accounts.event) {
            None => Err(Failure::MissingRecord),
            Some(event) => match accounts.outcome(event) {
                Err(e) => Err(e),
                Ok((after, minted)) => if self.records.contains_key(accounts.ticket) {
                    Err(Failure::CreationCollision)
                } else {
                    match self.pay(minted.payment) {
                        Err(e) => Err(e),
                        Ok(paid) => Ok(
                            paid.store(accounts.event, Record::Event(after)).store(
                                accounts.ticket,
                                Record::Ticket(minted.ticket),
                            ),
                        ),
                    }
                },
            },
        }
    }

    /// Transfer of a ticket to a new owner.
    pub open spec fn transfer_ticket(self, accounts: TransferTicket) -> Result<State, Failure> {
        match self.ticket_at(accounts.ticket) {
            None => Err(Failure::MissingRecord),
            Some(ticket) => match accounts.outcome(ticket) {
                Err(e) => Err(e),
                Ok(after) => Ok(self.store(accounts.ticket, Record::Ticket(after))),
            },
        }
    }

    /// Check-in of a ticket.
    pub open spec fn check_in(self, accounts: CheckIn) -> Result<State, Failure> {
        match (self.event_at(accounts.event), self.ticket_at(accounts.ticket)) {
            (Some(event), Some(ticket)) => match accounts.outcome(event, ticket) {
                Err(e) => Err(e),
                Ok(after) => Ok(self.store(accounts.ticket, Record::Ticket(after))),
            },
            _ => Err(Failure::MissingRecord),
        }
    }

    /// Refund of a ticket.  The rules are checked first; then the vault has
    /// to be able to pay the price to the ticket's owner.
    pub open spec fn refund(self, accounts: Refund) -> Result<State, Failure> {
        match (self.event_at(accounts.event), self.ticket_at(accounts.ticket)) {
            (Some(event), Some(ticket)) => match accounts.outcome(event, ticket) {
                Err(e) => Err(e),
                Ok((after, payment)) => match self.pay(payment) {
                    Err(e) => Err(e),
                    Ok(paid) => Ok(paid.store(accounts.ticket, Record::Ticket(after))),
                },
            },
            _ => Err(Failure::MissingRecord),
        }
    }

    /// Cancellation of an event.
    pub open spec fn cancel_event(self, accounts: CancelEvent) -> Result<State, Failure> {
        match self.event_at(accounts.event) {
            None => Err(Failure::MissingRecord),
            Some(event) => match accounts.outcome(event) {
                Err(e) => Err(e),
                Ok(after) => Ok(self.store(accounts.event, Record::Event(after))),
            },
        }
    }

    /// The state after `instruction`, or why it is turned down.
    pub open spec fn step(self, instruction: Instruction) -> Result<State, Failure> {
        match instruction {
            Instruction::RegisterOrganizer(accounts) => self.register_organizer(accounts),
            Instruction::InitializeEvent { accounts, event_id, price, supply, name, date } => {
                self.initialize_event(accounts, event_id, price, supply, name, date)
            },
            Instruction::MintTicket(accounts) => self.mint_ticket(accounts),
            Instruction::TransferTicket(accounts) => self.transfer_ticket(accounts),
            Instruction::CheckIn(accounts) => self.check_in(accounts),
            Instruction::Refund(accounts) => self.refund(accounts),
            Instruction::CancelEvent(accounts) => self.cancel_event(accounts),
        }
    }

    /// The state in which an operation with the given outcome leaves a
    /// ledger that was in state `self`: the new state, or `self` unchanged
    /// where the operation is turned down.
    pub open spec fn after(self, outcome: Result<State, Failure>) -> State {
        match outcome {
            Ok(state) => state,
            Err(_) => self,
        }
    }
}

/// What the caller of an operation is told, given its outcome.
pub open spec fn verdict(outcome: Result<State, Failure>) -> Result<(), Failure> {
    match outcome {
        Ok(_) => Ok(()),
        Err(e) => Err(e),
    }
}

/// The state of a ledger on which nothing has happened yet.
pub open spec fn genesis() -> State {
    State { records: Map::empty(), balances: Map::empty(), clock: 0 }
}

/// A ledger: records under their addresses, balances, and a clock.
pub struct Ledger {
    records: Table<Record>,
    wallets: Table<u64>,
    clock: i64,
}

impl View for Ledger {
    type V = State;

    closed spec fn view(&self) -> State {
        State { records: self.records@, balances: self.wallets@, clock: self.clock }
    }
}

impl Ledger {
    /// No address is stored twice, and the state is sound.
    pub closed spec fn wf(&self) -> bool {
        &&& self.records.wf()
        &&& self.wallets.wf()
        &&& self@.sound()
    }

    /// The state of a well-formed ledger is sound.
    pub proof fn lemma_sound(&self)
        requires
            self.wf(),
        ensures
            self@.sound(),
    {
    }

    /// A ledger on which nothing has happened yet.
    pub fn new() -> (ledger: Ledger)
        ensures
            ledger.wf(),
            ledger@ == genesis(),
    {
        proof {
            law_genesis_sound();
        }
        Ledger { records: Table::new(), wallets: Table::new(), clock: 0 }
    }

    /// The time on the ledger's clock.
    pub fn clock(&self) -> (now: i64)
        ensures
            now == self@.clock,
    {
        self.clock
    }

    /// Moves the clock forward to `now`.  The clock never runs backwards: a
    /// time before the present one is ignored.
    pub fn advance_clock(&mut self, now: i64)
        requires
            old(self).wf(),
        ensures
            final(self).wf(),
            final(self)@ == (State {
                clock: if now > old(self)@.clock {
                    now
                } else {
                    old(self)@.clock
                },
                ..old(self)@
            }),
    {
        if now > self.clock {
            self.clock = now;
        }
        proof {
            law_sound_of_records(old(self)@, self@);
        }
    }

    /// The balance of `of`.
    pub fn balance(&self, of: &Address) -> (lamports: u64)
        requires
            self.wf(),
        ensures
            lamports == self@.balance(*of),
    {
        match self.wallets.get(of) {
            Some(lamports) => *lamports,
            None => 0,
        }
    }

    /// The event stored at `at`, if a record is stored there and is an event.
    pub fn event(&self, at: &Address) -> (r: Option<&Event>)
        requires
            self.wf(),
        ensures
            match r {
                Some(event) => self@.event_at(*at) == Some(*event),
                None => self@.event_at(*at) is None,
            },
    {
        match self.records.get(at) {
            Some(Record::Event(event)) => Some(event),
            _ => None,
        }
    }

    /// The ticket stored at `at`, if a record is stored there and is a
    /// ticket.
    pub fn ticket(&self, at: &Address) -> (r: Option<Ticket>)
        requires
            self.wf(),
        ensures
            r == self@.ticket_at(*at),
    {
        match self.records.get(at) {
            Some(Record::Ticket(ticket)) => Some(*ticket),
            _ => None,
        }
    }

    /// The registry record stored at `at`, if a record is stored there and
    /// is one.
    pub fn organizer(&self, at: &Address) -> (r: Option<OrganizerRegistry>)
        requires
            self.wf(),
        ensures
            r == self@.organizer_at(*at),
    {
        match self.records.get(at) {
            Some(Record::Organizer(registry)) => Some(*registry),
            _ => None,
        }
    }

    /// Adds `lamports` to the balance of `to`, out of nowhere.
    pub fn deposit(&mut self, to: &Address, lamports: u64) -> (r: Result<(), Failure>)
        requires
            old(self).wf(),
        ensures
            final(self).wf(),
            final(self)@ == old(self)@.after(old(self)@.deposit(*to, lamports)),
            r == verdict(old(self)@.deposit(*to, lamports)),
    {
        let held: u64 = self.balance(to);
        if held > u64::MAX - lamports {
            return Err(Failure::BalanceOverflow);
        }
        self.wallets.put(*to, held + lamports);
        proof {
            law_sound_of_records(old(self)@, self@);
        }
        Ok(())
    }

    /// Makes `payment`, or leaves every balance as it is.
    fn pay(&mut self, payment: &Transfer) -> (r: Result<(), Failure>)
        requires
            old(self).wf(),
        ensures
            final(self).wf(),
            final(self)@ == old(self)@.after(old(self)@.pay(*payment)),
            r == verdict(old(self)@.pay(*payment)),
    {
        let held: u64 = self.balance(&payment.from);
        if held < payment.lamports {
            return Err(Failure::InsufficientFunds);
        }
        if payment.from == payment.to {
            return Ok(());
        }
        let had: u64 = self.balance(&payment.to);
        if had > u64::MAX - payment.lamports {
            return Err(Failure::BalanceOverflow);
        }
        self.wallets.put(payment.from, held - payment.lamports);
        self.wallets.put(payment.to, had + payment.lamports);
        proof {
            law_sound_of_records(old(self)@, self@);
        }
        Ok(())
    }

    /// Registers the signer as an organizer.
    pub fn register_organizer(&mut self, accounts: &RegisterOrganizer) -> (r: Result<(), Failure>)
        requires
            old(self).wf(),
        ensures
            final(self).wf(),
            final(self)@ == old(self)@.after(old(self)@.register_organizer(*accounts)),
            r == verdict(old(self)@.register_organizer(*accounts)),
    {
        let registry = match instructions::register_organizer(accounts, self.clock) {
            Ok(registry) => registry,
            Err(e) => {
                return Err(e);
            },
        };
        if self.records.contains(&accounts.organizer_registry) {
            return Err(Failure::CreationCollision);
        }
        self.records.put(accounts.organizer_registry, Record::Organizer(registry));
        proof {
            law_step_sound(old(self)@, Instruction::RegisterOrganizer(*accounts));
        }
        Ok(())
    }

    /// Creates an event under the signer's authority.
    pub fn initialize_event(
        &mut self,
        accounts: &InitializeEvent,
        event_id: u32,
        price: u64,
        supply: u32,
        name: String,
        date: String,
    ) -> (r: Result<(), Failure>)
        requires
            old(self).wf(),
        ensures
            final(self).wf(),
            final(self)@ == old(self)@.after(
                old(self)@.initialize_event(*accounts, event_id, price, supply, name, date),
            ),
            r == verdict(
                old(self)@.initialize_event(*accounts, event_id, price, supply, name, date),
            ),
    {
        let event = match instructions::initialize_event(
            accounts,
            event_id,
            price,
            supply,
            name,
            date,
        ) {
            Ok(event) => event,
            Err(e) => {
                return Err(e);
            },
        };
        if self.event(&accounts.event).is_some() {
            return Err(Failure::Program(EventTicketingError::EventAlreadyExists));
        }
        if self.records.contains(&accounts.event) {
            return Err(Failure::CreationCollision);
        }
        self.records.put(accounts.event, Record::Event(event));
        proof {
            law_step_sound(
                old(self)@,
                Instruction::InitializeEvent {
                    accounts: *accounts,
                    event_id,
                    price,
                    supply,
                    name,
                    date,
                },
            );
        }
        Ok(())
    }

    /// Mints the next ticket of an event for the signer, against payment of
    /// the price into the event's vault.
    pub fn mint_ticket(&mut self, accounts: &MintTicket) -> (r: Result<(), Failure>)
        requires
            old(self).wf(),
        ensures
            final(self).wf(),
            final(self)@ == old(self)@.after(old(self)@.mint_ticket(*accounts)),
            r == verdict(old(self)@.mint_ticket(*accounts)),
    {
        let mut event = match self.event(&accounts.event) {
            Some(event) => event.clone(),
            None => {
                return Err(Failure::MissingRecord);
            },
        };
        let minted = match instructions::mint_ticket(accounts, &mut event) {
            Ok(minted) => minted,
            Err(e) => {
                return Err(e);
            },
        };
        if self.records.contains(&accounts.ticket) {
            return Err(Failure::CreationCollision);
        }
        match self.pay(&minted.payment) {
            Ok(()) => {},
            Err(e) => {
                return Err(e);
            },
        }
        self.records.put(accounts.event, Record::Event(event));
        self.records.put(accounts.ticket, Record::Ticket(minted.ticket));
        proof {
            law_step_sound(old(self)@, Instruction::MintTicket(*accounts));
        }
        Ok(())
    }

    /// Hands a ticket of the signer to a new owner.
    pub fn transfer_ticket(&mut self, accounts: &TransferTicket) -> (r: Result<(), Failure>)
        requires
            old(self).wf(),
        ensures
            final(self).wf(),
            final(self)@ == old(self)@.after(old(self)@.transfer_ticket(*accounts)),
            r == verdict(old(self)@.transfer_ticket(*accounts)),
    {
        let mut ticket = match self.ticket(&accounts.ticket) {
            Some(ticket) => ticket,
            None => {
                return Err(Failure::MissingRecord);
            },
        };
        match instructions::transfer_ticket(accounts, &mut ticket) {
            Ok(()) => {},
            Err(e) => {
                return Err(e);
            },
        }
        self.records.put(accounts.ticket, Record::Ticket(ticket));
        proof {
            law_step_sound(old(self)@, Instruction::TransferTicket(*accounts));
        }
        Ok(())
    }

    /// Checks a ticket in on behalf of the signer, the authority of its
    /// event.
    pub fn check_in(&mut self, accounts: &CheckIn) -> (r: Result<(), Failure>)
        requires
            old(self).wf(),
        ensures
            final(self).wf(),
            final(self)@ == old(self)@.after(old(self)@.check_in(*accounts)),
            r == verdict(old(self)@.check_in(*accounts)),
    {
        let event = match self.event(&accounts.event) {
            Some(event) => event,
            None => {
                return Err(Failure::MissingRecord);
            },
        };
        let mut ticket = match self.ticket(&accounts.ticket) {
            Some(ticket) => ticket,
            None => {
                return Err(Failure::MissingRecord);
            },
        };
        match instructions::check_in(accounts, event, &mut ticket) {
            Ok(()) => {},
            Err(e) => {
                return Err(e);
            },
        }
        self.records.put(accounts.ticket, Record::Ticket(ticket));
        proof {
            law_step_sound(old(self)@, Instruction::CheckIn(*accounts));
        }
        Ok(())
    }

    /// Refunds a ticket out of the vault of its event, on behalf of the
    /// signer, the authority of the event.
    pub fn refund(&mut self, accounts: &Refund) -> (r: Result<(), Failure>)
        requires
            old(self).wf(),
        ensures
            final(self).wf(),
            final(self)@ == old(self)@.after(old(self)@.refund(*accounts)),
            r == verdict(old(self)@.refund(*accounts)),
    {
        let event = match self.event(&accounts.event) {
            Some(event) => event,
            None => {
                return Err(Failure::MissingRecord);
            },
        };
        let mut ticket = match self.ticket(&accounts.ticket) {
            Some(ticket) => ticket,
            None => {
                return Err(Failure::MissingRecord);
            },
        };
        let payment = match instructions::refund(accounts, event, &mut ticket) {
            Ok(payment) => payment,
            Err(e) => {
                return Err(e);
            },
        };
        match self.pay(&payment) {
            Ok(()) => {},
            Err(e) => {
                return Err(e);
            },
        }
        self.records.put(accounts.ticket, Record::Ticket(ticket));
        proof {
            law_step_sound(old(self)@, Instruction::Refund(*accounts));
        }
        Ok(())
    }

    /// Cancels an event on behalf of the signer, its authority.
    pub fn cancel_event(&mut self, accounts: &CancelEvent) -> (r: Result<(), Failure>)
        requires
            old(self).wf(),
        ensures
            final(self).wf(),
            final(self)@ == old(self)@.after(old(self)@.cancel_event(*accounts)),
            r == verdict(old(self)@.cancel_event(*accounts)),
    {
        let mut event = match self.event(&accounts.event) {
            Some(event) => event.clone(),
            None => {
                return Err(Failure::MissingRecord);
            },
        };
        match instructions::cancel_event(accounts, &mut event) {
            Ok(()) => {},
            Err(e) => {
                return Err(e);
            },
        }
        self.records.put(accounts.event, Record::Event(event));
        proof {
            law_step_sound(old(self)@, Instruction::CancelEvent(*accounts));
        }
        Ok(())
    }

    /// Runs one operation.  It takes effect in full or not at all.
    pub fn process(&mut self, instruction: Instruction) -> (r: Result<(), Failure>)
        requires
            old(self).wf(),
        ensures
            final(self).wf(),
            final(self)@ == old(self)@.after(old(self)@.step(instruction)),
            r == verdict(old(self)@.step(instruction)),
    {
        match instruction {
            Instruction::RegisterOrganizer(accounts) => self.register_organizer(&accounts),
            Instruction::InitializeEvent { accounts, event_id, price, supply, name, date } => {
                self.initialize_event(&accounts, event_id, price, supply, name, date)
            },
            Instruction::MintTicket(accounts) => self.mint_ticket(&accounts),
            Instruction::TransferTicket(accounts) => self.transfer_ticket(&accounts),
            Instruction::CheckIn(accounts) => self.check_in(&accounts),
            Instruction::Refund(accounts) => self.refund(&accounts),
            Instruction::CancelEvent(accounts) => self.cancel_event(&accounts),
        }
    }
}

} // verus!
