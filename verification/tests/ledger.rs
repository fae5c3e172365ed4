use event_ticketing::address::{
    event_address, organizer_address, ticket_address, vault_address, Address,
};
use event_ticketing::errors::{EventTicketingError, Failure};
use event_ticketing::instructions::{
    CancelEvent, CheckIn, InitializeEvent, MintTicket, Refund, RegisterOrganizer, TransferTicket,
};
use event_ticketing::ledger::{Instruction, Ledger};
use event_ticketing::state::{OrganizerRegistry, Ticket};

fn identity(tag: u8) -> Address {
    Address::new([tag; 32])
}

struct Gig {
    ledger: Ledger,
    organizer: Address,
    event: Address,
    vault: Address,
}

/// A ledger with the event named Gig on it: number 1 of its
/// organizer, price 1000, supply 2.
fn gig() -> Gig {
    let organizer = identity(1);
    let event = event_address(&organizer, 1).unwrap();
    let vault = vault_address(&event).unwrap();
    let mut ledger = Ledger::new();
    let registry = organizer_address(&organizer).unwrap();
    assert_eq!(
        ledger.register_organizer(&RegisterOrganizer { organizer_registry: registry, organizer }),
        Ok(())
    );
    assert_eq!(
        ledger.initialize_event(
            &InitializeEvent { event, event_authority: organizer },
            1,
            1000,
            2,
            String::from("Gig"),
            String::from("2025-01-01"),
        ),
        Ok(())
    );
    Gig { ledger, organizer, event, vault }
}

fn mint(gig: &mut Gig, buyer: Address, number: u32) -> (Address, Result<(), Failure>) {
    let ticket = ticket_address(&gig.event, number).unwrap();
    let r = gig.ledger.mint_ticket(&MintTicket {
        event: gig.event,
        ticket,
        vault: gig.vault,
        buyer,
    });
    (ticket, r)
}

#[test]
fn two_mints_sell_out_an_event_of_two() {
    let mut g = gig();
    let registry = organizer_address(&g.organizer).unwrap();
    assert_eq!(
        g.ledger.organizer(&registry),
        Some(OrganizerRegistry { organizer: g.organizer, registered_at: 0 })
    );
    {
        let event = g.ledger.event(&g.event).unwrap();
        assert_eq!(event.sold, 0);
        assert_eq!(event.supply, 2);
        assert_eq!(event.price, 1000);
        assert_eq!(event.event_id, 1);
        assert_eq!(event.event_authority, g.organizer);
        assert!(!event.canceled);
        assert_eq!(event.name, "Gig");
        assert_eq!(event.date, "2025-01-01");
    }
    let a = identity(10);
    let b = identity(11);
    assert_eq!(g.ledger.deposit(&a, 5000), Ok(()));
    assert_eq!(g.ledger.deposit(&b, 1000), Ok(()));

    let (first, r) = mint(&mut g, a, 0);
    assert_eq!(r, Ok(()));
    let (second, r) = mint(&mut g, b, 1);
    assert_eq!(r, Ok(()));
    assert_eq!(
        g.ledger.ticket(&first),
        Some(Ticket { owner: a, event: g.event, ticket_id: 0, is_used: false, refunded: false })
    );
    assert_eq!(
        g.ledger.ticket(&second),
        Some(Ticket { owner: b, event: g.event, ticket_id: 1, is_used: false, refunded: false })
    );
    assert_eq!(g.ledger.event(&g.event).unwrap().sold, 2);
    assert_eq!(g.ledger.balance(&g.vault), 2000);
    assert_eq!(g.ledger.balance(&a), 4000);
    assert_eq!(g.ledger.balance(&b), 0);

    let (third, r) = mint(&mut g, a, 2);
    assert_eq!(r, Err(Failure::Program(EventTicketingError::EventSoldOut)));
    assert_eq!(g.ledger.ticket(&third), None);
    assert_eq!(g.ledger.event(&g.event).unwrap().sold, 2);
    assert_eq!(g.ledger.balance(&g.vault), 2000);
    assert_eq!(g.ledger.balance(&a), 4000);
}

#[test]
fn ticket_changes_hands_twice_then_admits_once() {
    let mut g = gig();
    let (a, b, c) = (identity(10), identity(11), identity(12));
    assert_eq!(g.ledger.deposit(&a, 1000), Ok(()));
    let (ticket, r) = mint(&mut g, a, 0);
    assert_eq!(r, Ok(()));
    assert_eq!(g.ledger.ticket(&ticket).unwrap().owner, a);

    assert_eq!(
        g.ledger.transfer_ticket(&TransferTicket { ticket, current_owner: a, new_owner: b }),
        Ok(())
    );
    assert_eq!(g.ledger.ticket(&ticket).unwrap().owner, b);
    assert_eq!(
        g.ledger.transfer_ticket(&TransferTicket { ticket, current_owner: b, new_owner: c }),
        Ok(())
    );
    assert_eq!(g.ledger.ticket(&ticket).unwrap().owner, c);

    let door = CheckIn { event: g.event, ticket, event_authority: g.organizer };
    assert_eq!(g.ledger.check_in(&door), Ok(()));
    assert!(g.ledger.ticket(&ticket).unwrap().is_used);
    assert_eq!(
        g.ledger.check_in(&door),
        Err(Failure::Program(EventTicketingError::AlreadyCheckedIn))
    );
    assert!(g.ledger.ticket(&ticket).unwrap().is_used);

    let back = Refund { event: g.event, ticket, vault: g.vault, event_authority: g.organizer };
    assert_eq!(
        g.ledger.refund(&back),
        Err(Failure::Program(EventTicketingError::CannotRefundUsedTicket))
    );
    assert!(!g.ledger.ticket(&ticket).unwrap().refunded);
    assert_eq!(g.ledger.balance(&g.vault), 1000);
    assert_eq!(g.ledger.balance(&c), 0);
}

#[test]
fn cancellation_stops_minting_and_nothing_else() {
    let mut g = gig();
    let (a, b) = (identity(10), identity(11));
    assert_eq!(g.ledger.deposit(&a, 2000), Ok(()));
    assert_eq!(g.ledger.deposit(&b, 1000), Ok(()));
    let (first, r) = mint(&mut g, a, 0);
    assert_eq!(r, Ok(()));
    let (second, r) = mint_with_supply_left(&mut g, a);
    assert_eq!(r, Ok(()));

    assert_eq!(
        g.ledger.cancel_event(&CancelEvent { event: g.event, event_authority: g.organizer }),
        Ok(())
    );
    assert!(g.ledger.event(&g.event).unwrap().canceled);

    let (third, r) = mint(&mut g, b, 2);
    assert_eq!(r, Err(Failure::Program(EventTicketingError::EventCanceled)));
    assert_eq!(g.ledger.ticket(&third), None);
    assert_eq!(g.ledger.balance(&b), 1000);

    assert_eq!(
        g.ledger.check_in(&CheckIn { event: g.event, ticket: first, event_authority: g.organizer }),
        Ok(())
    );
    assert!(g.ledger.ticket(&first).unwrap().is_used);
    assert_eq!(
        g.ledger.refund(&Refund {
            event: g.event,
            ticket: second,
            vault: g.vault,
            event_authority: g.organizer,
        }),
        Ok(())
    );
    assert!(g.ledger.ticket(&second).unwrap().refunded);
    assert_eq!(g.ledger.balance(&g.vault), 1000);
    assert_eq!(g.ledger.balance(&a), 1000);
    assert_eq!(
        g.ledger.transfer_ticket(&TransferTicket {
            ticket: second,
            current_owner: a,
            new_owner: b,
        }),
        Err(Failure::Program(EventTicketingError::AlreadyRefunded))
    );
}

fn mint_with_supply_left(gig: &mut Gig, buyer: Address) -> (Address, Result<(), Failure>) {
    let number = gig.ledger.event(&gig.event).unwrap().sold;
    mint(gig, buyer, number)
}

#[test]
fn refund_pays_back_once() {
    let mut g = gig();
    let a = identity(10);
    assert_eq!(g.ledger.deposit(&a, 1500), Ok(()));
    let (ticket, r) = mint(&mut g, a, 0);
    assert_eq!(r, Ok(()));
    assert_eq!(g.ledger.balance(&g.vault), 1000);
    assert_eq!(g.ledger.balance(&a), 500);

    let back = Refund { event: g.event, ticket, vault: g.vault, event_authority: g.organizer };
    assert_eq!(g.ledger.refund(&back), Ok(()));
    assert_eq!(g.ledger.balance(&g.vault), 0);
    assert_eq!(g.ledger.balance(&a), 1500);
    assert!(g.ledger.ticket(&ticket).unwrap().refunded);
    assert!(!g.ledger.ticket(&ticket).unwrap().is_used);
    assert_eq!(g.ledger.event(&g.event).unwrap().sold, 1);

    assert_eq!(
        g.ledger.refund(&back),
        Err(Failure::Program(EventTicketingError::AlreadyRefunded))
    );
    assert_eq!(g.ledger.balance(&g.vault), 0);
    assert_eq!(g.ledger.balance(&a), 1500);
    assert!(g.ledger.ticket(&ticket).unwrap().refunded);
}

#[test]
fn refunded_place_is_not_sold_again() {
    let mut g = gig();
    let a = identity(10);
    assert_eq!(g.ledger.deposit(&a, 3000), Ok(()));
    let (first, r) = mint(&mut g, a, 0);
    assert_eq!(r, Ok(()));
    assert_eq!(
        g.ledger.refund(&Refund {
            event: g.event,
            ticket: first,
            vault: g.vault,
            event_authority: g.organizer,
        }),
        Ok(())
    );
    // The number of the refunded ticket is not given out again.
    let (again, r) = mint(&mut g, a, 0);
    assert_eq!(r, Err(Failure::ConstraintSeeds));
    assert_eq!(again, first);
    let (second, r) = mint(&mut g, a, 1);
    assert_eq!(r, Ok(()));
    assert_eq!(g.ledger.ticket(&second).unwrap().ticket_id, 1);
    let (_, r) = mint(&mut g, a, 2);
    assert_eq!(r, Err(Failure::Program(EventTicketingError::EventSoldOut)));
    let event = g.ledger.event(&g.event).unwrap();
    assert_eq!((event.sold, event.supply), (2, 2));
}

#[test]
fn transfer_by_stranger_leaves_owner() {
    let mut g = gig();
    let (a, b) = (identity(10), identity(11));
    assert_eq!(g.ledger.deposit(&a, 1000), Ok(()));
    let (ticket, r) = mint(&mut g, a, 0);
    assert_eq!(r, Ok(()));
    assert_eq!(
        g.ledger.transfer_ticket(&TransferTicket { ticket, current_owner: b, new_owner: b }),
        Err(Failure::Program(EventTicketingError::UnauthorizedTransfer))
    );
    assert_eq!(g.ledger.ticket(&ticket).unwrap().owner, a);
}

#[test]
fn used_ticket_cannot_change_hands() {
    let mut g = gig();
    let (a, b) = (identity(10), identity(11));
    assert_eq!(g.ledger.deposit(&a, 1000), Ok(()));
    let (ticket, r) = mint(&mut g, a, 0);
    assert_eq!(r, Ok(()));
    assert_eq!(
        g.ledger.check_in(&CheckIn { event: g.event, ticket, event_authority: g.organizer }),
        Ok(())
    );
    assert_eq!(
        g.ledger.transfer_ticket(&TransferTicket { ticket, current_owner: a, new_owner: b }),
        Err(Failure::Program(EventTicketingError::TicketAlreadyUsed))
    );
    assert_eq!(g.ledger.ticket(&ticket).unwrap().owner, a);
}

#[test]
fn refunded_ticket_is_not_admitted() {
    let mut g = gig();
    let a = identity(10);
    assert_eq!(g.ledger.deposit(&a, 1000), Ok(()));
    let (ticket, r) = mint(&mut g, a, 0);
    assert_eq!(r, Ok(()));
    assert_eq!(
        g.ledger.refund(&Refund {
            event: g.event,
            ticket,
            vault: g.vault,
            event_authority: g.organizer,
        }),
        Ok(())
    );
    assert_eq!(
        g.ledger.check_in(&CheckIn { event: g.event, ticket, event_authority: g.organizer }),
        Err(Failure::Program(EventTicketingError::AlreadyRefunded))
    );
    assert!(!g.ledger.ticket(&ticket).unwrap().is_used);
}

#[test]
fn only_the_authority_checks_in_refunds_and_cancels() {
    let mut g = gig();
    let (a, stranger) = (identity(10), identity(66));
    assert_eq!(g.ledger.deposit(&a, 1000), Ok(()));
    let (ticket, r) = mint(&mut g, a, 0);
    assert_eq!(r, Ok(()));
    assert_eq!(
        g.ledger.check_in(&CheckIn { event: g.event, ticket, event_authority: stranger }),
        Err(Failure::Program(EventTicketingError::UnauthorizedCheckIn))
    );
    assert_eq!(
        g.ledger.refund(&Refund {
            event: g.event,
            ticket,
            vault: g.vault,
            event_authority: stranger,
        }),
        Err(Failure::ConstraintViolated)
    );
    assert_eq!(
        g.ledger.cancel_event(&CancelEvent { event: g.event, event_authority: stranger }),
        Err(Failure::ConstraintViolated)
    );
    let ticket_now = g.ledger.ticket(&ticket).unwrap();
    assert!(!ticket_now.is_used && !ticket_now.refunded);
    assert!(!g.ledger.event(&g.event).unwrap().canceled);
    assert_eq!(g.ledger.balance(&g.vault), 1000);
}

#[test]
fn ticket_of_another_event_is_turned_down() {
    let mut g = gig();
    let a = identity(10);
    assert_eq!(g.ledger.deposit(&a, 1000), Ok(()));
    let (ticket, r) = mint(&mut g, a, 0);
    assert_eq!(r, Ok(()));
    let other = event_address(&g.organizer, 2).unwrap();
    assert_eq!(
        g.ledger.initialize_event(
            &InitializeEvent { event: other, event_authority: g.organizer },
            2,
            5,
            1,
            String::from("Other"),
            String::from("2025-02-02"),
        ),
        Ok(())
    );
    assert_eq!(
        g.ledger.check_in(&CheckIn { event: other, ticket, event_authority: g.organizer }),
        Err(Failure::Program(EventTicketingError::UnauthorizedCheckIn))
    );
    let other_vault = vault_address(&other).unwrap();
    assert_eq!(
        g.ledger.refund(&Refund {
            event: other,
            ticket,
            vault: other_vault,
            event_authority: g.organizer,
        }),
        Err(Failure::ConstraintViolated)
    );
}

#[test]
fn mint_without_funds_changes_nothing() {
    let mut g = gig();
    let a = identity(10);
    assert_eq!(g.ledger.deposit(&a, 999), Ok(()));
    let (ticket, r) = mint(&mut g, a, 0);
    assert_eq!(r, Err(Failure::InsufficientFunds));
    assert_eq!(g.ledger.ticket(&ticket), None);
    assert_eq!(g.ledger.event(&g.event).unwrap().sold, 0);
    assert_eq!(g.ledger.balance(&a), 999);
    assert_eq!(g.ledger.balance(&g.vault), 0);
}

#[test]
fn mint_at_a_wrong_address_is_turned_down() {
    let mut g = gig();
    let a = identity(10);
    assert_eq!(g.ledger.deposit(&a, 5000), Ok(()));
    // The ticket named at the address of number 1 while number 0 is due.
    let (_, r) = mint(&mut g, a, 1);
    assert_eq!(r, Err(Failure::ConstraintSeeds));
    // A vault that is not the event's own.
    let ticket = ticket_address(&g.event, 0).unwrap();
    let r = g.ledger.mint_ticket(&MintTicket { event: g.event, ticket, vault: a, buyer: a });
    assert_eq!(r, Err(Failure::ConstraintSeeds));
    assert_eq!(g.ledger.event(&g.event).unwrap().sold, 0);
    assert_eq!(g.ledger.balance(&a), 5000);
}

#[test]
fn operations_on_missing_records() {
    let mut ledger = Ledger::new();
    let (a, nowhere) = (identity(10), identity(99));
    let vault = vault_address(&nowhere).unwrap();
    let ticket = ticket_address(&nowhere, 0).unwrap();
    assert_eq!(
        ledger.mint_ticket(&MintTicket { event: nowhere, ticket, vault, buyer: a }),
        Err(Failure::MissingRecord)
    );
    assert_eq!(
        ledger.transfer_ticket(&TransferTicket { ticket, current_owner: a, new_owner: a }),
        Err(Failure::MissingRecord)
    );
    assert_eq!(
        ledger.check_in(&CheckIn { event: nowhere, ticket, event_authority: a }),
        Err(Failure::MissingRecord)
    );
    assert_eq!(
        ledger.refund(&Refund { event: nowhere, ticket, vault, event_authority: a }),
        Err(Failure::MissingRecord)
    );
    assert_eq!(
        ledger.cancel_event(&CancelEvent { event: nowhere, event_authority: a }),
        Err(Failure::MissingRecord)
    );
    assert_eq!(ledger.event(&nowhere).map(|e| e.sold), None);
    assert_eq!(ledger.balance(&a), 0);
}

#[test]
fn second_registration_collides() {
    let mut g = gig();
    let registry = organizer_address(&g.organizer).unwrap();
    g.ledger.advance_clock(77);
    assert_eq!(
        g.ledger.register_organizer(&RegisterOrganizer {
            organizer_registry: registry,
            organizer: g.organizer,
        }),
        Err(Failure::CreationCollision)
    );
    assert_eq!(
        g.ledger.organizer(&registry),
        Some(OrganizerRegistry { organizer: g.organizer, registered_at: 0 })
    );
    // Registered at an address that is not derived from the organizer.
    let other = identity(2);
    assert_eq!(
        g.ledger.register_organizer(&RegisterOrganizer {
            organizer_registry: registry,
            organizer: other,
        }),
        Err(Failure::ConstraintSeeds)
    );
    let own = organizer_address(&other).unwrap();
    assert_eq!(
        g.ledger.register_organizer(&RegisterOrganizer {
            organizer_registry: own,
            organizer: other,
        }),
        Ok(())
    );
    assert_eq!(
        g.ledger.organizer(&own),
        Some(OrganizerRegistry { organizer: other, registered_at: 77 })
    );
}

#[test]
fn clock_does_not_run_backwards() {
    let mut ledger = Ledger::new();
    assert_eq!(ledger.clock(), 0);
    ledger.advance_clock(1_700_000_000);
    assert_eq!(ledger.clock(), 1_700_000_000);
    ledger.advance_clock(5);
    assert_eq!(ledger.clock(), 1_700_000_000);
    ledger.advance_clock(-1);
    assert_eq!(ledger.clock(), 1_700_000_000);
}

#[test]
fn second_event_of_the_same_number_already_exists() {
    let mut g = gig();
    assert_eq!(
        g.ledger.initialize_event(
            &InitializeEvent { event: g.event, event_authority: g.organizer },
            1,
            7,
            9,
            String::from("Again"),
            String::from("2026-01-01"),
        ),
        Err(Failure::Program(EventTicketingError::EventAlreadyExists))
    );
    let event = g.ledger.event(&g.event).unwrap();
    assert_eq!((event.price, event.supply), (1000, 2));
    assert_eq!(event.name, "Gig");
}

#[test]
fn event_texts_are_measured_in_bytes() {
    let mut ledger = Ledger::new();
    let organizer = identity(1);
    let create = |ledger: &mut Ledger, id: u32, name: String, date: String| {
        let event = event_address(&organizer, id).unwrap();
        ledger.initialize_event(
            &InitializeEvent { event, event_authority: organizer },
            id,
            1,
            1,
            name,
            date,
        )
    };
    assert_eq!(create(&mut ledger, 1, "n".repeat(50), "d".repeat(30)), Ok(()));
    assert_eq!(
        create(&mut ledger, 2, "n".repeat(51), "d".repeat(30)),
        Err(Failure::Program(EventTicketingError::NameTooLong))
    );
    assert_eq!(
        create(&mut ledger, 3, "n".repeat(50), "d".repeat(31)),
        Err(Failure::Program(EventTicketingError::DateTooLong))
    );
    assert_eq!(
        create(&mut ledger, 4, "n".repeat(51), "d".repeat(31)),
        Err(Failure::Program(EventTicketingError::NameTooLong))
    );
    // Twenty-six letters of two bytes each are 52 bytes.
    assert_eq!(
        create(&mut ledger, 5, "é".repeat(26), String::new()),
        Err(Failure::Program(EventTicketingError::NameTooLong))
    );
    assert_eq!(create(&mut ledger, 6, "é".repeat(25), String::new()), Ok(()));
    assert_eq!(create(&mut ledger, 7, String::new(), "é".repeat(16)),
        Err(Failure::Program(EventTicketingError::DateTooLong)));
    // An event named at an address that is not its own.
    let elsewhere = event_address(&organizer, 9).unwrap();
    assert_eq!(
        ledger.initialize_event(
            &InitializeEvent { event: elsewhere, event_authority: organizer },
            8,
            1,
            1,
            String::from("x"),
            String::from("y"),
        ),
        Err(Failure::ConstraintSeeds)
    );
    assert!(ledger.event(&elsewhere).is_none());
}

#[test]
fn event_without_supply_is_sold_out_at_once() {
    let mut ledger = Ledger::new();
    let organizer = identity(1);
    let event = event_address(&organizer, 3).unwrap();
    assert_eq!(
        ledger.initialize_event(
            &InitializeEvent { event, event_authority: organizer },
            3,
            0,
            0,
            String::new(),
            String::new(),
        ),
        Ok(())
    );
    let vault = vault_address(&event).unwrap();
    let ticket = ticket_address(&event, 0).unwrap();
    assert_eq!(
        ledger.mint_ticket(&MintTicket { event, ticket, vault, buyer: organizer }),
        Err(Failure::Program(EventTicketingError::EventSoldOut))
    );
}

#[test]
fn free_event_mints_without_funds() {
    let mut ledger = Ledger::new();
    let organizer = identity(1);
    let event = event_address(&organizer, 3).unwrap();
    assert_eq!(
        ledger.initialize_event(
            &InitializeEvent { event, event_authority: organizer },
            3,
            0,
            u32::MAX,
            String::from("Free"),
            String::from("soon"),
        ),
        Ok(())
    );
    let vault = vault_address(&event).unwrap();
    let ticket = ticket_address(&event, 0).unwrap();
    let buyer = identity(10);
    assert_eq!(ledger.mint_ticket(&MintTicket { event, ticket, vault, buyer }), Ok(()));
    assert_eq!(ledger.balance(&vault), 0);
    assert_eq!(ledger.event(&event).unwrap().sold, 1);
}

#[test]
fn deposit_refuses_to_overflow() {
    let mut ledger = Ledger::new();
    let a = identity(10);
    assert_eq!(ledger.deposit(&a, u64::MAX), Ok(()));
    assert_eq!(ledger.deposit(&a, 1), Err(Failure::BalanceOverflow));
    assert_eq!(ledger.balance(&a), u64::MAX);
    assert_eq!(ledger.deposit(&a, 0), Ok(()));
    assert_eq!(ledger.balance(&a), u64::MAX);
}

#[test]
fn payment_that_would_overflow_the_vault_is_turned_down() {
    let mut g = gig();
    let a = identity(10);
    assert_eq!(g.ledger.deposit(&a, 1000), Ok(()));
    let vault = g.vault;
    assert_eq!(g.ledger.deposit(&vault, u64::MAX - 999), Ok(()));
    let (ticket, r) = mint(&mut g, a, 0);
    assert_eq!(r, Err(Failure::BalanceOverflow));
    assert_eq!(g.ledger.ticket(&ticket), None);
    assert_eq!(g.ledger.balance(&a), 1000);
    assert_eq!(g.ledger.event(&g.event).unwrap().sold, 0);
}

#[test]
fn refund_to_the_vault_itself_moves_nothing() {
    let mut g = gig();
    let a = identity(10);
    assert_eq!(g.ledger.deposit(&a, 1000), Ok(()));
    let (ticket, r) = mint(&mut g, a, 0);
    assert_eq!(r, Ok(()));
    let vault = g.vault;
    assert_eq!(
        g.ledger.transfer_ticket(&TransferTicket { ticket, current_owner: a, new_owner: vault }),
        Ok(())
    );
    assert_eq!(
        g.ledger.refund(&Refund {
            event: g.event,
            ticket,
            vault,
            event_authority: g.organizer,
        }),
        Ok(())
    );
    assert_eq!(g.ledger.balance(&vault), 1000);
    assert!(g.ledger.ticket(&ticket).unwrap().refunded);
}

#[test]
fn refund_from_an_empty_vault_changes_nothing() {
    let mut ledger = Ledger::new();
    let organizer = identity(1);
    let event = event_address(&organizer, 3).unwrap();
    assert_eq!(
        ledger.initialize_event(
            &InitializeEvent { event, event_authority: organizer },
            3,
            0,
            5,
            String::from("Free"),
            String::from("soon"),
        ),
        Ok(())
    );
    let vault = vault_address(&event).unwrap();
    let ticket = ticket_address(&event, 0).unwrap();
    let buyer = identity(10);
    assert_eq!(ledger.mint_ticket(&MintTicket { event, ticket, vault, buyer }), Ok(()));
    // A refund out of a vault that is not the event's own.
    assert_eq!(
        ledger.refund(&Refund { event, ticket, vault: buyer, event_authority: organizer }),
        Err(Failure::ConstraintSeeds)
    );
    assert_eq!(ledger.refund(&Refund { event, ticket, vault, event_authority: organizer }), Ok(()));
    assert_eq!(ledger.balance(&buyer), 0);
}

#[test]
fn process_runs_each_operation() {
    let mut ledger = Ledger::new();
    let organizer = identity(1);
    let buyer = identity(10);
    let friend = identity(11);
    let registry = organizer_address(&organizer).unwrap();
    let event = event_address(&organizer, 4).unwrap();
    let vault = vault_address(&event).unwrap();
    let first = ticket_address(&event, 0).unwrap();
    let second = ticket_address(&event, 1).unwrap();
    assert_eq!(ledger.deposit(&buyer, 30), Ok(()));
    let run = |ledger: &mut Ledger, instruction: Instruction| ledger.process(instruction);
    assert_eq!(
        run(
            &mut ledger,
            Instruction::RegisterOrganizer(RegisterOrganizer {
                organizer_registry: registry,
                organizer,
            })
        ),
        Ok(())
    );
    assert_eq!(
        run(
            &mut ledger,
            Instruction::InitializeEvent {
                accounts: InitializeEvent { event, event_authority: organizer },
                event_id: 4,
                price: 10,
                supply: 3,
                name: String::from("Play"),
                date: String::from("2025-06-01"),
            }
        ),
        Ok(())
    );
    for ticket in [first, second] {
        assert_eq!(
            run(&mut ledger, Instruction::MintTicket(MintTicket { event, ticket, vault, buyer })),
            Ok(())
        );
    }
    assert_eq!(
        run(
            &mut ledger,
            Instruction::TransferTicket(TransferTicket {
                ticket: first,
                current_owner: buyer,
                new_owner: friend,
            })
        ),
        Ok(())
    );
    assert_eq!(
        run(
            &mut ledger,
            Instruction::CheckIn(CheckIn { event, ticket: first, event_authority: organizer })
        ),
        Ok(())
    );
    assert_eq!(
        run(
            &mut ledger,
            Instruction::Refund(Refund {
                event,
                ticket: second,
                vault,
                event_authority: organizer,
            })
        ),
        Ok(())
    );
    assert_eq!(
        run(
            &mut ledger,
            Instruction::CancelEvent(CancelEvent { event, event_authority: organizer })
        ),
        Ok(())
    );
    assert_eq!(
        run(
            &mut ledger,
            Instruction::MintTicket(MintTicket {
                event,
                ticket: ticket_address(&event, 2).unwrap(),
                vault,
                buyer,
            })
        ),
        Err(Failure::Program(EventTicketingError::EventCanceled))
    );
    assert_eq!(
        ledger.ticket(&first),
        Some(Ticket { owner: friend, event, ticket_id: 0, is_used: true, refunded: false })
    );
    assert_eq!(
        ledger.ticket(&second),
        Some(Ticket { owner: buyer, event, ticket_id: 1, is_used: false, refunded: true })
    );
    assert_eq!(ledger.balance(&vault), 10);
    assert_eq!(ledger.balance(&buyer), 20);
    let stored = ledger.event(&event).unwrap();
    assert_eq!((stored.sold, stored.supply, stored.canceled), (2, 3, true));
}
