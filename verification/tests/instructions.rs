use event_ticketing::address::{event_address, organizer_address, ticket_address, vault_address, Address};
use event_ticketing::errors::{EventTicketingError, Failure};
use event_ticketing::instructions::{
    cancel_event, check_in, initialize_event, mint_ticket, refund, register_organizer,
    transfer_ticket, CancelEvent, CheckIn, InitializeEvent, MintTicket, Minted, Refund,
    RegisterOrganizer, TransferTicket,
};
use event_ticketing::state::{Event, OrganizerRegistry, Ticket, Transfer};

fn key_of(tag: u8) -> Address {
    Address::new([tag; 32])
}

fn event_of(authority: Address) -> (Address, Event) {
    let key = event_address(&authority, 1).unwrap();
    let event = initialize_event(
        &InitializeEvent { event: key, event_authority: authority },
        1,
        1000,
        2,
        String::from("Gig"),
        String::from("2025-01-01"),
    )
    .unwrap();
    (key, event)
}

fn ticket_of(event: Address, owner: Address) -> Ticket {
    Ticket { owner, event, ticket_id: 0, is_used: false, refunded: false }
}

#[test]
fn initialize_event_keeps_the_settings() {
    let authority = key_of(1);
    let (_, event) = event_of(authority);
    assert_eq!(
        event,
        Event {
            event_authority: authority,
            price: 1000,
            supply: 2,
            sold: 0,
            canceled: false,
            event_id: 1,
            name: String::from("Gig"),
            date: String::from("2025-01-01"),
        }
    );
}

#[test]
fn initialize_event_checks_name_then_date_then_address() {
    let authority = key_of(1);
    let right = event_address(&authority, 1).unwrap();
    let wrong = key_of(2);
    let run = |event: Address, name: usize, date: usize| {
        initialize_event(
            &InitializeEvent { event, event_authority: authority },
            1,
            0,
            0,
            "x".repeat(name),
            "y".repeat(date),
        )
        .map(|e| (e.name.len(), e.date.len()))
    };
    assert_eq!(run(right, 50, 30), Ok((50, 30)));
    assert_eq!(run(right, 0, 0), Ok((0, 0)));
    assert_eq!(run(wrong, 50, 30), Err(Failure::ConstraintSeeds));
    assert_eq!(run(wrong, 51, 31), Err(Failure::Program(EventTicketingError::NameTooLong)));
    assert_eq!(run(wrong, 50, 31), Err(Failure::Program(EventTicketingError::DateTooLong)));
    assert_eq!(run(right, 1000, 0), Err(Failure::Program(EventTicketingError::NameTooLong)));
}

#[test]
fn register_organizer_keeps_the_time() {
    let organizer = key_of(1);
    let registry = organizer_address(&organizer).unwrap();
    assert_eq!(
        register_organizer(&RegisterOrganizer { organizer_registry: registry, organizer }, -12),
        Ok(OrganizerRegistry { organizer, registered_at: -12 })
    );
    assert_eq!(
        register_organizer(
            &RegisterOrganizer { organizer_registry: organizer, organizer },
            1_700_000_000
        ),
        Err(Failure::ConstraintSeeds)
    );
}

#[test]
fn mint_ticket_numbers_tickets_in_order() {
    let (authority, buyer) = (key_of(1), key_of(10));
    let (key, mut event) = event_of(authority);
    let vault = vault_address(&key).unwrap();
    for number in 0..2u32 {
        let ticket = ticket_address(&key, number).unwrap();
        let minted = mint_ticket(&MintTicket { event: key, ticket, vault, buyer }, &mut event);
        assert_eq!(
            minted,
            Ok(Minted {
                ticket: Ticket {
                    owner: buyer,
                    event: key,
                    ticket_id: number,
                    is_used: false,
                    refunded: false,
                },
                payment: Transfer { from: buyer, to: vault, lamports: 1000 },
            })
        );
        assert_eq!(event.sold, number + 1);
    }
    let ticket = ticket_address(&key, 2).unwrap();
    assert_eq!(
        mint_ticket(&MintTicket { event: key, ticket, vault, buyer }, &mut event),
        Err(Failure::Program(EventTicketingError::EventSoldOut))
    );
    assert_eq!(event.sold, 2);
}

#[test]
fn mint_ticket_checks_canceled_then_sold_out_then_addresses() {
    let (authority, buyer) = (key_of(1), key_of(10));
    let (key, mut event) = event_of(authority);
    let vault = vault_address(&key).unwrap();
    let ticket = ticket_address(&key, 0).unwrap();
    let wrong = key_of(77);
    assert_eq!(
        mint_ticket(&MintTicket { event: key, ticket: wrong, vault, buyer }, &mut event),
        Err(Failure::ConstraintSeeds)
    );
    assert_eq!(
        mint_ticket(&MintTicket { event: key, ticket, vault: wrong, buyer }, &mut event),
        Err(Failure::ConstraintSeeds)
    );
    assert_eq!(event.sold, 0);
    event.sold = 2;
    assert_eq!(
        mint_ticket(&MintTicket { event: key, ticket: wrong, vault: wrong, buyer }, &mut event),
        Err(Failure::Program(EventTicketingError::EventSoldOut))
    );
    event.canceled = true;
    assert_eq!(
        mint_ticket(&MintTicket { event: key, ticket: wrong, vault: wrong, buyer }, &mut event),
        Err(Failure::Program(EventTicketingError::EventCanceled))
    );
    event.sold = 0;
    assert_eq!(
        mint_ticket(&MintTicket { event: key, ticket, vault, buyer }, &mut event),
        Err(Failure::Program(EventTicketingError::EventCanceled))
    );
    assert_eq!(event.sold, 0);
}

#[test]
fn mint_ticket_sells_the_last_place_of_the_largest_supply() {
    let (authority, buyer) = (key_of(1), key_of(10));
    let (key, mut event) = event_of(authority);
    event.supply = u32::MAX;
    event.sold = u32::MAX - 1;
    let vault = vault_address(&key).unwrap();
    let ticket = ticket_address(&key, u32::MAX - 1).unwrap();
    let minted = mint_ticket(&MintTicket { event: key, ticket, vault, buyer }, &mut event).unwrap();
    assert_eq!(minted.ticket.ticket_id, u32::MAX - 1);
    assert_eq!(event.sold, u32::MAX);
}

#[test]
fn transfer_ticket_checks_owner_then_used_then_refunded() {
    let (a, b) = (key_of(10), key_of(11));
    let key = key_of(50);
    let by_owner = TransferTicket { ticket: key_of(60), current_owner: a, new_owner: b };
    let by_stranger = TransferTicket { ticket: key_of(60), current_owner: b, new_owner: b };

    let mut ticket = ticket_of(key, a);
    assert_eq!(
        transfer_ticket(&by_stranger, &mut ticket),
        Err(Failure::Program(EventTicketingError::UnauthorizedTransfer))
    );
    assert_eq!(ticket, ticket_of(key, a));
    assert_eq!(transfer_ticket(&by_owner, &mut ticket), Ok(()));
    assert_eq!(ticket, ticket_of(key, b));

    let mut used = Ticket { is_used: true, refunded: true, ..ticket_of(key, a) };
    assert_eq!(
        transfer_ticket(&by_stranger, &mut used),
        Err(Failure::Program(EventTicketingError::UnauthorizedTransfer))
    );
    assert_eq!(
        transfer_ticket(&by_owner, &mut used),
        Err(Failure::Program(EventTicketingError::TicketAlreadyUsed))
    );
    let mut refunded = Ticket { refunded: true, ..ticket_of(key, a) };
    assert_eq!(
        transfer_ticket(&by_owner, &mut refunded),
        Err(Failure::Program(EventTicketingError::AlreadyRefunded))
    );
    assert_eq!(refunded.owner, a);
}

#[test]
fn check_in_checks_event_then_authority_then_used_then_refunded() {
    let (authority, owner, stranger) = (key_of(1), key_of(10), key_of(66));
    let (key, event) = event_of(authority);
    let door = CheckIn { event: key, ticket: key_of(60), event_authority: authority };

    let mut ticket = ticket_of(key, owner);
    assert_eq!(
        check_in(&CheckIn { event_authority: stranger, ..door }, &event, &mut ticket),
        Err(Failure::Program(EventTicketingError::UnauthorizedCheckIn))
    );
    assert_eq!(
        check_in(&CheckIn { event_authority: owner, ..door }, &event, &mut ticket),
        Err(Failure::Program(EventTicketingError::UnauthorizedCheckIn))
    );
    let mut elsewhere = Ticket { is_used: true, ..ticket_of(key_of(51), owner) };
    assert_eq!(
        check_in(&door, &event, &mut elsewhere),
        Err(Failure::Program(EventTicketingError::UnauthorizedCheckIn))
    );
    assert!(!ticket.is_used);
    assert_eq!(check_in(&door, &event, &mut ticket), Ok(()));
    assert_eq!(ticket, Ticket { is_used: true, ..ticket_of(key, owner) });
    assert_eq!(
        check_in(&door, &event, &mut ticket),
        Err(Failure::Program(EventTicketingError::AlreadyCheckedIn))
    );
    assert!(ticket.is_used);
    let mut refunded = Ticket { refunded: true, ..ticket_of(key, owner) };
    assert_eq!(
        check_in(&door, &event, &mut refunded),
        Err(Failure::Program(EventTicketingError::AlreadyRefunded))
    );
    assert!(!refunded.is_used);
}

#[test]
fn refund_pays_the_present_price_to_the_owner() {
    let (authority, owner) = (key_of(1), key_of(10));
    let (key, mut event) = event_of(authority);
    let vault = vault_address(&key).unwrap();
    let back = Refund { event: key, ticket: key_of(60), vault, event_authority: authority };
    event.sold = 1;
    event.price = 750;
    let mut ticket = ticket_of(key, owner);
    assert_eq!(
        refund(&back, &event, &mut ticket),
        Ok(Transfer { from: vault, to: owner, lamports: 750 })
    );
    assert_eq!(ticket, Ticket { refunded: true, ..ticket_of(key, owner) });
    assert_eq!(event.sold, 1);
    assert_eq!(
        refund(&back, &event, &mut ticket),
        Err(Failure::Program(EventTicketingError::AlreadyRefunded))
    );
}

#[test]
fn refund_checks_authority_event_used_refunded_then_vault() {
    let (authority, owner, stranger) = (key_of(1), key_of(10), key_of(66));
    let (key, event) = event_of(authority);
    let vault = vault_address(&key).unwrap();
    let back = Refund { event: key, ticket: key_of(60), vault, event_authority: authority };

    let mut used = Ticket { is_used: true, ..ticket_of(key, owner) };
    assert_eq!(
        refund(&Refund { event_authority: stranger, ..back }, &event, &mut used),
        Err(Failure::ConstraintViolated)
    );
    assert_eq!(
        refund(&back, &event, &mut used),
        Err(Failure::Program(EventTicketingError::CannotRefundUsedTicket))
    );
    assert_eq!(
        refund(&Refund { vault: stranger, ..back }, &event, &mut used),
        Err(Failure::Program(EventTicketingError::CannotRefundUsedTicket))
    );
    assert!(!used.refunded);
    let mut elsewhere = ticket_of(key_of(51), owner);
    assert_eq!(refund(&back, &event, &mut elsewhere), Err(Failure::ConstraintViolated));
    let mut ticket = ticket_of(key, owner);
    assert_eq!(
        refund(&Refund { vault: stranger, ..back }, &event, &mut ticket),
        Err(Failure::ConstraintSeeds)
    );
    assert!(!ticket.refunded);
}

#[test]
fn cancel_event_is_for_the_authority() {
    let (authority, stranger) = (key_of(1), key_of(66));
    let (key, mut event) = event_of(authority);
    assert_eq!(
        cancel_event(&CancelEvent { event: key, event_authority: stranger }, &mut event),
        Err(Failure::ConstraintViolated)
    );
    assert!(!event.canceled);
    let named = CancelEvent { event: key, event_authority: authority };
    assert_eq!(cancel_event(&named, &mut event), Ok(()));
    assert!(event.canceled);
    assert_eq!((event.sold, event.supply, event.price), (0, 2, 1000));
    assert_eq!(event.name, "Gig");
    // Canceling again changes nothing.
    assert_eq!(cancel_event(&named, &mut event), Ok(()));
    assert!(event.canceled);
}

#[test]
fn every_error_has_its_message() {
    let messages = [
        (EventTicketingError::EventAlreadyExists, "Event already exists"),
        (EventTicketingError::EventSoldOut, "Event is sold out"),
        (EventTicketingError::EventCanceled, "Event has been canceled"),
        (EventTicketingError::UnauthorizedTransfer, "Only the ticket owner can transfer"),
        (EventTicketingError::TicketAlreadyUsed, "Cannot transfer a used ticket"),
        (EventTicketingError::AlreadyCheckedIn, "Ticket has already been checked in"),
        (EventTicketingError::UnauthorizedCheckIn, "Only event authority can check in tickets"),
        (EventTicketingError::CannotRefundUsedTicket, "Cannot refund a used ticket"),
        (EventTicketingError::AlreadyRefunded, "Ticket has already been refunded"),
        (EventTicketingError::NameTooLong, "Event name is too long"),
        (EventTicketingError::DateTooLong, "Event date is too long"),
    ];
    for (error, message) in messages {
        assert_eq!(error.message(), message);
    }
}
