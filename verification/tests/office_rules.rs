use stellar_ticket::{Address, Error, StellarTicket, Symbol};

const NOW: u64 = 1_000;

fn address(value: &str) -> Address {
    Address(String::from(value))
}

fn symbol(value: &str) -> Symbol {
    Symbol(String::from(value))
}

fn create(
    office: &mut StellarTicket,
    event_id: &str,
    organizer: &str,
    event_date: u64,
    ticket_price: i128,
    max_tickets: u32,
) -> Result<(), Error> {
    office.create_event(
        NOW,
        symbol(event_id),
        address(organizer),
        String::from("Name"),
        String::from("Description"),
        String::from("Location"),
        event_date,
        ticket_price,
        max_tickets,
    )
}

fn buy(office: &mut StellarTicket, event_id: &str, ticket_id: &str, buyer: &str) -> Result<(), Error> {
    office.buy_ticket(NOW, symbol(event_id), symbol(ticket_id), address(buyer))
}

/// An office with an administrator, one event of two tickets and one ticket
/// of it held by "GUSER".
fn office_with_ticket() -> StellarTicket {
    let mut office = StellarTicket::new();
    office.init_admin(address("GADMIN")).unwrap();
    create(&mut office, "event_1", "GORG", 2_000, 100, 2).unwrap();
    buy(&mut office, "event_1", "ticket_1", "GUSER").unwrap();
    office
}

#[test]
fn error_codes_follow_declaration_order() {
    let all = [
        Error::AlreadyInitialized,
        Error::NotInitialized,
        Error::EventAlreadyExists,
        Error::EventNotFound,
        Error::TicketAlreadyExists,
        Error::TicketNotFound,
        Error::EventInactive,
        Error::EventDateMustBeFuture,
        Error::MaxTicketsMustBePositive,
        Error::TicketPriceMustBeNonNegative,
        Error::SoldOut,
        Error::UserAlreadyHasTicket,
        Error::TicketInvalid,
        Error::TicketAlreadyUsed,
        Error::Unauthorized,
        Error::NotTicketOwner,
    ];
    for (i, e) in all.iter().enumerate() {
        assert_eq!(e.code(), i as u32 + 1);
    }
}

#[test]
fn admin_is_set_only_once() {
    let mut office = StellarTicket::new();
    assert_eq!(office.init_admin(address("GADMIN")), Ok(()));
    assert_eq!(office.init_admin(address("GOTHER")), Err(Error::AlreadyInitialized));
    assert_eq!(office.init_admin(address("GADMIN")), Err(Error::AlreadyInitialized));
    // the first administrator is still the one who may act
    create(&mut office, "event_1", "GORG", 2_000, 0, 1).unwrap();
    assert_eq!(office.cancel_event(symbol("event_1"), address("GOTHER")), Err(Error::Unauthorized));
    assert_eq!(office.cancel_event(symbol("event_1"), address("GADMIN")), Ok(()));
}

#[test]
fn created_event_reads_back_as_given() {
    let mut office = StellarTicket::new();
    create(&mut office, "event_1", "GORG", 5_000, 250, 7).unwrap();
    let event = office.get_event(symbol("event_1")).unwrap();
    assert_eq!(event.organizer, address("GORG"));
    assert_eq!(event.name, "Name");
    assert_eq!(event.description, "Description");
    assert_eq!(event.location, "Location");
    assert_eq!(event.event_date, 5_000);
    assert_eq!(event.ticket_price, 250);
    assert_eq!(event.max_tickets, 7);
    assert_eq!(event.sold_tickets, 0);
    assert!(event.active);
}

#[test]
fn create_event_refusals() {
    let mut office = StellarTicket::new();
    create(&mut office, "event_1", "GORG", 2_000, 100, 2).unwrap();
    assert_eq!(create(&mut office, "event_1", "GORG", 3_000, 1, 1), Err(Error::EventAlreadyExists));
    // the existing event is checked before the date
    assert_eq!(create(&mut office, "event_1", "GORG", 10, 1, 1), Err(Error::EventAlreadyExists));
    assert_eq!(create(&mut office, "event_2", "GORG", NOW, 1, 1), Err(Error::EventDateMustBeFuture));
    assert_eq!(create(&mut office, "event_2", "GORG", 999, 1, 1), Err(Error::EventDateMustBeFuture));
    assert_eq!(create(&mut office, "event_2", "GORG", 1_001, 1, 0), Err(Error::MaxTicketsMustBePositive));
    assert_eq!(
        create(&mut office, "event_2", "GORG", 1_001, -1, 1),
        Err(Error::TicketPriceMustBeNonNegative)
    );
    // the date is checked before the offer, the offer before the price
    assert_eq!(create(&mut office, "event_2", "GORG", 1, -1, 0), Err(Error::EventDateMustBeFuture));
    assert_eq!(create(&mut office, "event_2", "GORG", 1_001, -1, 0), Err(Error::MaxTicketsMustBePositive));
    // a refused event was not recorded; the first event is unchanged
    assert_eq!(office.get_event(symbol("event_2")), Err(Error::EventNotFound));
    assert_eq!(office.get_event(symbol("event_1")).unwrap().event_date, 2_000);
    // a free event is accepted
    assert_eq!(create(&mut office, "event_2", "GORG", 1_001, 0, 1), Ok(()));
}

#[test]
fn bought_ticket_reads_back_and_admits() {
    let office = office_with_ticket();
    let ticket = office.get_ticket(symbol("ticket_1")).unwrap();
    assert_eq!(ticket.ticket_id, symbol("ticket_1"));
    assert_eq!(ticket.event_id, symbol("event_1"));
    assert_eq!(ticket.owner, address("GUSER"));
    assert_eq!(ticket.issued_at, NOW);
    assert!(ticket.valid);
    assert!(!ticket.used);
    assert!(office.verify_ticket(symbol("ticket_1")));
    assert_eq!(office.get_event(symbol("event_1")).unwrap().sold_tickets, 1);
}

#[test]
fn buy_ticket_refusals_leave_records_unchanged() {
    let mut office = office_with_ticket();
    assert_eq!(buy(&mut office, "event_9", "ticket_2", "GOTHER"), Err(Error::EventNotFound));
    assert_eq!(buy(&mut office, "event_1", "ticket_1", "GOTHER"), Err(Error::TicketAlreadyExists));
    assert_eq!(buy(&mut office, "event_1", "ticket_2", "GUSER"), Err(Error::UserAlreadyHasTicket));
    assert_eq!(office.get_event(symbol("event_1")).unwrap().sold_tickets, 1);
    assert_eq!(office.get_ticket(symbol("ticket_2")), Err(Error::TicketNotFound));
    assert_eq!(office.get_ticket(symbol("ticket_1")).unwrap().owner, address("GUSER"));
}

#[test]
fn sold_out_is_checked_before_the_ticket_name() {
    let mut office = office_with_ticket();
    buy(&mut office, "event_1", "ticket_2", "GUSER2").unwrap();
    assert_eq!(office.get_event(symbol("event_1")).unwrap().sold_tickets, 2);
    assert_eq!(buy(&mut office, "event_1", "ticket_1", "GUSER3"), Err(Error::SoldOut));
    assert_eq!(buy(&mut office, "event_1", "ticket_3", "GUSER"), Err(Error::SoldOut));
    assert_eq!(office.get_event(symbol("event_1")).unwrap().sold_tickets, 2);
}

#[test]
fn ticket_names_are_shared_across_events() {
    let mut office = office_with_ticket();
    create(&mut office, "event_2", "GORG", 2_000, 100, 2).unwrap();
    assert_eq!(buy(&mut office, "event_2", "ticket_1", "GOTHER"), Err(Error::TicketAlreadyExists));
    // one ticket per account and event, not per account
    assert_eq!(buy(&mut office, "event_2", "ticket_2", "GUSER"), Ok(()));
}

#[test]
fn check_in_by_organizer_or_admin() {
    let mut office = office_with_ticket();
    buy(&mut office, "event_1", "ticket_2", "GUSER2").unwrap();
    assert_eq!(office.use_ticket(symbol("ticket_1"), address("GORG")), Ok(()));
    assert_eq!(office.use_ticket(symbol("ticket_2"), address("GADMIN")), Ok(()));
    assert!(office.get_ticket(symbol("ticket_2")).unwrap().used);
}

#[test]
fn check_in_refusals() {
    let mut office = office_with_ticket();
    assert_eq!(office.use_ticket(symbol("ticket_9"), address("GORG")), Err(Error::TicketNotFound));
    assert_eq!(office.use_ticket(symbol("ticket_1"), address("GUSER")), Err(Error::Unauthorized));
    assert!(!office.get_ticket(symbol("ticket_1")).unwrap().used);
    assert_eq!(office.use_ticket(symbol("ticket_1"), address("GORG")), Ok(()));
    assert_eq!(office.use_ticket(symbol("ticket_1"), address("GORG")), Err(Error::TicketAlreadyUsed));
}

#[test]
fn without_admin_only_the_organizer_may_act() {
    let mut office = StellarTicket::new();
    create(&mut office, "event_1", "GORG", 2_000, 100, 2).unwrap();
    buy(&mut office, "event_1", "ticket_1", "GUSER").unwrap();
    assert_eq!(office.use_ticket(symbol("ticket_1"), address("GUSER")), Err(Error::NotInitialized));
    assert_eq!(office.cancel_event(symbol("event_1"), address("GUSER")), Err(Error::NotInitialized));
    assert_eq!(office.use_ticket(symbol("ticket_1"), address("GORG")), Ok(()));
}

#[test]
fn canceled_event_admits_nobody() {
    let mut office = office_with_ticket();
    assert_eq!(office.cancel_event(symbol("event_9"), address("GORG")), Err(Error::EventNotFound));
    assert_eq!(office.cancel_event(symbol("event_1"), address("GUSER")), Err(Error::Unauthorized));
    assert!(office.get_event(symbol("event_1")).unwrap().active);
    assert_eq!(office.cancel_event(symbol("event_1"), address("GADMIN")), Ok(()));
    assert!(!office.get_event(symbol("event_1")).unwrap().active);
    assert!(!office.verify_ticket(symbol("ticket_1")));
    assert_eq!(buy(&mut office, "event_1", "ticket_2", "GUSER2"), Err(Error::EventInactive));
    assert_eq!(office.use_ticket(symbol("ticket_1"), address("GORG")), Err(Error::EventInactive));
    // canceling twice is accepted
    assert_eq!(office.cancel_event(symbol("event_1"), address("GORG")), Ok(()));
    // a ticket of a canceled event can still be passed on
    assert_eq!(
        office.transfer_ticket(symbol("ticket_1"), address("GUSER"), address("GUSER2")),
        Ok(())
    );
}

#[test]
fn transfer_moves_the_ticket() {
    let mut office = office_with_ticket();
    assert_eq!(
        office.transfer_ticket(symbol("ticket_1"), address("GUSER"), address("GFRIEND")),
        Ok(())
    );
    let ticket = office.get_ticket(symbol("ticket_1")).unwrap();
    assert_eq!(ticket.owner, address("GFRIEND"));
    assert_eq!(ticket.issued_at, NOW);
    assert!(office.verify_ticket(symbol("ticket_1")));
    // the receiver now holds a ticket for the event and cannot buy another
    assert_eq!(buy(&mut office, "event_1", "ticket_2", "GFRIEND"), Err(Error::UserAlreadyHasTicket));
    // the former owner holds nothing for the event any more and may buy again
    assert_eq!(buy(&mut office, "event_1", "ticket_2", "GUSER"), Ok(()));
    assert_eq!(office.get_event(symbol("event_1")).unwrap().sold_tickets, 2);
}

#[test]
fn transfer_refusals() {
    let mut office = office_with_ticket();
    buy(&mut office, "event_1", "ticket_2", "GUSER2").unwrap();
    assert_eq!(
        office.transfer_ticket(symbol("ticket_9"), address("GUSER"), address("GX")),
        Err(Error::TicketNotFound)
    );
    assert_eq!(
        office.transfer_ticket(symbol("ticket_1"), address("GUSER2"), address("GX")),
        Err(Error::NotTicketOwner)
    );
    assert_eq!(
        office.transfer_ticket(symbol("ticket_1"), address("GUSER"), address("GUSER2")),
        Err(Error::UserAlreadyHasTicket)
    );
    assert_eq!(
        office.transfer_ticket(symbol("ticket_1"), address("GUSER"), address("GUSER")),
        Err(Error::UserAlreadyHasTicket)
    );
    assert_eq!(office.get_ticket(symbol("ticket_1")).unwrap().owner, address("GUSER"));
    office.use_ticket(symbol("ticket_1"), address("GORG")).unwrap();
    // ownership is checked before use
    assert_eq!(
        office.transfer_ticket(symbol("ticket_1"), address("GX"), address("GY")),
        Err(Error::NotTicketOwner)
    );
    assert_eq!(
        office.transfer_ticket(symbol("ticket_1"), address("GUSER"), address("GY")),
        Err(Error::TicketAlreadyUsed)
    );
}

#[test]
fn verify_unknown_ticket_is_false() {
    let office = office_with_ticket();
    assert!(!office.verify_ticket(symbol("ticket_9")));
    assert!(!StellarTicket::new().verify_ticket(symbol("ticket_1")));
}

#[test]
fn records_restore_the_office() {
    let event = |sold: u32| stellar_ticket::Event {
        organizer: address("GORG"),
        name: String::from("Name"),
        description: String::from("Description"),
        location: String::from("Location"),
        event_date: 2_000,
        ticket_price: 5,
        max_tickets: 3,
        sold_tickets: sold,
        active: true,
    };
    let ticket = stellar_ticket::Ticket {
        ticket_id: symbol("ticket_1"),
        event_id: symbol("event_1"),
        owner: address("GUSER"),
        issued_at: 900,
        used: false,
        valid: true,
    };
    let mut office = StellarTicket::from_records(
        Some(address("GADMIN")),
        vec![(symbol("event_1"), event(0)), (symbol("event_1"), event(1))],
        vec![(symbol("ticket_1"), ticket)],
        vec![(
            stellar_ticket::Holder { holder: address("GUSER"), event_id: symbol("event_1") },
            symbol("ticket_1"),
        )],
    );
    // the last record of a key counts
    assert_eq!(office.get_event(symbol("event_1")).unwrap().sold_tickets, 1);
    assert_eq!(office.admin(), Some(address("GADMIN")));
    assert_eq!(
        office.holding(&stellar_ticket::Holder { holder: address("GUSER"), event_id: symbol("event_1") }),
        Some(symbol("ticket_1"))
    );
    assert_eq!(
        office.holding(&stellar_ticket::Holder { holder: address("GX"), event_id: symbol("event_1") }),
        None
    );
    assert!(office.verify_ticket(symbol("ticket_1")));
    assert_eq!(buy(&mut office, "event_1", "ticket_2", "GUSER"), Err(Error::UserAlreadyHasTicket));
    office
        .transfer_ticket(symbol("ticket_1"), address("GUSER"), address("GFRIEND"))
        .unwrap();
    assert_eq!(
        office.holding(&stellar_ticket::Holder { holder: address("GUSER"), event_id: symbol("event_1") }),
        None
    );
    assert_eq!(StellarTicket::new().admin(), None);
}


#[test]
fn canceled_event_stays_canceled_through_later_requests() {
    let mut office = office_with_ticket();
    office.cancel_event(symbol("event_1"), address("GORG")).unwrap();
    create(&mut office, "event_2", "GORG", 3_000, 1, 5).unwrap();
    buy(&mut office, "event_2", "ticket_2", "GUSER").unwrap();
    office
        .transfer_ticket(symbol("ticket_1"), address("GUSER"), address("GFRIEND"))
        .unwrap();
    assert_eq!(office.use_ticket(symbol("ticket_1"), address("GADMIN")), Err(Error::EventInactive));
    assert_eq!(create(&mut office, "event_1", "GORG", 3_000, 1, 5), Err(Error::EventAlreadyExists));
    assert_eq!(buy(&mut office, "event_1", "ticket_3", "GOTHER"), Err(Error::EventInactive));
    let event = office.get_event(symbol("event_1")).unwrap();
    assert!(!event.active);
    assert_eq!(event.sold_tickets, 1);
    assert!(!office.verify_ticket(symbol("ticket_1")));
    assert!(office.verify_ticket(symbol("ticket_2")));
}

#[test]
fn used_ticket_stays_used_through_later_requests() {
    let mut office = office_with_ticket();
    office.use_ticket(symbol("ticket_1"), address("GORG")).unwrap();
    buy(&mut office, "event_1", "ticket_2", "GUSER2").unwrap();
    office
        .transfer_ticket(symbol("ticket_2"), address("GUSER2"), address("GUSER3"))
        .unwrap();
    office.cancel_event(symbol("event_1"), address("GORG")).unwrap();
    let ticket = office.get_ticket(symbol("ticket_1")).unwrap();
    assert!(ticket.used);
    assert_eq!(ticket.owner, address("GUSER"));
    assert!(!office.verify_ticket(symbol("ticket_1")));
    assert_eq!(office.use_ticket(symbol("ticket_1"), address("GADMIN")), Err(Error::TicketAlreadyUsed));
    assert_eq!(
        office.transfer_ticket(symbol("ticket_1"), address("GUSER"), address("GX")),
        Err(Error::TicketAlreadyUsed)
    );
}

#[test]
fn partial_records_answer_like_the_full_office() {
    // the full office, with a second event that the purchase does not read
    let mut full = office_with_ticket();
    create(&mut full, "event_2", "GORG", 2_000, 100, 2).unwrap();
    // an office restored from only the records a purchase on event_1 reads
    let mut part = StellarTicket::from_records(
        None,
        vec![(symbol("event_1"), full.get_event(symbol("event_1")).unwrap())],
        vec![],
        vec![],
    );
    for (ticket_id, buyer) in [("ticket_1", "GOTHER"), ("ticket_2", "GUSER2"), ("ticket_3", "GUSER3")] {
        let a = buy(&mut full, "event_1", ticket_id, buyer);
        if ticket_id == "ticket_1" {
            // the partial office lacks ticket_1, so it is not asked about it
            assert_eq!(a, Err(Error::TicketAlreadyExists));
            continue;
        }
        let b = buy(&mut part, "event_1", ticket_id, buyer);
        assert_eq!(a, b);
        assert_eq!(
            full.get_event(symbol("event_1")).unwrap().active,
            part.get_event(symbol("event_1")).unwrap().active
        );
        assert_eq!(full.get_ticket(symbol(ticket_id)).ok(), part.get_ticket(symbol(ticket_id)).ok());
    }
    // the second event, outside every purchase, is untouched
    assert_eq!(full.get_event(symbol("event_2")).unwrap().sold_tickets, 0);
}

#[test]
fn transfer_there_and_back_restores_the_records() {
    let mut office = office_with_ticket();
    let before = office.get_ticket(symbol("ticket_1")).unwrap();
    office
        .transfer_ticket(symbol("ticket_1"), address("GUSER"), address("GFRIEND"))
        .unwrap();
    office
        .transfer_ticket(symbol("ticket_1"), address("GFRIEND"), address("GUSER"))
        .unwrap();
    assert_eq!(office.get_ticket(symbol("ticket_1")).unwrap(), before);
    let user = stellar_ticket::Holder { holder: address("GUSER"), event_id: symbol("event_1") };
    let friend = stellar_ticket::Holder { holder: address("GFRIEND"), event_id: symbol("event_1") };
    assert_eq!(office.holding(&user), Some(symbol("ticket_1")));
    assert_eq!(office.holding(&friend), None);
    assert_eq!(office.get_event(symbol("event_1")).unwrap().sold_tickets, 1);
    assert_eq!(office.admin(), Some(address("GADMIN")));
}
