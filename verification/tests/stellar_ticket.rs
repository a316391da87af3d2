use stellar_ticket::{Address, Error, StellarTicket, Symbol};

const NOW: u64 = 1_000;

struct Fixture {
    office: StellarTicket,
    admin: Address,
    organizer: Address,
    user: Address,
}

fn address(value: &str) -> Address {
    Address(String::from(value))
}

fn symbol(value: &str) -> Symbol {
    Symbol(String::from(value))
}

fn setup() -> Fixture {
    Fixture {
        office: StellarTicket::new(),
        admin: address("GADMIN"),
        organizer: address("GORGANIZER"),
        user: address("GUSER"),
    }
}

fn create_sample_event(office: &mut StellarTicket, organizer: &Address) -> Symbol {
    let event_id = symbol("event_1");
    office
        .create_event(
            NOW,
            event_id.clone(),
            organizer.clone(),
            String::from("Stellar Dev Night"),
            String::from("A community event for Soroban builders"),
            String::from("Jakarta"),
            2_000,
            100,
            2,
        )
        .unwrap();
    event_id
}

#[test]
fn init_admin_succeeds() {
    let mut fixture = setup();
    fixture.office.init_admin(fixture.admin.clone()).unwrap();
}

#[test]
fn create_event_succeeds() {
    let mut fixture = setup();
    let event_id = create_sample_event(&mut fixture.office, &fixture.organizer);

    let event = fixture.office.get_event(event_id).unwrap();

    assert_eq!(event.organizer, fixture.organizer);
    assert_eq!(event.sold_tickets, 0);
    assert_eq!(event.max_tickets, 2);
    assert!(event.active);
}

#[test]
fn user_buy_ticket_succeeds() {
    let mut fixture = setup();
    let event_id = create_sample_event(&mut fixture.office, &fixture.organizer);
    let ticket_id = symbol("ticket_1");

    fixture
        .office
        .buy_ticket(NOW, event_id.clone(), ticket_id.clone(), fixture.user.clone())
        .unwrap();

    let ticket = fixture.office.get_ticket(ticket_id).unwrap();
    let event = fixture.office.get_event(event_id.clone()).unwrap();

    assert_eq!(ticket.owner, fixture.user);
    assert_eq!(ticket.event_id, event_id);
    assert!(!ticket.used);
    assert!(ticket.valid);
    assert_eq!(ticket.issued_at, 1_000);
    assert_eq!(event.sold_tickets, 1);
}

#[test]
fn user_cannot_buy_two_tickets_for_same_event() {
    let mut fixture = setup();
    let event_id = create_sample_event(&mut fixture.office, &fixture.organizer);

    fixture
        .office
        .buy_ticket(NOW, event_id.clone(), symbol("ticket_1"), fixture.user.clone())
        .unwrap();
    let err = fixture
        .office
        .buy_ticket(NOW, event_id, symbol("ticket_2"), fixture.user.clone())
        .unwrap_err();
    assert_eq!(err.code(), 12);
    assert_eq!(err, Error::UserAlreadyHasTicket);
}

#[test]
fn cannot_buy_ticket_when_sold_out() {
    let mut fixture = setup();
    let event_id = create_sample_event(&mut fixture.office, &fixture.organizer);
    let user_2 = address("GUSER2");
    let user_3 = address("GUSER3");

    fixture
        .office
        .buy_ticket(NOW, event_id.clone(), symbol("ticket_1"), fixture.user.clone())
        .unwrap();
    fixture
        .office
        .buy_ticket(NOW, event_id.clone(), symbol("ticket_2"), user_2)
        .unwrap();
    let err = fixture
        .office
        .buy_ticket(NOW, event_id, symbol("ticket_3"), user_3)
        .unwrap_err();
    assert_eq!(err.code(), 11);
    assert_eq!(err, Error::SoldOut);
}

#[test]
fn verify_ticket_true_before_used() {
    let mut fixture = setup();
    let event_id = create_sample_event(&mut fixture.office, &fixture.organizer);
    let ticket_id = symbol("ticket_1");

    fixture
        .office
        .buy_ticket(NOW, event_id, ticket_id.clone(), fixture.user.clone())
        .unwrap();

    assert!(fixture.office.verify_ticket(ticket_id));
}

#[test]
fn use_ticket_marks_ticket_used() {
    let mut fixture = setup();
    fixture.office.init_admin(fixture.admin.clone()).unwrap();
    let event_id = create_sample_event(&mut fixture.office, &fixture.organizer);
    let ticket_id = symbol("ticket_1");

    fixture
        .office
        .buy_ticket(NOW, event_id, ticket_id.clone(), fixture.user.clone())
        .unwrap();
    fixture
        .office
        .use_ticket(ticket_id.clone(), fixture.organizer.clone())
        .unwrap();

    let ticket = fixture.office.get_ticket(ticket_id).unwrap();
    assert!(ticket.used);
}

#[test]
fn verify_ticket_false_after_used() {
    let mut fixture = setup();
    fixture.office.init_admin(fixture.admin.clone()).unwrap();
    let event_id = create_sample_event(&mut fixture.office, &fixture.organizer);
    let ticket_id = symbol("ticket_1");

    fixture
        .office
        .buy_ticket(NOW, event_id, ticket_id.clone(), fixture.user.clone())
        .unwrap();
    fixture
        .office
        .use_ticket(ticket_id.clone(), fixture.organizer.clone())
        .unwrap();

    assert!(!fixture.office.verify_ticket(ticket_id));
}

#[test]
fn non_organizer_cannot_use_ticket() {
    let mut fixture = setup();
    fixture.office.init_admin(fixture.admin.clone()).unwrap();
    let event_id = create_sample_event(&mut fixture.office, &fixture.organizer);
    let ticket_id = symbol("ticket_1");
    let stranger = address("GSTRANGER");

    fixture
        .office
        .buy_ticket(NOW, event_id, ticket_id.clone(), fixture.user.clone())
        .unwrap();
    let err = fixture.office.use_ticket(ticket_id, stranger).unwrap_err();
    assert_eq!(err.code(), 15);
    assert_eq!(err, Error::Unauthorized);
}

#[test]
fn transfer_ticket_succeeds() {
    let mut fixture = setup();
    let event_id = create_sample_event(&mut fixture.office, &fixture.organizer);
    let ticket_id = symbol("ticket_1");
    let receiver = address("GRECEIVER");

    fixture
        .office
        .buy_ticket(NOW, event_id, ticket_id.clone(), fixture.user.clone())
        .unwrap();
    fixture
        .office
        .transfer_ticket(ticket_id.clone(), fixture.user.clone(), receiver.clone())
        .unwrap();

    let ticket = fixture.office.get_ticket(ticket_id).unwrap();
    assert_eq!(ticket.owner, receiver);
}

#[test]
fn used_ticket_cannot_be_transferred() {
    let mut fixture = setup();
    fixture.office.init_admin(fixture.admin.clone()).unwrap();
    let event_id = create_sample_event(&mut fixture.office, &fixture.organizer);
    let ticket_id = symbol("ticket_1");
    let receiver = address("GRECEIVER");

    fixture
        .office
        .buy_ticket(NOW, event_id, ticket_id.clone(), fixture.user.clone())
        .unwrap();
    fixture
        .office
        .use_ticket(ticket_id.clone(), fixture.organizer.clone())
        .unwrap();
    let err = fixture
        .office
        .transfer_ticket(ticket_id, fixture.user.clone(), receiver)
        .unwrap_err();
    assert_eq!(err.code(), 14);
    assert_eq!(err, Error::TicketAlreadyUsed);
}

#[test]
fn cancel_event_makes_event_inactive() {
    let mut fixture = setup();
    fixture.office.init_admin(fixture.admin.clone()).unwrap();
    let event_id = create_sample_event(&mut fixture.office, &fixture.organizer);

    fixture
        .office
        .cancel_event(event_id.clone(), fixture.organizer.clone())
        .unwrap();

    let event = fixture.office.get_event(event_id).unwrap();
    assert!(!event.active);
}
