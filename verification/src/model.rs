//! The ticket office as a state machine: its state, and for each request
//! the state that follows and the answer given.

use vstd::prelude::*;

use crate::error::Error;
use crate::types::{Address, Event, Symbol, Ticket};

verus! {

/// Everything the office has recorded.
pub struct TicketingState {
    /// The administrator, once one was set.
    pub admin: Option<Address>,
    /// The events, by the name of the event.
    pub events: Map<Seq<char>, Event>,
    /// The tickets, by the name of the ticket.
    pub tickets: Map<Seq<char>, Ticket>,
    /// For an account and an event, the name of the ticket the account
    /// holds for that event.
    pub holdings: Map<(Seq<char>, Seq<char>), Seq<char>>,
}

impl TicketingState {
    /// The state of an office that has recorded nothing yet.
    pub open spec fn empty() -> TicketingState {
        TicketingState {
            admin: None,
            events: Map::empty(),
            tickets: Map::empty(),
            holdings: Map::empty(),
        }
    }

    /// The tickets recorded for the event named `event_id`.
    pub open spec fn tickets_of(self, event_id: Seq<char>) -> Set<Seq<char>> {
        self.tickets.dom().filter(|t: Seq<char>| self.tickets[t].event_id@ == event_id)
    }

    /// Each ticket is stored under its own name.
    pub open spec fn ids_match(self) -> bool {
        forall|t: Seq<char>| #[trigger]
            self.tickets.contains_key(t) ==> self.tickets[t].ticket_id@ == t
    }

    /// Each ticket names an event that exists.
    pub open spec fn tickets_name_events(self) -> bool {
        forall|t: Seq<char>| #[trigger]
            self.tickets.contains_key(t) ==> self.events.contains_key(self.tickets[t].event_id@)
    }

    /// Each ticket is valid.
    pub open spec fn tickets_valid(self) -> bool {
        forall|t: Seq<char>| #[trigger] self.tickets.contains_key(t) ==> self.tickets[t].valid
    }

    /// The holdings are exact: an account holds, for an event, the ticket
    /// named `t` exactly when the ticket `t` exists, belongs to that account
    /// and is for that event. Stated as the two directions below; the
    /// requests keep it together with [`Self::ids_match`], because a
    /// transfer records the holding under the name the ticket carries.
    pub open spec fn holdings_match_owners(self) -> bool {
        &&& forall|t: Seq<char>| #[trigger]
            self.tickets.contains_key(t) ==> {
                &&& self.holdings.contains_key((self.tickets[t].owner@, self.tickets[t].event_id@))
                &&& self.holdings[(self.tickets[t].owner@, self.tickets[t].event_id@)] == t
            }
        &&& forall|h: (Seq<char>, Seq<char>)| #[trigger]
            self.holdings.contains_key(h) ==> {
                &&& self.tickets.contains_key(self.holdings[h])
                &&& self.tickets[self.holdings[h]].owner@ == h.0
                &&& self.tickets[self.holdings[h]].event_id@ == h.1
            }
    }

    /// No event has sold more tickets than it offers.
    pub open spec fn never_oversold(self) -> bool {
        forall|e: Seq<char>| #[trigger]
            self.events.contains_key(e) ==> self.events[e].sold_tickets
                <= self.events[e].max_tickets
    }

    /// Each event has sold exactly the tickets recorded for it.
    pub open spec fn sold_counts_match(self) -> bool {
        forall|e: Seq<char>| #[trigger]
            self.events.contains_key(e) ==> self.events[e].sold_tickets == self.tickets_of(e).len()
    }

    /// The sold counts are exact: the tickets are finitely many, each names
    /// an event that exists, and each event has sold exactly the tickets
    /// recorded for it.
    pub open spec fn counts_exact(self) -> bool {
        &&& self.tickets.dom().finite()
        &&& self.tickets_name_events()
        &&& self.sold_counts_match()
    }

    /// The holdings are exact, and each ticket is stored under its own name.
    pub open spec fn holdings_exact(self) -> bool {
        &&& self.ids_match()
        &&& self.holdings_match_owners()
    }

    /// What every state the office reaches satisfies.
    pub open spec fn consistent(self) -> bool {
        &&& self.counts_exact()
        &&& self.holdings_exact()
        &&& self.tickets_valid()
        &&& self.never_oversold()
    }
}

/// `init_admin`: the administrator is set once.
pub open spec fn init_admin_step(s: TicketingState, admin: Address) -> (
    TicketingState,
    Result<(), Error>,
) {
    if s.admin is Some {
        (s, Err(Error::AlreadyInitialized))
    } else {
        (TicketingState { admin: Some(admin), ..s }, Ok(()))
    }
}

/// The event that `create_event` records.
pub open spec fn new_event(
    organizer: Address,
    name: String,
    description: String,
    location: String,
    event_date: u64,
    ticket_price: i128,
    max_tickets: u32,
) -> Event {
    Event {
        organizer,
        name,
        description,
        location,
        event_date,
        ticket_price,
        max_tickets,
        sold_tickets: 0,
        active: true,
    }
}

/// `create_event` at time `now`: a new, active event with no ticket sold,
/// dated after `now`, offering at least one ticket at a price that is not
/// negative.
pub open spec fn create_event_step(
    s: TicketingState,
    now: u64,
    event_id: Symbol,
    organizer: Address,
    name: String,
    description: String,
    location: String,
    event_date: u64,
    ticket_price: i128,
    max_tickets: u32,
) -> (TicketingState, Result<(), Error>) {
    if s.events.contains_key(event_id@) {
        (s, Err(Error::EventAlreadyExists))
    } else if event_date <= now {
        (s, Err(Error::EventDateMustBeFuture))
    } else if max_tickets == 0 {
        (s, Err(Error::MaxTicketsMustBePositive))
    } else if ticket_price < 0 {
        (s, Err(Error::TicketPriceMustBeNonNegative))
    } else {
        let event = new_event(
            organizer,
            name,
            description,
            location,
            event_date,
            ticket_price,
            max_tickets,
        );
        (TicketingState { events: s.events.insert(event_id@, event), ..s }, Ok(()))
    }
}

/// The ticket that `buy_ticket` issues at time `now`.
pub open spec fn new_ticket(ticket_id: Symbol, event_id: Symbol, buyer: Address, now: u64) -> Ticket {
    Ticket { ticket_id, event_id, owner: buyer, issued_at: now, used: false, valid: true }
}

/// `buy_ticket` at time `now`: one valid ticket of an active event that is
/// not sold out, under a new name, to an account that holds no ticket for
/// that event yet.
pub open spec fn buy_ticket_step(
    s: TicketingState,
    now: u64,
    event_id: Symbol,
    ticket_id: Symbol,
    buyer: Address,
) -> (TicketingState, Result<(), Error>) {
    if !s.events.contains_key(event_id@) {
        (s, Err(Error::EventNotFound))
    } else {
        let event = s.events[event_id@];
        if !event.active {
            (s, Err(Error::EventInactive))
        } else if event.sold_tickets >= event.max_tickets {
            (s, Err(Error::SoldOut))
        } else if s.tickets.contains_key(ticket_id@) {
            (s, Err(Error::TicketAlreadyExists))
        } else if s.holdings.contains_key((buyer@, event_id@)) {
            (s, Err(Error::UserAlreadyHasTicket))
        } else {
            let sold = Event { sold_tickets: (event.sold_tickets + 1) as u32, ..event };
            (
                TicketingState {
                    events: s.events.insert(event_id@, sold),
                    tickets: s.tickets.insert(ticket_id@, new_ticket(ticket_id, event_id, buyer, now)),
                    holdings: s.holdings.insert((buyer@, event_id@), ticket_id@),
                    ..s
                },
                Ok(()),
            )
        }
    }
}

/// `get_event`: the event recorded under `event_id`.
pub open spec fn event_lookup(s: TicketingState, event_id: Seq<char>) -> Result<Event, Error> {
    if s.events.contains_key(event_id) {
        Ok(s.events[event_id])
    } else {
        Err(Error::EventNotFound)
    }
}

/// `get_ticket`: the ticket recorded under `ticket_id`.
pub open spec fn ticket_lookup(s: TicketingState, ticket_id: Seq<char>) -> Result<Ticket, Error> {
    if s.tickets.contains_key(ticket_id) {
        Ok(s.tickets[ticket_id])
    } else {
        Err(Error::TicketNotFound)
    }
}

/// `verify_ticket`: the ticket exists, is valid and unused, and its event
/// exists and is active.
pub open spec fn ticket_admits(s: TicketingState, ticket_id: Seq<char>) -> bool {
    &&& s.tickets.contains_key(ticket_id)
    &&& s.tickets[ticket_id].valid
    &&& !s.tickets[ticket_id].used
    &&& s.events.contains_key(s.tickets[ticket_id].event_id@)
    &&& s.events[s.tickets[ticket_id].event_id@].active
}

/// Whether `caller` may act for an event of `organizer`: the organizer
/// may, and so may the administrator.
pub open spec fn organizer_or_admin(s: TicketingState, caller: Address, organizer: Address) -> Result<
    (),
    Error,
> {
    if caller@ == organizer@ {
        Ok(())
    } else {
        match s.admin {
            None => Err(Error::NotInitialized),
            Some(admin) => if caller@ == admin@ {
                Ok(())
            } else {
                Err(Error::Unauthorized)
            },
        }
    }
}

/// `use_ticket`: a valid, unused ticket of an active event is marked used,
/// when the checker is the event's organizer or the administrator.
pub open spec fn use_ticket_step(s: TicketingState, ticket_id: Symbol, checker: Address) -> (
    TicketingState,
    Result<(), Error>,
) {
    if !s.tickets.contains_key(ticket_id@) {
        (s, Err(Error::TicketNotFound))
    } else {
        let ticket = s.tickets[ticket_id@];
        if !ticket.valid {
            (s, Err(Error::TicketInvalid))
        } else if ticket.used {
            (s, Err(Error::TicketAlreadyUsed))
        } else if !s.events.contains_key(ticket.event_id@) {
            (s, Err(Error::EventNotFound))
        } else {
            let event = s.events[ticket.event_id@];
            if !event.active {
                (s, Err(Error::EventInactive))
            } else {
                match organizer_or_admin(s, checker, event.organizer) {
                    Err(e) => (s, Err(e)),
                    Ok(()) => (
                        TicketingState {
                            tickets: s.tickets.insert(ticket_id@, Ticket { used: true, ..ticket }),
                            ..s
                        },
                        Ok(()),
                    ),
                }
            }
        }
    }
}

/// `transfer_ticket`: the owner of an unused, valid ticket passes it to an
/// account that holds no ticket for that event yet.
pub open spec fn transfer_ticket_step(
    s: TicketingState,
    ticket_id: Symbol,
    from: Address,
    to: Address,
) -> (TicketingState, Result<(), Error>) {
    if !s.tickets.contains_key(ticket_id@) {
        (s, Err(Error::TicketNotFound))
    } else {
        let ticket = s.tickets[ticket_id@];
        if ticket.owner@ != from@ {
            (s, Err(Error::NotTicketOwner))
        } else if ticket.used {
            (s, Err(Error::TicketAlreadyUsed))
        } else if !ticket.valid {
            (s, Err(Error::TicketInvalid))
        } else if s.holdings.contains_key((to@, ticket.event_id@)) {
            (s, Err(Error::UserAlreadyHasTicket))
        } else {
            (
                TicketingState {
                    tickets: s.tickets.insert(ticket_id@, Ticket { owner: to, ..ticket }),
                    holdings: s.holdings.remove((from@, ticket.event_id@)).insert(
                        (to@, ticket.event_id@),
                        ticket.ticket_id@,
                    ),
                    ..s
                },
                Ok(()),
            )
        }
    }
}

/// `cancel_event`: the event becomes inactive, when the caller is its
/// organizer or the administrator.
pub open spec fn cancel_event_step(s: TicketingState, event_id: Symbol, organizer: Address) -> (
    TicketingState,
    Result<(), Error>,
) {
    if !s.events.contains_key(event_id@) {
        (s, Err(Error::EventNotFound))
    } else {
        let event = s.events[event_id@];
        match organizer_or_admin(s, organizer, event.organizer) {
            Err(e) => (s, Err(e)),
            Ok(()) => (
                TicketingState {
                    events: s.events.insert(event_id@, Event { active: false, ..event }),
                    ..s
                },
                Ok(()),
            ),
        }
    }
}

/// A request to the office, with what the request carries.
pub enum Request {
    InitAdmin { admin: Address },
    CreateEvent {
        now: u64,
        event_id: Symbol,
        organizer: Address,
        name: String,
        description: String,
        location: String,
        event_date: u64,
        ticket_price: i128,
        max_tickets: u32,
    },
    BuyTicket { now: u64, event_id: Symbol, ticket_id: Symbol, buyer: Address },
    UseTicket { ticket_id: Symbol, checker: Address },
    TransferTicket { ticket_id: Symbol, from: Address, to: Address },
    CancelEvent { event_id: Symbol, organizer: Address },
}

/// The state after the office answers `r` in state `s`.
pub open spec fn apply(s: TicketingState, r: Request) -> TicketingState {
    match r {
        Request::InitAdmin { admin } => init_admin_step(s, admin).0,
        Request::CreateEvent {
            now,
            event_id,
            organizer,
            name,
            description,
            location,
            event_date,
            ticket_price,
            max_tickets,
        } => create_event_step(
            s,
            now,
            event_id,
            organizer,
            name,
            description,
            location,
            event_date,
            ticket_price,
            max_tickets,
        ).0,
        Request::BuyTicket { now, event_id, ticket_id, buyer } => buy_ticket_step(
            s,
            now,
            event_id,
            ticket_id,
            buyer,
        ).0,
        Request::UseTicket { ticket_id, checker } => use_ticket_step(s, ticket_id, checker).0,
        Request::TransferTicket { ticket_id, from, to } => transfer_ticket_step(
            s,
            ticket_id,
            from,
            to,
        ).0,
        Request::CancelEvent { event_id, organizer } => cancel_event_step(s, event_id, organizer).0,
    }
}

/// The state after the office answers the requests `rs` in turn, from `s`.
pub open spec fn run(s: TicketingState, rs: Seq<Request>) -> TicketingState
    decreases rs.len(),
{
    if rs.len() == 0 {
        s
    } else {
        run(apply(s, rs[0]), rs.drop_first())
    }
}

} // verus!
