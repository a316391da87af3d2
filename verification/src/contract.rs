//! The ticket office itself: the records it keeps and the requests it
//! answers. Each request is answered exactly as its step in
//! [`crate::model`] says, and a refused request changes nothing.

use vstd::prelude::*;

use crate::error::Error;
use crate::model::{
    buy_ticket_step, cancel_event_step, create_event_step, event_lookup, init_admin_step,
    organizer_or_admin, ticket_admits, ticket_lookup, transfer_ticket_step, use_ticket_step,
    TicketingState,
};
use crate::table::{map_of, Holder, Table};
use crate::types::{Address, Event, Symbol, Ticket};

verus! {

/// The records of the ticket office: the administrator, the events, the
/// tickets, and which account holds which ticket for which event.
pub struct StellarTicket {
    admin: Option<Address>,
    events: Table<Symbol, Event>,
    tickets: Table<Symbol, Ticket>,
    holdings: Table<Holder, Symbol>,
}

/// The names held in `holdings`, by content.
pub open spec fn names(holdings: Map<(Seq<char>, Seq<char>), Symbol>) -> Map<
    (Seq<char>, Seq<char>),
    Seq<char>,
> {
    holdings.map_values(|ticket_id: Symbol| ticket_id@)
}

proof fn lemma_names_insert(m: Map<(Seq<char>, Seq<char>), Symbol>, k: (Seq<char>, Seq<char>), v: Symbol)
    ensures
        names(m.insert(k, v)) == names(m).insert(k, v@),
{
    assert(names(m.insert(k, v)) =~= names(m).insert(k, v@));
}

proof fn lemma_names_remove(m: Map<(Seq<char>, Seq<char>), Symbol>, k: (Seq<char>, Seq<char>))
    ensures
        names(m.remove(k)) == names(m).remove(k),
{
    assert(names(m.remove(k)) =~= names(m).remove(k));
}

impl View for StellarTicket {
    type V = TicketingState;

    closed spec fn view(&self) -> TicketingState {
        TicketingState {
            admin: self.admin,
            events: self.events@,
            tickets: self.tickets@,
            holdings: names(self.holdings@),
        }
    }
}

impl StellarTicket {
    /// The records are well formed.
    pub closed spec fn inv(&self) -> bool {
        &&& self.events.wf()
        &&& self.tickets.wf()
        &&& self.holdings.wf()
    }

    /// Well-formed records hold finitely many events, tickets and holdings.
    pub proof fn lemma_records_are_finite(&self)
        requires
            self.inv(),
        ensures
            self@.events.dom().finite(),
            self@.tickets.dom().finite(),
            self@.holdings.dom().finite(),
    {
        self.events.lemma_finite();
        self.tickets.lemma_finite();
        self.holdings.lemma_finite();
        assert(names(self.holdings@).dom() =~= self.holdings@.dom());
    }

    /// An office that has recorded nothing yet.
    pub fn new() -> (office: Self)
        ensures
            office.inv(),
            office@ == TicketingState::empty(),
    {
        let office = StellarTicket {
            admin: None,
            events: Table::new(),
            tickets: Table::new(),
            holdings: Table::new(),
        };
        assert(names(office.holdings@) =~= Map::empty());
        office
    }

    /// The office whose records are the administrator `admin`, the events
    /// `events`, the tickets `tickets` and the holdings `holdings`, each
    /// list read as a sequence of writes.
    pub fn from_records(
        admin: Option<Address>,
        events: Vec<(Symbol, Event)>,
        tickets: Vec<(Symbol, Ticket)>,
        holdings: Vec<(Holder, Symbol)>,
    ) -> (office: Self)
        ensures
            office.inv(),
            office@ == (TicketingState {
                admin,
                events: map_of(events@),
                tickets: map_of(tickets@),
                holdings: names(map_of(holdings@)),
            }),
    {
        StellarTicket {
            admin,
            events: Table::from_entries(events),
            tickets: Table::from_entries(tickets),
            holdings: Table::from_entries(holdings),
        }
    }

    /// The administrator, once one was set.
    pub fn admin(&self) -> (r: Option<Address>)
        ensures
            r == self@.admin,
    {
        match &self.admin {
            Some(admin) => Some(admin.clone()),
            None => None,
        }
    }

    /// The name of the ticket that `holder` records, if there is one.
    pub fn holding(&self, holder: &Holder) -> (r: Option<Symbol>)
        requires
            self.inv(),
        ensures
            match r {
                Some(ticket_id) => self@.holdings.contains_key(holder@) && ticket_id@
                    == self@.holdings[holder@],
                None => !self@.holdings.contains_key(holder@),
            },
    {
        match self.holdings.get(holder) {
            Some(ticket_id) => Some(ticket_id.clone()),
            None => None,
        }
    }

    /// Sets the administrator; there is only ever one.
    pub fn init_admin(&mut self, admin: Address) -> (r: Result<(), Error>)
        requires
            old(self).inv(),
        ensures
            final(self).inv(),
            (final(self)@, r) == init_admin_step(old(self)@, admin),
            r is Err ==> final(self)@ == old(self)@,
    {
        if self.admin.is_some() {
            return Err(Error::AlreadyInitialized);
        }
        self.admin = Some(admin);
        Ok(())
    }

    /// Records a new, active event of `organizer` at time `now`.
    pub fn create_event(
        &mut self,
        now: u64,
        event_id: Symbol,
        organizer: Address,
        name: String,
        description: String,
        location: String,
        event_date: u64,
        ticket_price: i128,
        max_tickets: u32,
    ) -> (r: Result<(), Error>)
        requires
            old(self).inv(),
        ensures
            final(self).inv(),
            (final(self)@, r) == create_event_step(
                old(self)@,
                now,
                event_id,
                organizer,
                name,
                description,
                location,
                event_date,
                ticket_price,
                max_tickets,
            ),
            r is Err ==> final(self)@ == old(self)@,
    {
        if self.events.contains_key(&event_id) {
            return Err(Error::EventAlreadyExists);
        }
        if event_date <= now {
            return Err(Error::EventDateMustBeFuture);
        }
        if max_tickets == 0 {
            return Err(Error::MaxTicketsMustBePositive);
        }
        if ticket_price < 0 {
            return Err(Error::TicketPriceMustBeNonNegative);
        }
        let event = Event {
            organizer,
            name,
            description,
            location,
            event_date,
            ticket_price,
            max_tickets,
            sold_tickets: 0,
            active: true,
        };
        self.events.insert(event_id, event);
        Ok(())
    }

    /// Issues the ticket `ticket_id` of the event `event_id` to `buyer` at
    /// time `now`.
    pub fn buy_ticket(&mut self, now: u64, event_id: Symbol, ticket_id: Symbol, buyer: Address) -> (r:
        Result<(), Error>)
        requires
            old(self).inv(),
        ensures
            final(self).inv(),
            (final(self)@, r) == buy_ticket_step(old(self)@, now, event_id, ticket_id, buyer),
            r is Err ==> final(self)@ == old(self)@,
    {
        let mut event = match self.get_event_or_err(&event_id) {
            Ok(event) => event,
            Err(e) => return Err(e),
        };
        if !event.active {
            return Err(Error::EventInactive);
        }
        if event.sold_tickets >= event.max_tickets {
            return Err(Error::SoldOut);
        }
        if self.tickets.contains_key(&ticket_id) {
            return Err(Error::TicketAlreadyExists);
        }
        let holder = Holder { holder: buyer.clone(), event_id: event_id.clone() };
        if self.holdings.contains_key(&holder) {
            return Err(Error::UserAlreadyHasTicket);
        }
        let ticket = Ticket {
            ticket_id: ticket_id.clone(),
            event_id: event_id.clone(),
            owner: buyer,
            issued_at: now,
            used: false,
            valid: true,
        };
        event.sold_tickets = event.sold_tickets + 1;
        self.events.insert(event_id, event);
        self.tickets.insert(ticket_id.clone(), ticket);
        proof {
            lemma_names_insert(self.holdings@, holder@, ticket_id);
        }
        self.holdings.insert(holder, ticket_id);
        Ok(())
    }

    /// The event recorded under `event_id`.
    pub fn get_event(&self, event_id: Symbol) -> (r: Result<Event, Error>)
        requires
            self.inv(),
        ensures
            r == event_lookup(self@, event_id@),
    {
        self.get_event_or_err(&event_id)
    }

    /// The ticket recorded under `ticket_id`.
    pub fn get_ticket(&self, ticket_id: Symbol) -> (r: Result<Ticket, Error>)
        requires
            self.inv(),
        ensures
            r == ticket_lookup(self@, ticket_id@),
    {
        self.get_ticket_or_err(&ticket_id)
    }

    /// Whether the ticket `ticket_id` admits its holder: it exists, is
    /// valid and unused, and its event exists and is active.
    pub fn verify_ticket(&self, ticket_id: Symbol) -> (b: bool)
        requires
            self.inv(),
        ensures
            b == ticket_admits(self@, ticket_id@),
    {
        match self.tickets.get(&ticket_id) {
            Some(ticket) => {
                if !ticket.valid || ticket.used {
                    return false;
                }
                match self.events.get(&ticket.event_id) {
                    Some(event) => event.active,
                    None => false,
                }
            },
            None => false,
        }
    }

    /// Marks the ticket `ticket_id` used; `checker` is the event's
    /// organizer or the administrator.
    pub fn use_ticket(&mut self, ticket_id: Symbol, checker: Address) -> (r: Result<(), Error>)
        requires
            old(self).inv(),
        ensures
            final(self).inv(),
            (final(self)@, r) == use_ticket_step(old(self)@, ticket_id, checker),
            r is Err ==> final(self)@ == old(self)@,
    {
        let mut ticket = match self.get_ticket_or_err(&ticket_id) {
            Ok(ticket) => ticket,
            Err(e) => return Err(e),
        };
        if !ticket.valid {
            return Err(Error::TicketInvalid);
        }
        if ticket.used {
            return Err(Error::TicketAlreadyUsed);
        }
        let event = match self.get_event_or_err(&ticket.event_id) {
            Ok(event) => event,
            Err(e) => return Err(e),
        };
        if !event.active {
            return Err(Error::EventInactive);
        }
        match self.require_organizer_or_admin(&checker, &event.organizer) {
            Ok(()) => {},
            Err(e) => return Err(e),
        }
        ticket.used = true;
        self.tickets.insert(ticket_id, ticket);
        Ok(())
    }

    /// Passes the ticket `ticket_id` from its owner `from` to `to`.
    pub fn transfer_ticket(&mut self, ticket_id: Symbol, from: Address, to: Address) -> (r: Result<
        (),
        Error,
    >)
        requires
            old(self).inv(),
        ensures
            final(self).inv(),
            (final(self)@, r) == transfer_ticket_step(old(self)@, ticket_id, from, to),
            r is Err ==> final(self)@ == old(self)@,
    {
        let mut ticket = match self.get_ticket_or_err(&ticket_id) {
            Ok(ticket) => ticket,
            Err(e) => return Err(e),
        };
        if !ticket.owner.same_as(&from) {
            return Err(Error::NotTicketOwner);
        }
        if ticket.used {
            return Err(Error::TicketAlreadyUsed);
        }
        if !ticket.valid {
            return Err(Error::TicketInvalid);
        }
        let from_key = Holder { holder: from, event_id: ticket.event_id.clone() };
        let to_key = Holder { holder: to.clone(), event_id: ticket.event_id.clone() };
        if self.holdings.contains_key(&to_key) {
            return Err(Error::UserAlreadyHasTicket);
        }
        ticket.owner = to;
        proof {
            lemma_names_remove(self.holdings@, from_key@);
            lemma_names_insert(self.holdings@.remove(from_key@), to_key@, ticket.ticket_id);
        }
        self.holdings.remove(&from_key);
        self.holdings.insert(to_key, ticket.ticket_id.clone());
        self.tickets.insert(ticket_id, ticket);
        Ok(())
    }

    /// Makes the event `event_id` inactive; `organizer` is the event's
    /// organizer or the administrator.
    pub fn cancel_event(&mut self, event_id: Symbol, organizer: Address) -> (r: Result<(), Error>)
        requires
            old(self).inv(),
        ensures
            final(self).inv(),
            (final(self)@, r) == cancel_event_step(old(self)@, event_id, organizer),
            r is Err ==> final(self)@ == old(self)@,
    {
        let mut event = match self.get_event_or_err(&event_id) {
            Ok(event) => event,
            Err(e) => return Err(e),
        };
        match self.require_organizer_or_admin(&organizer, &event.organizer) {
            Ok(()) => {},
            Err(e) => return Err(e),
        }
        event.active = false;
        self.events.insert(event_id, event);
        Ok(())
    }

    fn get_event_or_err(&self, event_id: &Symbol) -> (r: Result<Event, Error>)
        requires
            self.inv(),
        ensures
            r == event_lookup(self@, event_id@),
    {
        match self.events.get(event_id) {
            Some(event) => Ok(event.clone()),
            None => Err(Error::EventNotFound),
        }
    }

    fn get_ticket_or_err(&self, ticket_id: &Symbol) -> (r: Result<Ticket, Error>)
        requires
            self.inv(),
        ensures
            r == ticket_lookup(self@, ticket_id@),
    {
        match self.tickets.get(ticket_id) {
            Some(ticket) => Ok(ticket.clone()),
            None => Err(Error::TicketNotFound),
        }
    }

    fn require_organizer_or_admin(&self, caller: &Address, organizer: &Address) -> (r: Result<
        (),
        Error,
    >)
        ensures
            r == organizer_or_admin(self@, *caller, *organizer),
    {
        if caller.same_as(organizer) {
            return Ok(());
        }
        match &self.admin {
            None => Err(Error::NotInitialized),
            Some(admin) => if caller.same_as(admin) {
                Ok(())
            } else {
                Err(Error::Unauthorized)
            },
        }
    }
}

} // verus!
