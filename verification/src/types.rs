use vstd::prelude::*;

verus! {

/// An account of the ledger, held by its textual form.
#[derive(Debug, PartialEq, Eq)]
pub struct Address(pub String);

/// A short name that identifies an event or a ticket.
#[derive(Debug, PartialEq, Eq)]
pub struct Symbol(pub String);

impl View for Address {
    type V = Seq<char>;

    open spec fn view(&self) -> Seq<char> {
        self.0@
    }
}

impl View for Symbol {
    type V = Seq<char>;

    open spec fn view(&self) -> Seq<char> {
        self.0@
    }
}

impl Clone for Address {
    fn clone(&self) -> (r: Self)
        ensures
            r == *self,
    {
        Address(self.0.clone())
    }
}

impl Clone for Symbol {
    fn clone(&self) -> (r: Self)
        ensures
            r == *self,
    {
        Symbol(self.0.clone())
    }
}

impl Address {
    /// Whether both addresses name the same account.
    pub fn same_as(&self, other: &Address) -> (b: bool)
        ensures
            b == (self@ == other@),
    {
        self.0 == other.0
    }
}

impl Symbol {
    /// Whether both symbols are the same name.
    pub fn same_as(&self, other: &Symbol) -> (b: bool)
        ensures
            b == (self@ == other@),
    {
        self.0 == other.0
    }
}

/// An event whose tickets the office sells.
#[derive(Debug, PartialEq, Eq)]
pub struct Event {
    pub organizer: Address,
    pub name: String,
    pub description: String,
    pub location: String,
    pub event_date: u64,
    pub ticket_price: i128,
    pub max_tickets: u32,
    pub sold_tickets: u32,
    pub active: bool,
}

/// A ticket for an event, held by its owner.
#[derive(Debug, PartialEq, Eq)]
pub struct Ticket {
    pub ticket_id: Symbol,
    pub event_id: Symbol,
    pub owner: Address,
    pub issued_at: u64,
    pub used: bool,
    pub valid: bool,
}

impl Clone for Event {
    fn clone(&self) -> (r: Self)
        ensures
            r == *self,
    {
        Event {
            organizer: self.organizer.clone(),
            name: self.name.clone(),
            description: self.description.clone(),
            location: self.location.clone(),
            event_date: self.event_date,
            ticket_price: self.ticket_price,
            max_tickets: self.max_tickets,
            sold_tickets: self.sold_tickets,
            active: self.active,
        }
    }
}

impl Clone for Ticket {
    fn clone(&self) -> (r: Self)
        ensures
            r == *self,
    {
        Ticket {
            ticket_id: self.ticket_id.clone(),
            event_id: self.event_id.clone(),
            owner: self.owner.clone(),
            issued_at: self.issued_at,
            used: self.used,
            valid: self.valid,
        }
    }
}

} // verus!
