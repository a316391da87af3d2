//! What each request answers and what it changes, stated directly over the
//! records: when it succeeds, which refusal it gives otherwise, the records
//! it leaves behind, and what the reads give back.

use vstd::prelude::*;

use crate::error::Error;
use crate::model::{
    buy_ticket_step, cancel_event_step, create_event_step, event_lookup, init_admin_step,
    ticket_admits, ticket_lookup, transfer_ticket_step, use_ticket_step, TicketingState,
};
use crate::types::{Address, Event, Symbol, Ticket};

verus! {

/// `caller` is `organizer`, or the recorded administrator.
pub open spec fn is_organizer_or_admin(s: TicketingState, caller: Address, organizer: Address) -> bool {
    caller@ == organizer@ || (s.admin is Some && caller@ == s.admin->0@)
}

/// Setting the administrator succeeds exactly when none is recorded; it
/// records `admin` and changes nothing else.
pub proof fn lemma_init_admin_outcome(s: TicketingState, admin: Address)
    ensures
        ({
            let (s2, r) = init_admin_step(s, admin);
            &&& r is Ok <==> s.admin is None
            &&& r is Err ==> r == Err::<(), Error>(Error::AlreadyInitialized) && s2 == s
            &&& r is Ok ==> s2 == (TicketingState { admin: Some(admin), ..s })
        }),
{
}

/// Creating an event succeeds exactly when the name is new, the date is
/// after `now`, at least one ticket is offered and the price is not
/// negative; it then records the event as given, active and with nothing
/// sold, and changes nothing else. A refusal changes nothing.
pub proof fn lemma_create_event_outcome(
    s: TicketingState,
    now: u64,
    event_id: Symbol,
    organizer: Address,
    name: String,
    description: String,
    location: String,
    event_date: u64,
    ticket_price: i128,
    max_tickets: u32,
)
    ensures
        ({
            let (s2, r) = create_event_step(
                s,
                now,
                event_id,
                organizer,
                name,
                description,
                location,
                event_date,
                ticket_price,
                max_tickets,
            );
            &&& r is Ok <==> !s.events.contains_key(event_id@) && now < event_date && 0 < max_tickets
                && 0 <= ticket_price
            &&& s.events.contains_key(event_id@) ==> r == Err::<(), Error>(Error::EventAlreadyExists)
            &&& !s.events.contains_key(event_id@) && event_date <= now ==> r == Err::<(), Error>(
                Error::EventDateMustBeFuture,
            )
            &&& !s.events.contains_key(event_id@) && now < event_date && max_tickets == 0 ==> r
                == Err::<(), Error>(Error::MaxTicketsMustBePositive)
            &&& !s.events.contains_key(event_id@) && now < event_date && 0 < max_tickets
                && ticket_price < 0 ==> r == Err::<(), Error>(Error::TicketPriceMustBeNonNegative)
            &&& r is Err ==> s2 == s
            &&& r is Ok ==> {
                &&& s2.events == s.events.insert(
                    event_id@,
                    (Event {
                        organizer,
                        name,
                        description,
                        location,
                        event_date,
                        ticket_price,
                        max_tickets,
                        sold_tickets: 0,
                        active: true,
                    }),
                )
                &&& s2.tickets == s.tickets
                &&& s2.holdings == s.holdings
                &&& s2.admin == s.admin
            }
        }),
{
}

/// Buying a ticket succeeds exactly when the event exists, is active and
/// is not sold out, the ticket name is new and the buyer holds no ticket
/// for the event, whatever the event's price, date, name or organizer. It
/// then counts one more ticket sold and changes nothing else of the event,
/// records the ticket as issued to the buyer at `now`, valid and unused,
/// and records that the buyer holds it. A refusal changes nothing.
pub proof fn lemma_buy_ticket_outcome(
    s: TicketingState,
    now: u64,
    event_id: Symbol,
    ticket_id: Symbol,
    buyer: Address,
)
    ensures
        ({
            let (s2, r) = buy_ticket_step(s, now, event_id, ticket_id, buyer);
            let e = event_id@;
            &&& r is Ok <==> {
                &&& s.events.contains_key(e)
                &&& s.events[e].active
                &&& s.events[e].sold_tickets < s.events[e].max_tickets
                &&& !s.tickets.contains_key(ticket_id@)
                &&& !s.holdings.contains_key((buyer@, e))
            }
            &&& !s.events.contains_key(e) ==> r == Err::<(), Error>(Error::EventNotFound)
            &&& s.events.contains_key(e) && !s.events[e].active ==> r == Err::<(), Error>(
                Error::EventInactive,
            )
            &&& s.events.contains_key(e) && s.events[e].active && s.events[e].sold_tickets
                >= s.events[e].max_tickets ==> r == Err::<(), Error>(Error::SoldOut)
            &&& r is Err ==> s2 == s
            &&& r is Ok ==> {
                &&& s2.events == s.events.insert(
                    e,
                    (Event { sold_tickets: (s.events[e].sold_tickets + 1) as u32, ..s.events[e] }),
                )
                &&& s2.events[e].sold_tickets == s.events[e].sold_tickets + 1
                &&& s2.tickets == s.tickets.insert(
                    ticket_id@,
                    (Ticket {
                        ticket_id,
                        event_id,
                        owner: buyer,
                        issued_at: now,
                        used: false,
                        valid: true,
                    }),
                )
                &&& s2.holdings == s.holdings.insert((buyer@, e), ticket_id@)
                &&& s2.admin == s.admin
            }
        }),
{
}

/// Checking a ticket in succeeds exactly when the ticket exists, is valid
/// and unused, its event exists and is active, and the checker is the
/// event's organizer or the recorded administrator. It then marks the
/// ticket used and changes nothing else. A refusal changes nothing.
pub proof fn lemma_use_ticket_outcome(s: TicketingState, ticket_id: Symbol, checker: Address)
    ensures
        ({
            let (s2, r) = use_ticket_step(s, ticket_id, checker);
            let t = ticket_id@;
            let e = s.tickets[t].event_id@;
            &&& r is Ok <==> {
                &&& s.tickets.contains_key(t)
                &&& s.tickets[t].valid
                &&& !s.tickets[t].used
                &&& s.events.contains_key(e)
                &&& s.events[e].active
                &&& is_organizer_or_admin(s, checker, s.events[e].organizer)
            }
            &&& !s.tickets.contains_key(t) ==> r == Err::<(), Error>(Error::TicketNotFound)
            &&& s.tickets.contains_key(t) && s.tickets[t].valid && s.tickets[t].used ==> r
                == Err::<(), Error>(Error::TicketAlreadyUsed)
            &&& s.tickets.contains_key(t) && s.tickets[t].valid && !s.tickets[t].used
                && s.events.contains_key(e) && !s.events[e].active ==> r == Err::<(), Error>(
                Error::EventInactive,
            )
            &&& s.tickets.contains_key(t) && s.tickets[t].valid && !s.tickets[t].used
                && s.events.contains_key(e) && s.events[e].active && checker@
                != s.events[e].organizer@ ==> r == (match s.admin {
                None => Err::<(), Error>(Error::NotInitialized),
                Some(admin) => if checker@ == admin@ {
                    Ok(())
                } else {
                    Err(Error::Unauthorized)
                },
            })
            &&& r is Err ==> s2 == s
            &&& r is Ok ==> {
                &&& s2.tickets == s.tickets.insert(t, (Ticket { used: true, ..s.tickets[t] }))
                &&& s2.events == s.events
                &&& s2.holdings == s.holdings
                &&& s2.admin == s.admin
            }
        }),
{
}

/// Passing a ticket on succeeds exactly when the ticket exists, `from`
/// owns it, it is unused and valid, and `to` holds no ticket for its event.
/// It then makes `to` the owner, moves the holding from `from` to `to`, and
/// changes nothing else. A refusal changes nothing.
pub proof fn lemma_transfer_ticket_outcome(s: TicketingState, ticket_id: Symbol, from: Address, to: Address)
    ensures
        ({
            let (s2, r) = transfer_ticket_step(s, ticket_id, from, to);
            let t = ticket_id@;
            let e = s.tickets[t].event_id@;
            &&& r is Ok <==> {
                &&& s.tickets.contains_key(t)
                &&& s.tickets[t].owner@ == from@
                &&& !s.tickets[t].used
                &&& s.tickets[t].valid
                &&& !s.holdings.contains_key((to@, e))
            }
            &&& !s.tickets.contains_key(t) ==> r == Err::<(), Error>(Error::TicketNotFound)
            &&& s.tickets.contains_key(t) && s.tickets[t].owner@ != from@ ==> r == Err::<(), Error>(
                Error::NotTicketOwner,
            )
            &&& s.tickets.contains_key(t) && s.tickets[t].owner@ == from@ && s.tickets[t].used ==> r
                == Err::<(), Error>(Error::TicketAlreadyUsed)
            &&& r is Err ==> s2 == s
            &&& r is Ok ==> {
                &&& s2.tickets == s.tickets.insert(t, (Ticket { owner: to, ..s.tickets[t] }))
                &&& s2.holdings == s.holdings.remove((from@, e)).insert(
                    (to@, e),
                    s.tickets[t].ticket_id@,
                )
                &&& s2.events == s.events
                &&& s2.admin == s.admin
            }
        }),
{
}

/// Canceling an event succeeds exactly when the event exists and the
/// caller is its organizer or the recorded administrator. It then makes
/// the event inactive and changes nothing else. A refusal changes nothing.
pub proof fn lemma_cancel_event_outcome(s: TicketingState, event_id: Symbol, caller: Address)
    ensures
        ({
            let (s2, r) = cancel_event_step(s, event_id, caller);
            let e = event_id@;
            &&& r is Ok <==> s.events.contains_key(e) && is_organizer_or_admin(
                s,
                caller,
                s.events[e].organizer,
            )
            &&& !s.events.contains_key(e) ==> r == Err::<(), Error>(Error::EventNotFound)
            &&& r is Err ==> s2 == s
            &&& r is Ok ==> {
                &&& s2.events == s.events.insert(e, (Event { active: false, ..s.events[e] }))
                &&& s2.tickets == s.tickets
                &&& s2.holdings == s.holdings
                &&& s2.admin == s.admin
            }
        }),
{
}

/// Reading an event gives back the stored record unchanged, and reading a
/// ticket gives back the stored ticket unchanged.
pub proof fn lemma_reads_give_the_stored_records(s: TicketingState, event_id: Seq<char>, ticket_id: Seq<char>)
    ensures
        s.events.contains_key(event_id) ==> event_lookup(s, event_id) == Ok::<Event, Error>(
            s.events[event_id],
        ),
        !s.events.contains_key(event_id) ==> event_lookup(s, event_id) == Err::<Event, Error>(
            Error::EventNotFound,
        ),
        s.tickets.contains_key(ticket_id) ==> ticket_lookup(s, ticket_id) == Ok::<Ticket, Error>(
            s.tickets[ticket_id],
        ),
        !s.tickets.contains_key(ticket_id) ==> ticket_lookup(s, ticket_id) == Err::<Ticket, Error>(
            Error::TicketNotFound,
        ),
        ticket_admits(s, ticket_id) <==> {
            &&& s.tickets.contains_key(ticket_id)
            &&& s.tickets[ticket_id].valid
            &&& !s.tickets[ticket_id].used
            &&& s.events.contains_key(s.tickets[ticket_id].event_id@)
            &&& s.events[s.tickets[ticket_id].event_id@].active
        },
{
}

/// After a purchase, the event reads back as before with one more ticket
/// sold: still active, even when this purchase sold it out.
pub proof fn lemma_purchase_reads_back(
    s: TicketingState,
    now: u64,
    event_id: Symbol,
    ticket_id: Symbol,
    buyer: Address,
)
    requires
        buy_ticket_step(s, now, event_id, ticket_id, buyer).1 is Ok,
    ensures
        ({
            let s2 = buy_ticket_step(s, now, event_id, ticket_id, buyer).0;
            let before = s.events[event_id@];
            &&& event_lookup(s, event_id@) == Ok::<Event, Error>(before)
            &&& event_lookup(s2, event_id@) == Ok::<Event, Error>(
                (Event { sold_tickets: (before.sold_tickets + 1) as u32, ..before }),
            )
            &&& event_lookup(s2, event_id@)->Ok_0.active
        }),
{
}

/// After a check-in, the ticket reads back as before with only `used` set:
/// it stays valid.
pub proof fn lemma_check_in_reads_back(s: TicketingState, ticket_id: Symbol, checker: Address)
    requires
        use_ticket_step(s, ticket_id, checker).1 is Ok,
    ensures
        ({
            let s2 = use_ticket_step(s, ticket_id, checker).0;
            let before = s.tickets[ticket_id@];
            &&& ticket_lookup(s, ticket_id@) == Ok::<Ticket, Error>(before)
            &&& ticket_lookup(s2, ticket_id@) == Ok::<Ticket, Error>((Ticket { used: true, ..before }))
            &&& ticket_lookup(s2, ticket_id@)->Ok_0.valid
        }),
{
}

/// After a cancelation, the event reads back as before with only `active`
/// cleared.
pub proof fn lemma_cancelation_reads_back(s: TicketingState, event_id: Symbol, caller: Address)
    requires
        cancel_event_step(s, event_id, caller).1 is Ok,
    ensures
        ({
            let s2 = cancel_event_step(s, event_id, caller).0;
            let before = s.events[event_id@];
            &&& event_lookup(s2, event_id@) == Ok::<Event, Error>((Event { active: false, ..before }))
        }),
{
}

} // verus!
