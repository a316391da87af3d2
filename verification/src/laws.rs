//! The laws of the ticket office, proved over the steps of
//! [`crate::model`] that the operations of [`crate::StellarTicket`] follow.

use vstd::prelude::*;

use crate::error::Error;
use crate::model::{
    apply, run, Request, buy_ticket_step, cancel_event_step, create_event_step, event_lookup, init_admin_step,
    new_event, new_ticket, ticket_admits, ticket_lookup, transfer_ticket_step, use_ticket_step,
    TicketingState,
};
use crate::types::{Address, Event, Symbol, Ticket};

verus! {

/// An office that has recorded nothing is consistent.
pub proof fn lemma_empty_is_consistent()
    ensures
        TicketingState::empty().consistent(),
{
    let s = TicketingState::empty();
    assert(s.tickets.dom() =~= Set::empty());
}

/// Every event that is inactive in `s` is recorded, unchanged, in `s2`.
pub open spec fn inactive_events_frozen(s: TicketingState, s2: TicketingState) -> bool {
    forall|e: Seq<char>|
        #[trigger] s.events.contains_key(e) && !s.events[e].active ==> s2.events.contains_key(e)
            && s2.events[e] == s.events[e]
}

/// Every ticket that is used in `s` is recorded, unchanged, in `s2`.
pub open spec fn used_tickets_frozen(s: TicketingState, s2: TicketingState) -> bool {
    forall|t: Seq<char>|
        #[trigger] s.tickets.contains_key(t) && s.tickets[t].used ==> s2.tickets.contains_key(t)
            && s2.tickets[t] == s.tickets[t]
}

/// Every ticket of `s` is still recorded in `s2`, for the same event.
pub open spec fn tickets_keep_their_event(s: TicketingState, s2: TicketingState) -> bool {
    forall|t: Seq<char>| #[trigger]
        s.tickets.contains_key(t) ==> s2.tickets.contains_key(t) && s2.tickets[t].event_id
            == s.tickets[t].event_id
}

/// Once there is an administrator, it stays.
pub open spec fn admin_frozen(s: TicketingState, s2: TicketingState) -> bool {
    s.admin is Some ==> s2.admin == s.admin
}

/// What going from `s` to `s2` keeps: each invariant of the records that
/// holds in `s` holds in `s2`; inactive events and used tickets are never
/// changed again; tickets are never removed and never change event; the
/// administrator, once set, stays.
pub open spec fn keeps_invariants(s: TicketingState, s2: TicketingState) -> bool {
    &&& s.counts_exact() ==> s2.counts_exact()
    &&& s.holdings_exact() ==> s2.holdings_exact()
    &&& s.tickets_valid() ==> s2.tickets_valid()
    &&& s.never_oversold() ==> s2.never_oversold()
    &&& s.consistent() ==> s2.consistent()
    &&& inactive_events_frozen(s, s2)
    &&& used_tickets_frozen(s, s2)
    &&& tickets_keep_their_event(s, s2)
    &&& admin_frozen(s, s2)
}

/// Setting the administrator keeps the invariants.
pub proof fn lemma_init_admin_keeps_invariants(s: TicketingState, admin: Address)
    ensures
        keeps_invariants(s, init_admin_step(s, admin).0),
{
    let s2 = init_admin_step(s, admin).0;
    assert forall|e: Seq<char>| #[trigger] s2.events.contains_key(e) implies s2.tickets_of(e)
        == s.tickets_of(e) by {
        assert(s2.tickets_of(e) =~= s.tickets_of(e));
    }
}

/// Creating an event keeps the invariants: the new event has sold nothing,
/// and no ticket names it yet.
pub proof fn lemma_create_event_keeps_invariants(
    s: TicketingState,
    now: u64,
    event_id: Symbol,
    organizer: Address,
    name: String,
    description: String,
    location: String,
    event_date: u64,
    ticket_price: i128,
    max_tickets: u32,
)
    ensures
        keeps_invariants(
            s,
            create_event_step(
                s,
                now,
                event_id,
                organizer,
                name,
                description,
                location,
                event_date,
                ticket_price,
                max_tickets,
            ).0,
        ),
{
    let s2 = create_event_step(
        s,
        now,
        event_id,
        organizer,
        name,
        description,
        location,
        event_date,
        ticket_price,
        max_tickets,
    ).0;
    if s.counts_exact() {
        assert forall|e: Seq<char>| #[trigger] s2.events.contains_key(e) implies s2.events[e].sold_tickets
            == s2.tickets_of(e).len() by {
            assert(s2.tickets_of(e) =~= s.tickets_of(e));
            if !s.events.contains_key(e) {
                assert(s.tickets_of(e) =~= Set::empty());
            }
        }
    }
}

/// Buying a ticket keeps the invariants: the event has sold one more
/// ticket, one more ticket is recorded for it, and the buyer holds it.
pub proof fn lemma_buy_ticket_keeps_invariants(
    s: TicketingState,
    now: u64,
    event_id: Symbol,
    ticket_id: Symbol,
    buyer: Address,
)
    ensures
        keeps_invariants(s, buy_ticket_step(s, now, event_id, ticket_id, buyer).0),
{
    let (s2, r) = buy_ticket_step(s, now, event_id, ticket_id, buyer);
    if r is Ok {
        let k = ticket_id@;
        let hk = (buyer@, event_id@);
        if s.counts_exact() {
            assert forall|e: Seq<char>| #[trigger] s2.events.contains_key(e) implies s2.events[e].sold_tickets
                == s2.tickets_of(e).len() by {
                assert(s.events.contains_key(e));
                s.tickets.dom().lemma_len_filter(|t: Seq<char>| s.tickets[t].event_id@ == e);
                if e == event_id@ {
                    assert(s2.tickets_of(e) =~= s.tickets_of(e).insert(k));
                    assert(!s.tickets_of(e).contains(k));
                } else {
                    assert(s2.tickets_of(e) =~= s.tickets_of(e));
                }
            }
        }
        if s.holdings_exact() {
            assert forall|t: Seq<char>| #[trigger] s2.tickets.contains_key(t) implies {
                &&& s2.holdings.contains_key((s2.tickets[t].owner@, s2.tickets[t].event_id@))
                &&& s2.holdings[(s2.tickets[t].owner@, s2.tickets[t].event_id@)] == t
            } by {
                if t != k {
                    assert(s.tickets.contains_key(t));
                    assert(s.holdings.contains_key((s.tickets[t].owner@, s.tickets[t].event_id@)));
                }
            }
            assert forall|h: (Seq<char>, Seq<char>)| #[trigger] s2.holdings.contains_key(h) implies {
                &&& s2.tickets.contains_key(s2.holdings[h])
                &&& s2.tickets[s2.holdings[h]].owner@ == h.0
                &&& s2.tickets[s2.holdings[h]].event_id@ == h.1
            } by {
                if h != hk {
                    assert(s.holdings.contains_key(h));
                    assert(s.tickets.contains_key(s.holdings[h]));
                }
            }
        }
    }
}

/// Using a ticket keeps the invariants.
pub proof fn lemma_use_ticket_keeps_invariants(s: TicketingState, ticket_id: Symbol, checker: Address)
    ensures
        keeps_invariants(s, use_ticket_step(s, ticket_id, checker).0),
{
    let (s2, r) = use_ticket_step(s, ticket_id, checker);
    if r is Ok {
        assert(s2.tickets.dom() =~= s.tickets.dom());
        assert forall|e: Seq<char>| #[trigger] s2.events.contains_key(e) implies s2.tickets_of(e)
            == s.tickets_of(e) by {
            assert(s2.tickets_of(e) =~= s.tickets_of(e));
        }
        if s.holdings_exact() {
            assert forall|t: Seq<char>| #[trigger] s2.tickets.contains_key(t) implies {
                &&& s2.holdings.contains_key((s2.tickets[t].owner@, s2.tickets[t].event_id@))
                &&& s2.holdings[(s2.tickets[t].owner@, s2.tickets[t].event_id@)] == t
            } by {
                assert(s.tickets.contains_key(t));
            }
            assert forall|h: (Seq<char>, Seq<char>)| #[trigger] s2.holdings.contains_key(h) implies {
                &&& s2.tickets.contains_key(s2.holdings[h])
                &&& s2.tickets[s2.holdings[h]].owner@ == h.0
                &&& s2.tickets[s2.holdings[h]].event_id@ == h.1
            } by {
                assert(s.holdings.contains_key(h));
            }
        }
    }
}

/// Passing a ticket on keeps the invariants: the new owner holds it, and
/// the old owner no longer does.
pub proof fn lemma_transfer_ticket_keeps_invariants(
    s: TicketingState,
    ticket_id: Symbol,
    from: Address,
    to: Address,
)
    ensures
        keeps_invariants(s, transfer_ticket_step(s, ticket_id, from, to).0),
{
    let (s2, r) = transfer_ticket_step(s, ticket_id, from, to);
    if r is Ok {
        let k = ticket_id@;
        let ticket = s.tickets[k];
        let ev = ticket.event_id@;
        assert(s2.tickets.dom() =~= s.tickets.dom());
        assert forall|e: Seq<char>| #[trigger] s2.events.contains_key(e) implies s2.tickets_of(e)
            == s.tickets_of(e) by {
            assert(s2.tickets_of(e) =~= s.tickets_of(e));
        }
        if s.holdings_exact() {
            assert(s.holdings.contains_key((from@, ev)));
            assert(s.holdings[(from@, ev)] == k);
            assert forall|t: Seq<char>| #[trigger] s2.tickets.contains_key(t) implies {
                &&& s2.holdings.contains_key((s2.tickets[t].owner@, s2.tickets[t].event_id@))
                &&& s2.holdings[(s2.tickets[t].owner@, s2.tickets[t].event_id@)] == t
            } by {
                assert(s.tickets.contains_key(t));
                if t != k {
                    let ht = (s.tickets[t].owner@, s.tickets[t].event_id@);
                    assert(s.holdings.contains_key(ht));
                    assert(ht != (from@, ev));
                    assert(ht != (to@, ev));
                }
            }
            assert forall|h: (Seq<char>, Seq<char>)| #[trigger] s2.holdings.contains_key(h) implies {
                &&& s2.tickets.contains_key(s2.holdings[h])
                &&& s2.tickets[s2.holdings[h]].owner@ == h.0
                &&& s2.tickets[s2.holdings[h]].event_id@ == h.1
            } by {
                if h != (to@, ev) {
                    assert(s.holdings.contains_key(h));
                    assert(h != (from@, ev));
                    assert(s.tickets.contains_key(s.holdings[h]));
                    if s.holdings[h] == k {
                        assert(h.0 == from@ && h.1 == ev);
                    }
                }
            }
        }
    }
}

/// Canceling an event keeps the invariants.
pub proof fn lemma_cancel_event_keeps_invariants(s: TicketingState, event_id: Symbol, organizer: Address)
    ensures
        keeps_invariants(s, cancel_event_step(s, event_id, organizer).0),
{
    let (s2, r) = cancel_event_step(s, event_id, organizer);
    if r is Ok {
        assert forall|e: Seq<char>| #[trigger] s2.events.contains_key(e) implies s2.tickets_of(e)
            == s.tickets_of(e) by {
            assert(s2.tickets_of(e) =~= s.tickets_of(e));
        }
    }
}

/// An event that was created reads back as created: active, with no ticket
/// sold, and with the organizer, date, price and offer it was given.
pub proof fn lemma_created_event_reads_back(
    s: TicketingState,
    now: u64,
    event_id: Symbol,
    organizer: Address,
    name: String,
    description: String,
    location: String,
    event_date: u64,
    ticket_price: i128,
    max_tickets: u32,
)
    requires
        create_event_step(
            s,
            now,
            event_id,
            organizer,
            name,
            description,
            location,
            event_date,
            ticket_price,
            max_tickets,
        ).1 is Ok,
    ensures
        ({
            let s2 = create_event_step(
                s,
                now,
                event_id,
                organizer,
                name,
                description,
                location,
                event_date,
                ticket_price,
                max_tickets,
            ).0;
            &&& event_lookup(s2, event_id@) == Ok::<_, Error>(
                new_event(
                    organizer,
                    name,
                    description,
                    location,
                    event_date,
                    ticket_price,
                    max_tickets,
                ),
            )
            &&& s2.events[event_id@].active
            &&& s2.events[event_id@].sold_tickets == 0
        }),
{
}

/// A ticket that was bought reads back as issued to the buyer at the time
/// of purchase, admits its holder, and counts as one more ticket sold.
pub proof fn lemma_bought_ticket_admits(
    s: TicketingState,
    now: u64,
    event_id: Symbol,
    ticket_id: Symbol,
    buyer: Address,
)
    requires
        buy_ticket_step(s, now, event_id, ticket_id, buyer).1 is Ok,
    ensures
        ({
            let s2 = buy_ticket_step(s, now, event_id, ticket_id, buyer).0;
            &&& ticket_lookup(s2, ticket_id@) == Ok::<_, Error>(
                new_ticket(ticket_id, event_id, buyer, now),
            )
            &&& ticket_admits(s2, ticket_id@)
            &&& s2.events[event_id@].sold_tickets == s.events[event_id@].sold_tickets + 1
            &&& s2.holdings[(buyer@, event_id@)] == ticket_id@
        }),
{
}

/// An account never holds two tickets for the same event.
pub proof fn lemma_one_ticket_per_holder_and_event(s: TicketingState, t1: Seq<char>, t2: Seq<char>)
    requires
        s.holdings_exact(),
        s.tickets.contains_key(t1),
        s.tickets.contains_key(t2),
        s.tickets[t1].owner@ == s.tickets[t2].owner@,
        s.tickets[t1].event_id@ == s.tickets[t2].event_id@,
    ensures
        t1 == t2,
{
}

/// An account that holds a ticket for an event cannot buy another one for
/// it.
pub proof fn lemma_holder_cannot_buy_again(
    s: TicketingState,
    held: Seq<char>,
    now: u64,
    event_id: Symbol,
    ticket_id: Symbol,
    buyer: Address,
)
    requires
        s.holdings_match_owners(),
        s.tickets.contains_key(held),
        s.tickets[held].owner@ == buyer@,
        s.tickets[held].event_id@ == event_id@,
    ensures
        buy_ticket_step(s, now, event_id, ticket_id, buyer).1 is Err,
{
}

/// An event never sells more tickets than it offers, and the tickets it
/// has sold are the tickets recorded for it.
pub proof fn lemma_never_oversold(s: TicketingState, event_id: Seq<char>)
    requires
        s.consistent(),
        s.events.contains_key(event_id),
    ensures
        s.events[event_id].sold_tickets <= s.events[event_id].max_tickets,
        s.events[event_id].sold_tickets == s.tickets_of(event_id).len(),
{
}

/// A sold-out active event refuses further purchases with `SoldOut`.
pub proof fn lemma_sold_out_refuses(
    s: TicketingState,
    now: u64,
    event_id: Symbol,
    ticket_id: Symbol,
    buyer: Address,
)
    requires
        s.events.contains_key(event_id@),
        s.events[event_id@].active,
        s.events[event_id@].sold_tickets >= s.events[event_id@].max_tickets,
    ensures
        buy_ticket_step(s, now, event_id, ticket_id, buyer) == (s, Err::<(), Error>(Error::SoldOut)),
{
}

/// Whether `caller` is `organizer` or the administrator.
pub open spec fn checker_may_act(s: TicketingState, caller: Address, organizer: Address) -> bool {
    caller@ == organizer@ || (s.admin is Some && caller@ == s.admin->0@)
}

/// A ticket is checked in only when it admits its holder, and only by the
/// organizer of its event or the administrator; the organizer can always
/// check in a ticket that admits its holder.
pub proof fn lemma_check_in_admits_and_is_authorized(
    s: TicketingState,
    ticket_id: Symbol,
    checker: Address,
)
    ensures
        use_ticket_step(s, ticket_id, checker).1 is Ok ==> {
            let organizer = s.events[s.tickets[ticket_id@].event_id@].organizer;
            &&& ticket_admits(s, ticket_id@)
            &&& checker_may_act(s, checker, organizer)
        },
        ticket_admits(s, ticket_id@) && checker@ == s.events[s.tickets[ticket_id@].event_id@].organizer@
            ==> use_ticket_step(s, ticket_id, checker).1 is Ok,
{
}

/// Only the organizer of an event or the administrator can cancel it.
pub proof fn lemma_cancel_is_authorized(s: TicketingState, event_id: Symbol, caller: Address)
    ensures
        cancel_event_step(s, event_id, caller).1 is Ok ==> {
            let organizer = s.events[event_id@].organizer;
            checker_may_act(s, caller, organizer)
        },
        s.events.contains_key(event_id@) && caller@ == s.events[event_id@].organizer@
            ==> cancel_event_step(s, event_id, caller).1 is Ok,
{
}

/// Passing a ticket on moves it: the receiver owns and holds it, the
/// former owner no longer holds a ticket for that event, and whether it
/// admits its holder is unchanged.
pub proof fn lemma_transfer_moves_the_ticket(
    s: TicketingState,
    ticket_id: Symbol,
    from: Address,
    to: Address,
)
    requires
        s.holdings_exact(),
        transfer_ticket_step(s, ticket_id, from, to).1 is Ok,
    ensures
        ({
            let s2 = transfer_ticket_step(s, ticket_id, from, to).0;
            let event_id = s.tickets[ticket_id@].event_id@;
            &&& s2.tickets[ticket_id@].owner == to
            &&& s2.holdings.contains_key((to@, event_id))
            &&& s2.holdings[(to@, event_id)] == ticket_id@
            &&& !s2.holdings.contains_key((from@, event_id))
            &&& ticket_admits(s2, ticket_id@) == ticket_admits(s, ticket_id@)
        }),
{
    let event_id = s.tickets[ticket_id@].event_id@;
    assert(s.holdings.contains_key((from@, event_id)));
}

/// Every request keeps the invariants.
pub proof fn lemma_request_keeps_invariants(s: TicketingState, r: Request)
    ensures
        keeps_invariants(s, apply(s, r)),
{
    match r {
        Request::InitAdmin { admin } => lemma_init_admin_keeps_invariants(s, admin),
        Request::CreateEvent {
            now,
            event_id,
            organizer,
            name,
            description,
            location,
            event_date,
            ticket_price,
            max_tickets,
        } => lemma_create_event_keeps_invariants(
            s,
            now,
            event_id,
            organizer,
            name,
            description,
            location,
            event_date,
            ticket_price,
            max_tickets,
        ),
        Request::BuyTicket { now, event_id, ticket_id, buyer } => lemma_buy_ticket_keeps_invariants(
            s,
            now,
            event_id,
            ticket_id,
            buyer,
        ),
        Request::UseTicket { ticket_id, checker } => lemma_use_ticket_keeps_invariants(
            s,
            ticket_id,
            checker,
        ),
        Request::TransferTicket { ticket_id, from, to } => lemma_transfer_ticket_keeps_invariants(
            s,
            ticket_id,
            from,
            to,
        ),
        Request::CancelEvent { event_id, organizer } => lemma_cancel_event_keeps_invariants(
            s,
            event_id,
            organizer,
        ),
    }
}

/// Every sequence of requests keeps the invariants: each invariant that
/// holds before holds after, inactive events and used tickets are never
/// changed, tickets are never removed and never change event, and the
/// administrator, once set, stays.
pub proof fn lemma_run_keeps_invariants(s: TicketingState, rs: Seq<Request>)
    ensures
        keeps_invariants(s, run(s, rs)),
    decreases rs.len(),
{
    if rs.len() > 0 {
        let s1 = apply(s, rs[0]);
        let s2 = run(s, rs);
        lemma_request_keeps_invariants(s, rs[0]);
        lemma_run_keeps_invariants(s1, rs.drop_first());
        assert forall|e: Seq<char>|
            #[trigger] s.events.contains_key(e) && !s.events[e].active implies s2.events.contains_key(e)
            && s2.events[e] == s.events[e] by {
            assert(s1.events.contains_key(e) && !s1.events[e].active);
        }
        assert forall|t: Seq<char>|
            #[trigger] s.tickets.contains_key(t) && s.tickets[t].used implies s2.tickets.contains_key(t)
            && s2.tickets[t] == s.tickets[t] by {
            assert(s1.tickets.contains_key(t) && s1.tickets[t].used);
        }
        assert forall|t: Seq<char>| #[trigger] s.tickets.contains_key(t) implies s2.tickets.contains_key(t)
            && s2.tickets[t].event_id == s.tickets[t].event_id by {
            assert(s1.tickets.contains_key(t));
        }
    } else {
        assert(run(s, rs) == s);
    }
}

/// Every state the office reaches from its empty start is consistent.
pub proof fn lemma_reachable_states_are_consistent(rs: Seq<Request>)
    ensures
        run(TicketingState::empty(), rs).consistent(),
{
    lemma_empty_is_consistent();
    lemma_run_keeps_invariants(TicketingState::empty(), rs);
}

/// The administrator is set once: after it was set, it stays through
/// every later sequence of requests, and setting it again is refused with
/// `AlreadyInitialized`.
pub proof fn lemma_admin_is_set_once(s: TicketingState, admin: Address, rs: Seq<Request>, other: Address)
    requires
        init_admin_step(s, admin).1 is Ok,
    ensures
        ({
            let s2 = run(init_admin_step(s, admin).0, rs);
            &&& s2.admin == Some(admin)
            &&& init_admin_step(s2, other) == (s2, Err::<(), Error>(Error::AlreadyInitialized))
        }),
{
    lemma_run_keeps_invariants(init_admin_step(s, admin).0, rs);
}

/// An inactive event refuses: it sells no ticket, none of its tickets
/// admits its holder, none of its unused tickets can be checked in, and
/// it cannot be created again.
pub proof fn lemma_inactive_event_refuses(
    s: TicketingState,
    event_id: Symbol,
    now: u64,
    ticket_id: Symbol,
    buyer: Address,
    checker: Address,
    organizer: Address,
    name: String,
    description: String,
    location: String,
    event_date: u64,
    ticket_price: i128,
    max_tickets: u32,
)
    requires
        s.events.contains_key(event_id@),
        !s.events[event_id@].active,
    ensures
        buy_ticket_step(s, now, event_id, ticket_id, buyer) == (s, Err::<(), Error>(Error::EventInactive)),
        forall|t: Seq<char>| #[trigger]
            s.tickets.contains_key(t) && s.tickets[t].event_id@ == event_id@ ==> !ticket_admits(s, t),
        s.tickets.contains_key(ticket_id@) && s.tickets[ticket_id@].event_id@ == event_id@
            && s.tickets[ticket_id@].valid && !s.tickets[ticket_id@].used ==> use_ticket_step(
            s,
            ticket_id,
            checker,
        ) == (s, Err::<(), Error>(Error::EventInactive)),
        create_event_step(
            s,
            now,
            event_id,
            organizer,
            name,
            description,
            location,
            event_date,
            ticket_price,
            max_tickets,
        ) == (s, Err::<(), Error>(Error::EventAlreadyExists)),
{
}

/// A canceled event stays canceled through every later sequence of
/// requests: it stays recorded and inactive (so it keeps refusing, as
/// [`lemma_inactive_event_refuses`] says), and no ticket it had admits its
/// holder again.
pub proof fn lemma_canceled_event_stays_canceled(
    s: TicketingState,
    event_id: Symbol,
    caller: Address,
    rs: Seq<Request>,
)
    requires
        cancel_event_step(s, event_id, caller).1 is Ok,
    ensures
        ({
            let s2 = run(cancel_event_step(s, event_id, caller).0, rs);
            &&& s2.events.contains_key(event_id@)
            &&& !s2.events[event_id@].active
            &&& forall|t: Seq<char>| #[trigger]
                s.tickets.contains_key(t) && s.tickets[t].event_id@ == event_id@ ==> s2.tickets.contains_key(t)
                    && !ticket_admits(s2, t)
        }),
{
    let s1 = cancel_event_step(s, event_id, caller).0;
    let s2 = run(s1, rs);
    lemma_run_keeps_invariants(s1, rs);
    assert(s1.events.contains_key(event_id@) && !s1.events[event_id@].active);
    assert forall|t: Seq<char>| #[trigger]
        s.tickets.contains_key(t) && s.tickets[t].event_id@ == event_id@ implies s2.tickets.contains_key(t)
        && !ticket_admits(s2, t) by {
        assert(s1.tickets.contains_key(t));
    }
}

/// A used ticket stays used through every later sequence of requests: it
/// is never changed again, it admits its holder no more, it cannot be used
/// again, and its owner cannot pass it on.
pub proof fn lemma_used_ticket_stays_used(
    s: TicketingState,
    ticket_id: Symbol,
    checker: Address,
    rs: Seq<Request>,
    next_checker: Address,
    to: Address,
)
    requires
        use_ticket_step(s, ticket_id, checker).1 is Ok,
    ensures
        ({
            let s1 = use_ticket_step(s, ticket_id, checker).0;
            let s2 = run(s1, rs);
            let owner = s2.tickets[ticket_id@].owner;
            &&& s2.tickets.contains_key(ticket_id@)
            &&& s2.tickets[ticket_id@] == s1.tickets[ticket_id@]
            &&& s2.tickets[ticket_id@].used
            &&& !ticket_admits(s2, ticket_id@)
            &&& use_ticket_step(s2, ticket_id, next_checker) == (s2, Err::<(), Error>(
                Error::TicketAlreadyUsed,
            ))
            &&& transfer_ticket_step(s2, ticket_id, owner, to) == (s2, Err::<(), Error>(
                Error::TicketAlreadyUsed,
            ))
        }),
{
    let s1 = use_ticket_step(s, ticket_id, checker).0;
    lemma_run_keeps_invariants(s1, rs);
    assert(s1.tickets.contains_key(ticket_id@) && s1.tickets[ticket_id@].used);
}

/// Passing a ticket on and back restores every record: when `a` owns the
/// ticket and holds it for its event, and `a` passes it to `b`, then `b`
/// can pass it back to `a`, and the office is as it was before.
pub proof fn lemma_transfer_there_and_back(s: TicketingState, ticket_id: Symbol, a: Address, b: Address)
    requires
        s.tickets.contains_key(ticket_id@),
        s.tickets[ticket_id@].ticket_id@ == ticket_id@,
        s.tickets[ticket_id@].owner == a,
        s.holdings.contains_key((a@, s.tickets[ticket_id@].event_id@)),
        s.holdings[(a@, s.tickets[ticket_id@].event_id@)] == ticket_id@,
        transfer_ticket_step(s, ticket_id, a, b).1 is Ok,
    ensures
        transfer_ticket_step(transfer_ticket_step(s, ticket_id, a, b).0, ticket_id, b, a) == (
            s,
            Ok::<(), Error>(()),
        ),
{
    let ticket = s.tickets[ticket_id@];
    let ev = ticket.event_id@;
    let s1 = transfer_ticket_step(s, ticket_id, a, b).0;
    let s2 = transfer_ticket_step(s1, ticket_id, b, a).0;
    assert(a@ != b@);
    assert(!s1.holdings.contains_key((a@, ev)));
    assert(transfer_ticket_step(s1, ticket_id, b, a).1 is Ok);
    assert(s2.tickets =~= s.tickets);
    assert(s2.holdings =~= s.holdings);
}

/// The records a request reads, by kind: whether the administrator, and
/// which events, tickets and holdings.
pub struct Footprint {
    pub admin: bool,
    pub events: Set<Seq<char>>,
    pub tickets: Set<Seq<char>>,
    pub holdings: Set<(Seq<char>, Seq<char>)>,
}

/// `s1` and `s2` hold the same records under the keys of `fp`.
pub open spec fn agree_on(s1: TicketingState, s2: TicketingState, fp: Footprint) -> bool {
    &&& fp.admin ==> s1.admin == s2.admin
    &&& s1.events.restrict(fp.events) == s2.events.restrict(fp.events)
    &&& s1.tickets.restrict(fp.tickets) == s2.tickets.restrict(fp.tickets)
    &&& s1.holdings.restrict(fp.holdings) == s2.holdings.restrict(fp.holdings)
}

/// `s1` and `s2` hold the same records under every key outside `fp`.
pub open spec fn same_outside(s1: TicketingState, s2: TicketingState, fp: Footprint) -> bool {
    &&& !fp.admin ==> s1.admin == s2.admin
    &&& s1.events.remove_keys(fp.events) == s2.events.remove_keys(fp.events)
    &&& s1.tickets.remove_keys(fp.tickets) == s2.tickets.remove_keys(fp.tickets)
    &&& s1.holdings.remove_keys(fp.holdings) == s2.holdings.remove_keys(fp.holdings)
}

/// What a step reads and writes is confined to `fp`: started from two states
/// that agree on `fp`, it gives the same answer, the two new states agree on
/// `fp`, and each new state differs from its old one only inside `fp`.
pub open spec fn confined_to(
    fp: Footprint,
    s1: TicketingState,
    s2: TicketingState,
    step1: (TicketingState, Result<(), Error>),
    step2: (TicketingState, Result<(), Error>),
) -> bool {
    &&& step1.1 == step2.1
    &&& agree_on(step1.0, step2.0, fp)
    &&& same_outside(s1, step1.0, fp)
    &&& same_outside(s2, step2.0, fp)
}

/// No records.
pub open spec fn no_records() -> Footprint {
    Footprint { admin: false, events: Set::empty(), tickets: Set::empty(), holdings: Set::empty() }
}

/// `init_admin` reads and writes the administrator only.
pub open spec fn init_admin_footprint() -> Footprint {
    Footprint { admin: true, ..no_records() }
}

/// `create_event` reads and writes the event it creates only.
pub open spec fn create_event_footprint(event_id: Symbol) -> Footprint {
    Footprint { events: set![event_id@], ..no_records() }
}

/// `buy_ticket` reads and writes the event, the ticket, and the buyer's
/// holding for the event.
pub open spec fn buy_ticket_footprint(event_id: Symbol, ticket_id: Symbol, buyer: Address) -> Footprint {
    Footprint {
        events: set![event_id@],
        tickets: set![ticket_id@],
        holdings: set![(buyer@, event_id@)],
        ..no_records()
    }
}

/// `use_ticket` reads the administrator, the ticket and, where the ticket
/// exists, its event; it writes the ticket.
pub open spec fn use_ticket_footprint(s: TicketingState, ticket_id: Symbol) -> Footprint {
    Footprint {
        admin: true,
        events: if s.tickets.contains_key(ticket_id@) {
            set![s.tickets[ticket_id@].event_id@]
        } else {
            Set::empty()
        },
        tickets: set![ticket_id@],
        holdings: Set::empty(),
    }
}

/// `transfer_ticket` reads and writes the ticket and, where the ticket
/// exists, both accounts' holdings for its event.
pub open spec fn transfer_ticket_footprint(
    s: TicketingState,
    ticket_id: Symbol,
    from: Address,
    to: Address,
) -> Footprint {
    Footprint {
        tickets: set![ticket_id@],
        holdings: if s.tickets.contains_key(ticket_id@) {
            set![(from@, s.tickets[ticket_id@].event_id@), (to@, s.tickets[ticket_id@].event_id@)]
        } else {
            Set::empty()
        },
        ..no_records()
    }
}

/// `cancel_event` reads the administrator and the event; it writes the
/// event.
pub open spec fn cancel_event_footprint(event_id: Symbol) -> Footprint {
    Footprint { admin: true, events: set![event_id@], ..no_records() }
}

/// `verify_ticket` reads the ticket and, where it exists, its event.
pub open spec fn verify_ticket_footprint(s: TicketingState, ticket_id: Symbol) -> Footprint {
    Footprint {
        events: if s.tickets.contains_key(ticket_id@) {
            set![s.tickets[ticket_id@].event_id@]
        } else {
            Set::empty()
        },
        tickets: set![ticket_id@],
        ..no_records()
    }
}

proof fn lemma_agree_at<K, V>(m1: Map<K, V>, m2: Map<K, V>, keys: Set<K>, k: K)
    requires
        m1.restrict(keys) == m2.restrict(keys),
        keys.contains(k),
    ensures
        m1.contains_key(k) == m2.contains_key(k),
        m1.contains_key(k) ==> m1[k] == m2[k],
{
    assert(m1.restrict(keys).contains_key(k) == m1.contains_key(k));
    assert(m2.restrict(keys).contains_key(k) == m2.contains_key(k));
    if m1.contains_key(k) {
        assert(m1.restrict(keys)[k] == m1[k]);
        assert(m2.restrict(keys)[k] == m2[k]);
    }
}

proof fn lemma_insert_inside<K, V>(m1: Map<K, V>, m2: Map<K, V>, keys: Set<K>, k: K, v: V)
    requires
        m1.restrict(keys) == m2.restrict(keys),
        keys.contains(k),
    ensures
        m1.insert(k, v).restrict(keys) == m2.insert(k, v).restrict(keys),
        m1.insert(k, v).remove_keys(keys) == m1.remove_keys(keys),
{
    assert forall|x: K| keys.contains(x) implies m1.contains_key(x) == m2.contains_key(x) && (
    m1.contains_key(x) ==> m1[x] == m2[x]) by {
        lemma_agree_at(m1, m2, keys, x);
    }
    assert(m1.insert(k, v).restrict(keys) =~= m2.insert(k, v).restrict(keys));
    assert(m1.insert(k, v).remove_keys(keys) =~= m1.remove_keys(keys));
}

proof fn lemma_remove_inside<K, V>(m1: Map<K, V>, m2: Map<K, V>, keys: Set<K>, k: K)
    requires
        m1.restrict(keys) == m2.restrict(keys),
        keys.contains(k),
    ensures
        m1.remove(k).restrict(keys) == m2.remove(k).restrict(keys),
        m1.remove(k).remove_keys(keys) == m1.remove_keys(keys),
{
    assert forall|x: K| keys.contains(x) implies m1.contains_key(x) == m2.contains_key(x) && (
    m1.contains_key(x) ==> m1[x] == m2[x]) by {
        lemma_agree_at(m1, m2, keys, x);
    }
    assert(m1.remove(k).restrict(keys) =~= m2.remove(k).restrict(keys));
    assert(m1.remove(k).remove_keys(keys) =~= m1.remove_keys(keys));
}

/// `init_admin` is confined to the administrator.
pub proof fn lemma_init_admin_is_confined(s1: TicketingState, s2: TicketingState, admin: Address)
    requires
        agree_on(s1, s2, init_admin_footprint()),
    ensures
        confined_to(
            init_admin_footprint(),
            s1,
            s2,
            init_admin_step(s1, admin),
            init_admin_step(s2, admin),
        ),
{
}

/// `create_event` is confined to the event it creates.
pub proof fn lemma_create_event_is_confined(
    s1: TicketingState,
    s2: TicketingState,
    now: u64,
    event_id: Symbol,
    organizer: Address,
    name: String,
    description: String,
    location: String,
    event_date: u64,
    ticket_price: i128,
    max_tickets: u32,
)
    requires
        agree_on(s1, s2, create_event_footprint(event_id)),
    ensures
        confined_to(
            create_event_footprint(event_id),
            s1,
            s2,
            create_event_step(
                s1,
                now,
                event_id,
                organizer,
                name,
                description,
                location,
                event_date,
                ticket_price,
                max_tickets,
            ),
            create_event_step(
                s2,
                now,
                event_id,
                organizer,
                name,
                description,
                location,
                event_date,
                ticket_price,
                max_tickets,
            ),
        ),
{
    let fp = create_event_footprint(event_id);
    lemma_agree_at(s1.events, s2.events, fp.events, event_id@);
    let event = new_event(
        organizer,
        name,
        description,
        location,
        event_date,
        ticket_price,
        max_tickets,
    );
    lemma_insert_inside(s1.events, s2.events, fp.events, event_id@, event);
    lemma_insert_inside(s2.events, s1.events, fp.events, event_id@, event);
}

/// `buy_ticket` is confined to the event, the ticket and the buyer's
/// holding for the event.
pub proof fn lemma_buy_ticket_is_confined(
    s1: TicketingState,
    s2: TicketingState,
    now: u64,
    event_id: Symbol,
    ticket_id: Symbol,
    buyer: Address,
)
    requires
        agree_on(s1, s2, buy_ticket_footprint(event_id, ticket_id, buyer)),
    ensures
        confined_to(
            buy_ticket_footprint(event_id, ticket_id, buyer),
            s1,
            s2,
            buy_ticket_step(s1, now, event_id, ticket_id, buyer),
            buy_ticket_step(s2, now, event_id, ticket_id, buyer),
        ),
{
    let fp = buy_ticket_footprint(event_id, ticket_id, buyer);
    lemma_agree_at(s1.events, s2.events, fp.events, event_id@);
    lemma_agree_at(s1.tickets, s2.tickets, fp.tickets, ticket_id@);
    lemma_agree_at(s1.holdings, s2.holdings, fp.holdings, (buyer@, event_id@));
    if buy_ticket_step(s1, now, event_id, ticket_id, buyer).1 is Ok {
        let event = s1.events[event_id@];
        let sold = Event { sold_tickets: (event.sold_tickets + 1) as u32, ..event };
        let ticket = new_ticket(ticket_id, event_id, buyer, now);
        lemma_insert_inside(s1.events, s2.events, fp.events, event_id@, sold);
        lemma_insert_inside(s2.events, s1.events, fp.events, event_id@, sold);
        lemma_insert_inside(s1.tickets, s2.tickets, fp.tickets, ticket_id@, ticket);
        lemma_insert_inside(s2.tickets, s1.tickets, fp.tickets, ticket_id@, ticket);
        lemma_insert_inside(s1.holdings, s2.holdings, fp.holdings, (buyer@, event_id@), ticket_id@);
        lemma_insert_inside(s2.holdings, s1.holdings, fp.holdings, (buyer@, event_id@), ticket_id@);
    }
}

/// `use_ticket` is confined to the administrator, the ticket and its event.
pub proof fn lemma_use_ticket_is_confined(
    s1: TicketingState,
    s2: TicketingState,
    ticket_id: Symbol,
    checker: Address,
)
    requires
        agree_on(s1, s2, use_ticket_footprint(s1, ticket_id)),
    ensures
        use_ticket_footprint(s2, ticket_id) == use_ticket_footprint(s1, ticket_id),
        confined_to(
            use_ticket_footprint(s1, ticket_id),
            s1,
            s2,
            use_ticket_step(s1, ticket_id, checker),
            use_ticket_step(s2, ticket_id, checker),
        ),
{
    let fp = use_ticket_footprint(s1, ticket_id);
    lemma_agree_at(s1.tickets, s2.tickets, fp.tickets, ticket_id@);
    if s1.tickets.contains_key(ticket_id@) {
        let ticket = s1.tickets[ticket_id@];
        lemma_agree_at(s1.events, s2.events, fp.events, ticket.event_id@);
        if use_ticket_step(s1, ticket_id, checker).1 is Ok {
            let used = Ticket { used: true, ..ticket };
            lemma_insert_inside(s1.tickets, s2.tickets, fp.tickets, ticket_id@, used);
            lemma_insert_inside(s2.tickets, s1.tickets, fp.tickets, ticket_id@, used);
        }
    }
}

/// `transfer_ticket` is confined to the ticket and both accounts' holdings
/// for its event.
pub proof fn lemma_transfer_ticket_is_confined(
    s1: TicketingState,
    s2: TicketingState,
    ticket_id: Symbol,
    from: Address,
    to: Address,
)
    requires
        agree_on(s1, s2, transfer_ticket_footprint(s1, ticket_id, from, to)),
    ensures
        transfer_ticket_footprint(s2, ticket_id, from, to) == transfer_ticket_footprint(
            s1,
            ticket_id,
            from,
            to,
        ),
        confined_to(
            transfer_ticket_footprint(s1, ticket_id, from, to),
            s1,
            s2,
            transfer_ticket_step(s1, ticket_id, from, to),
            transfer_ticket_step(s2, ticket_id, from, to),
        ),
{
    let fp = transfer_ticket_footprint(s1, ticket_id, from, to);
    lemma_agree_at(s1.tickets, s2.tickets, fp.tickets, ticket_id@);
    if s1.tickets.contains_key(ticket_id@) {
        let ticket = s1.tickets[ticket_id@];
        let ev = ticket.event_id@;
        lemma_agree_at(s1.holdings, s2.holdings, fp.holdings, (to@, ev));
        if transfer_ticket_step(s1, ticket_id, from, to).1 is Ok {
            let moved = Ticket { owner: to, ..ticket };
            lemma_insert_inside(s1.tickets, s2.tickets, fp.tickets, ticket_id@, moved);
            lemma_insert_inside(s2.tickets, s1.tickets, fp.tickets, ticket_id@, moved);
            lemma_remove_inside(s1.holdings, s2.holdings, fp.holdings, (from@, ev));
            lemma_remove_inside(s2.holdings, s1.holdings, fp.holdings, (from@, ev));
            lemma_insert_inside(
                s1.holdings.remove((from@, ev)),
                s2.holdings.remove((from@, ev)),
                fp.holdings,
                (to@, ev),
                ticket.ticket_id@,
            );
            lemma_insert_inside(
                s2.holdings.remove((from@, ev)),
                s1.holdings.remove((from@, ev)),
                fp.holdings,
                (to@, ev),
                ticket.ticket_id@,
            );
        }
    }
}

/// `cancel_event` is confined to the administrator and the event.
pub proof fn lemma_cancel_event_is_confined(
    s1: TicketingState,
    s2: TicketingState,
    event_id: Symbol,
    organizer: Address,
)
    requires
        agree_on(s1, s2, cancel_event_footprint(event_id)),
    ensures
        confined_to(
            cancel_event_footprint(event_id),
            s1,
            s2,
            cancel_event_step(s1, event_id, organizer),
            cancel_event_step(s2, event_id, organizer),
        ),
{
    let fp = cancel_event_footprint(event_id);
    lemma_agree_at(s1.events, s2.events, fp.events, event_id@);
    if cancel_event_step(s1, event_id, organizer).1 is Ok {
        let canceled = Event { active: false, ..s1.events[event_id@] };
        lemma_insert_inside(s1.events, s2.events, fp.events, event_id@, canceled);
        lemma_insert_inside(s2.events, s1.events, fp.events, event_id@, canceled);
    }
}

/// The reads are confined too: `verify_ticket` answers alike in two states
/// that agree on the ticket and its event, and `get_event` and `get_ticket`
/// in two states that agree on the key they read.
pub proof fn lemma_reads_are_confined(s1: TicketingState, s2: TicketingState, ticket_id: Symbol, event_id: Symbol)
    ensures
        agree_on(s1, s2, verify_ticket_footprint(s1, ticket_id)) ==> ticket_admits(s1, ticket_id@)
            == ticket_admits(s2, ticket_id@),
        s1.events.restrict(set![event_id@]) == s2.events.restrict(set![event_id@]) ==> event_lookup(
            s1,
            event_id@,
        ) == event_lookup(s2, event_id@),
        s1.tickets.restrict(set![ticket_id@]) == s2.tickets.restrict(set![ticket_id@])
            ==> ticket_lookup(s1, ticket_id@) == ticket_lookup(s2, ticket_id@),
{
    let fp = verify_ticket_footprint(s1, ticket_id);
    if agree_on(s1, s2, fp) {
        lemma_agree_at(s1.tickets, s2.tickets, fp.tickets, ticket_id@);
        if s1.tickets.contains_key(ticket_id@) {
            lemma_agree_at(s1.events, s2.events, fp.events, s1.tickets[ticket_id@].event_id@);
        }
    }
    if s1.events.restrict(set![event_id@]) == s2.events.restrict(set![event_id@]) {
        lemma_agree_at(s1.events, s2.events, set![event_id@], event_id@);
    }
    if s1.tickets.restrict(set![ticket_id@]) == s2.tickets.restrict(set![ticket_id@]) {
        lemma_agree_at(s1.tickets, s2.tickets, set![ticket_id@], ticket_id@);
    }
}

} // verus!
