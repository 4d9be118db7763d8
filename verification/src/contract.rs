//! The registry itself: the persistent entity store and the
//! state-transition rules over it.
//!
//! The store is the registry's own: events keyed by identifier, tickets
//! keyed by the pair (owner, ticket sequence number), and an append-only
//! index of event identifiers in creation order. Every operation is one
//! read-validate-write unit; a failing operation leaves the store exactly
//! as it was.

use std::collections::HashMap;
use vstd::prelude::*;

use crate::types::Address;
use crate::types::DataKey;
use crate::types::Event;
use crate::types::EventView;
use crate::types::Ticket;
use crate::types::TicketError;

verus! {

broadcast use vstd::std_specs::hash::group_hash_axioms;

/// Packs a ticket's composite address (owner, ticket sequence number) into
/// one storage key. The owner's 64 bits stand above the 32 bits of the
/// sequence number, so distinct pairs pack to distinct keys.
pub open spec fn ticket_key(owner: Address, ticket_id: u32) -> u128 {
    (owner.id * 0x1_0000_0000 + ticket_id) as u128
}

/// Distinct (owner, ticket sequence number) pairs pack to distinct keys.
pub proof fn lemma_ticket_key_injective(a: Address, i: u32, b: Address, j: u32)
    requires
        ticket_key(a, i) == ticket_key(b, j),
    ensures
        a == b && i == j,
{
    assert(a.id == b.id && i == j) by (nonlinear_arith)
        requires
            a.id * 0x1_0000_0000 + i == b.id * 0x1_0000_0000 + j,
            i < 0x1_0000_0000,
            j < 0x1_0000_0000,
    ;
}

/// Packs a ticket's composite address into its storage key.
fn ticket_key_exec(owner: Address, ticket_id: u32) -> (k: u128)
    ensures
        k == ticket_key(owner, ticket_id),
{
    (owner.id as u128) * 0x1_0000_0000 + (ticket_id as u128)
}

/// The mathematical value of an event store: each identifier mapped to the
/// view of its event.
pub open spec fn event_store_view(m: Map<u32, Event>) -> Map<u32, EventView> {
    Map::new(|id: u32| m.contains_key(id), |id: u32| m[id]@)
}

/// How one `buy_ticket` call relates the registry's state before (`pre`)
/// and after (`post`). The checks run in this order: the event must exist
/// (`NotFound`), have capacity left (`SoldOut`), and the payment must
/// reach its price (`InsufficientPayment`); every failure leaves the state
/// untouched. On success the event's `sold` counter steps up by one and a
/// fresh unused ticket appears at (buyer, old `sold` counter) — the
/// sequence number is drawn from the event's global counter, not scoped
/// per owner.
pub open spec fn buy_transition(
    pre: TicketContract,
    post: TicketContract,
    event_id: u32,
    buyer: Address,
    payment: i128,
    r: Result<(), TicketError>,
) -> bool {
    if !pre.events_view().contains_key(event_id) {
        &&& r == Err::<(), TicketError>(TicketError::NotFound)
        &&& post == pre
    } else {
        let ev = pre.events_view()[event_id];
        if ev.sold >= ev.max_tickets {
            &&& r == Err::<(), TicketError>(TicketError::SoldOut)
            &&& post == pre
        } else if payment < ev.price {
            &&& r == Err::<(), TicketError>(TicketError::InsufficientPayment)
            &&& post == pre
        } else {
            &&& r == Ok::<(), TicketError>(())
            &&& post.events_view() == pre.events_view().insert(
                event_id,
                (EventView { sold: (ev.sold + 1) as u32, ..ev }),
            )
            &&& post.tickets_view() == pre.tickets_view().insert(
                (buyer, ev.sold),
                (Ticket { used: false, event_id }),
            )
            &&& post.index_view() == pre.index_view()
        }
    }
}

/// How one `validate_ticket` call relates the registry's state before
/// (`pre`) and after (`post`). A missing ticket is `NotFound`; an already
/// redeemed ticket answers `Ok(false)` with no write; an unused ticket is
/// marked used and answers `Ok(true)`. `Used` is terminal: no call leads
/// back.
pub open spec fn validate_transition(
    pre: TicketContract,
    post: TicketContract,
    owner: Address,
    ticket_id: u32,
    r: Result<bool, TicketError>,
) -> bool {
    if !pre.tickets_view().contains_key((owner, ticket_id)) {
        &&& r == Err::<bool, TicketError>(TicketError::NotFound)
        &&& post == pre
    } else {
        let t = pre.tickets_view()[(owner, ticket_id)];
        if t.used {
            &&& r == Ok::<bool, TicketError>(false)
            &&& post == pre
        } else {
            &&& r == Ok::<bool, TicketError>(true)
            &&& post.tickets_view() == pre.tickets_view().insert(
                (owner, ticket_id),
                (Ticket { used: true, event_id: t.event_id }),
            )
            &&& post.events_view() == pre.events_view()
            &&& post.index_view() == pre.index_view()
        }
    }
}

/// The mathematical values of a sequence of events.
pub open spec fn views_of(s: Seq<Event>) -> Seq<EventView> {
    s.map_values(|e: Event| e@)
}

/// The events an enumeration of `index` yields, in index order: one entry
/// for each identifier whose event is in the store, identifiers with no
/// event silently skipped.
pub open spec fn listed_events(index: Seq<u32>, events: Map<u32, EventView>) -> Seq<EventView>
    decreases index.len(),
{
    if index.len() == 0 {
        Seq::empty()
    } else {
        let prefix = listed_events(index.drop_last(), events);
        if events.contains_key(index.last()) {
            prefix.push(events[index.last()])
        } else {
            prefix
        }
    }
}

/// The ticketing registry. It owns its storage; one value of this type is
/// the whole persistent state.
pub struct TicketContract {
    events: HashMap<u32, Event>,
    event_index: Vec<u32>,
    tickets: HashMap<u128, Ticket>,
}

impl TicketContract {
    /// The stored events: identifier to mathematical event value.
    pub closed spec fn events_view(self) -> Map<u32, EventView> {
        event_store_view(self.events@)
    }

    /// The event index: every identifier ever created, in creation order.
    pub closed spec fn index_view(self) -> Seq<u32> {
        self.event_index@
    }

    /// The stored tickets, addressed by (owner, ticket sequence number).
    pub closed spec fn tickets_view(self) -> Map<(Address, u32), Ticket> {
        Map::new(
            |p: (Address, u32)| self.tickets@.contains_key(ticket_key(p.0, p.1)),
            |p: (Address, u32)| self.tickets@[ticket_key(p.0, p.1)],
        )
    }

    /// The registry's invariant: no event has sold past its capacity.
    pub open spec fn wf(self) -> bool {
        forall|id: u32|
            self.events_view().contains_key(id) ==> (#[trigger] self.events_view()[id]).sold
                <= self.events_view()[id].max_tickets
    }

    /// An empty registry: no events, no tickets, an empty index.
    pub fn new() -> (c: TicketContract)
        ensures
            c.wf(),
            c.events_view() == Map::<u32, EventView>::empty(),
            c.index_view() == Seq::<u32>::empty(),
            c.tickets_view() == Map::<(Address, u32), Ticket>::empty(),
    {
        let c = TicketContract {
            events: HashMap::new(),
            event_index: Vec::new(),
            tickets: HashMap::new(),
        };
        proof {
            assert(c.events_view() =~= Map::<u32, EventView>::empty());
            assert(c.tickets_view() =~= Map::<(Address, u32), Ticket>::empty());
        }
        c
    }

    /// Creates an event with `sold = 0` under `id` and appends `id` to the
    /// index. No uniqueness check: an existing `id` is silently
    /// overwritten (its `sold` counter resets), yet the index keeps the
    /// old entry and gains a new one.
    pub fn create_event(
        &mut self,
        id: u32,
        name: String,
        description: Vec<u8>,
        datetime: Vec<u8>,
        location: Vec<u8>,
        organizer: String,
        image_url: Vec<u8>,
        max_tickets: u32,
        price: i128,
    )
        requires
            old(self).wf(),
        ensures
            final(self).wf(),
            final(self).events_view() == old(self).events_view().insert(
                id,
                (EventView {
                    name: name@,
                    description: description@,
                    datetime: datetime@,
                    location: location@,
                    organizer: organizer@,
                    image_url: image_url@,
                    max_tickets: max_tickets,
                    sold: 0,
                    price: price,
                }),
            ),
            final(self).index_view() == old(self).index_view().push(id),
            final(self).tickets_view() == old(self).tickets_view(),
    {
        let event = Event {
            name,
            description,
            datetime,
            location,
            organizer,
            image_url,
            max_tickets,
            sold: 0,
            price,
        };
        let ghost v = event@;
        self.events.insert(id, event);
        self.event_index.push(id);
        proof {
            assert(self.events_view() =~= old(self).events_view().insert(id, v));
            assert(self.tickets_view() =~= old(self).tickets_view());
        }
    }

    /// Sells one ticket of the event at `event_id` to `buyer`, who offers
    /// `payment`: the event's `sold` counter becomes the new ticket's
    /// sequence number and steps up by one. Fails without any state change
    /// if the event is absent, sold out, or underpaid.
    pub fn buy_ticket(&mut self, event_id: u32, buyer: Address, payment: i128) -> (r: Result<
        (),
        TicketError,
    >)
        requires
            old(self).wf(),
        ensures
            final(self).wf(),
            buy_transition(*old(self), *final(self), event_id, buyer, payment, r),
    {
        let event = match self.events.get(&event_id) {
            None => {
                return Err(TicketError::NotFound);
            },
            Some(e) => e.clone(),
        };
        if event.sold >= event.max_tickets {
            return Err(TicketError::SoldOut);
        }
        if payment < event.price {
            return Err(TicketError::InsufficientPayment);
        }
        let ticket_id = event.sold;
        let mut event = event;
        event.sold = ticket_id + 1;
        let ghost v = event@;
        self.events.insert(event_id, event);
        let ticket = Ticket { used: false, event_id };
        self.tickets.insert(ticket_key_exec(buyer, ticket_id), ticket);
        proof {
            assert(self.events_view() =~= old(self).events_view().insert(event_id, v));
            assert forall|p: (Address, u32)| p != (buyer, ticket_id) implies ticket_key(p.0, p.1)
                != ticket_key(buyer, ticket_id) by {
                if ticket_key(p.0, p.1) == ticket_key(buyer, ticket_id) {
                    lemma_ticket_key_injective(p.0, p.1, buyer, ticket_id);
                }
            }
            assert(self.tickets_view() =~= old(self).tickets_view().insert(
                (buyer, ticket_id),
                ticket,
            ));
        }
        Ok(())
    }

    /// Redeems the ticket at (owner, ticket_id) exactly once: the first
    /// successful call answers `true` and marks it used; later calls
    /// answer `false` and write nothing. A missing ticket is `NotFound`.
    pub fn validate_ticket(&mut self, owner: Address, ticket_id: u32) -> (r: Result<
        bool,
        TicketError,
    >)
        requires
            old(self).wf(),
        ensures
            final(self).wf(),
            validate_transition(*old(self), *final(self), owner, ticket_id, r),
    {
        let key = ticket_key_exec(owner, ticket_id);
        let ticket = match self.tickets.get(&key) {
            None => {
                return Err(TicketError::NotFound);
            },
            Some(t) => *t,
        };
        if ticket.used {
            return Ok(false);
        }
        let marked = Ticket { used: true, event_id: ticket.event_id };
        self.tickets.insert(key, marked);
        proof {
            assert forall|p: (Address, u32)| p != (owner, ticket_id) implies ticket_key(p.0, p.1)
                != ticket_key(owner, ticket_id) by {
                if ticket_key(p.0, p.1) == ticket_key(owner, ticket_id) {
                    lemma_ticket_key_injective(p.0, p.1, owner, ticket_id);
                }
            }
            assert(self.tickets_view() =~= old(self).tickets_view().insert(
                (owner, ticket_id),
                marked,
            ));
            assert(self.events_view() =~= old(self).events_view());
        }
        Ok(true)
    }

    /// Whether an entity sits at `key`. The event index always exists;
    /// before the first creation it is empty.
    pub open spec fn has_key(self, key: DataKey) -> bool {
        match key {
            DataKey::Event(id) => self.events_view().contains_key(id),
            DataKey::Ticket(owner, ticket_id) => self.tickets_view().contains_key(
                (owner, ticket_id),
            ),
            DataKey::EventList => true,
        }
    }

    /// Asks the store whether an entity sits at `key`.
    pub fn has(&self, key: DataKey) -> (r: bool)
        ensures
            r == self.has_key(key),
    {
        match key {
            DataKey::Event(id) => self.events.contains_key(&id),
            DataKey::Ticket(owner, ticket_id) => self.tickets.contains_key(
                &ticket_key_exec(owner, ticket_id),
            ),
            DataKey::EventList => true,
        }
    }

    /// Enumerates the stored events in creation order: walks the index
    /// and loads each identifier's event, silently skipping identifiers
    /// whose event is missing. Never fails; an empty index yields an
    /// empty sequence.
    pub fn get_all_events_with_details(&self) -> (r: Vec<Event>)
        ensures
            views_of(r@) == listed_events(self.index_view(), self.events_view()),
    {
        let mut out: Vec<Event> = Vec::new();
        let mut i: usize = 0;
        while i < self.event_index.len()
            invariant
                i <= self.event_index@.len(),
                views_of(out@) == listed_events(
                    self.event_index@.subrange(0, i as int),
                    self.events_view(),
                ),
            decreases self.event_index@.len() - i,
        {
            let id = self.event_index[i];
            match self.events.get(&id) {
                Some(e) => {
                    let ghost prev = out@;
                    let loaded = e.clone();
                    let ghost lv = loaded@;
                    out.push(loaded);
                    proof {
                        assert(views_of(out@) =~= views_of(prev).push(lv));
                    }
                },
                None => {},
            }
            proof {
                let sub = self.event_index@.subrange(0, i + 1);
                assert(sub.drop_last() =~= self.event_index@.subrange(0, i as int));
                assert(sub.last() == self.event_index@[i as int]);
            }
            i += 1;
        }
        proof {
            assert(self.event_index@.subrange(0, self.event_index@.len() as int)
                =~= self.event_index@);
        }
        out
    }

    /// Lists the ticket sequence numbers `owner` holds a contiguous run
    /// of, starting at position 0: the scan stops at the first absent
    /// position, and at a hard cap of 1000 positions regardless. Never
    /// fails; an absent position 0 yields an empty sequence. Sequence
    /// numbers are drawn from each event's global counter, so a ticket at
    /// a higher, non-contiguous position is not reported.
    pub fn get_tickets_by_owner(&self, owner: Address) -> (r: Vec<u32>)
        ensures
            r@.len() <= 1000,
            forall|j: int| 0 <= j < r@.len() ==> r@[j] as int == j,
            forall|j: u32|
                j < r@.len() ==> #[trigger] self.tickets_view().contains_key((owner, j)),
            r@.len() < 1000 ==> !self.tickets_view().contains_key((owner, r@.len() as u32)),
    {
        let mut out: Vec<u32> = Vec::new();
        let mut i: u32 = 0;
        let mut go: bool = true;
        while go && i < 1000
            invariant
                i <= 1000,
                out@.len() == i as int,
                forall|j: int| 0 <= j < i ==> out@[j] as int == j,
                forall|j: u32| j < i ==> #[trigger] self.tickets_view().contains_key((owner, j)),
                !go ==> i < 1000 && !self.tickets_view().contains_key((owner, i)),
            decreases 1000 - i, (if go { 1int } else { 0int }),
        {
            if self.has(DataKey::Ticket(owner, i)) {
                out.push(i);
                i = i + 1;
            } else {
                go = false;
            }
        }
        out
    }

    /// Loads the event at `id`, or `None` if no event sits there.
    pub fn get_event(&self, id: u32) -> (r: Option<Event>)
        ensures
            match r {
                Some(e) => self.events_view().contains_key(id) && e@ == self.events_view()[id],
                None => !self.events_view().contains_key(id),
            },
    {
        match self.events.get(&id) {
            Some(e) => Some(e.clone()),
            None => None,
        }
    }

    /// Loads the ticket at (owner, ticket_id), or `None` if no ticket
    /// sits there.
    pub fn get_ticket(&self, owner: Address, ticket_id: u32) -> (r: Option<Ticket>)
        ensures
            match r {
                Some(t) => self.tickets_view().contains_key((owner, ticket_id)) && t
                    == self.tickets_view()[(owner, ticket_id)],
                None => !self.tickets_view().contains_key((owner, ticket_id)),
            },
    {
        match self.tickets.get(&ticket_key_exec(owner, ticket_id)) {
            Some(t) => Some(*t),
            None => None,
        }
    }
}

} // verus!
