//! The entities of the registry: addresses, events, tickets, storage keys
//! and the error taxonomy.

use vstd::prelude::*;

verus! {

/// The identity of a caller, as the host's account abstraction hands it to
/// the registry: an opaque number, only ever compared for equality.
#[derive(Clone, Copy, PartialEq, Eq, Structural, Debug)]
pub struct Address {
    pub id: u64,
}

/// One purchased, redeemable unit, issued against one `Event`'s capacity.
///
/// `used` starts `false` and moves to `true` at most once, on redemption.
/// `event_id` is a non-owning back-reference to the owning `Event`.
#[derive(Clone, Copy, PartialEq, Eq, Structural, Debug)]
pub struct Ticket {
    pub used: bool,
    pub event_id: u32,
}

/// One sellable event: descriptive byte strings, a fixed capacity
/// (`max_tickets`), the running `sold` counter and a `price` in the
/// smallest unit of the settlement currency.
#[derive(Debug)]
pub struct Event {
    pub name: String,
    pub description: Vec<u8>,
    pub datetime: Vec<u8>,
    pub location: Vec<u8>,
    pub organizer: String,
    pub image_url: Vec<u8>,
    pub max_tickets: u32,
    pub sold: u32,
    pub price: i128,
}

/// The mathematical value of an `Event`: every byte string as a sequence.
pub ghost struct EventView {
    pub name: Seq<char>,
    pub description: Seq<u8>,
    pub datetime: Seq<u8>,
    pub location: Seq<u8>,
    pub organizer: Seq<char>,
    pub image_url: Seq<u8>,
    pub max_tickets: u32,
    pub sold: u32,
    pub price: i128,
}

impl View for Event {
    type V = EventView;

    open spec fn view(&self) -> EventView {
        EventView {
            name: self.name@,
            description: self.description@,
            datetime: self.datetime@,
            location: self.location@,
            organizer: self.organizer@,
            image_url: self.image_url@,
            max_tickets: self.max_tickets,
            sold: self.sold,
            price: self.price,
        }
    }
}

/// Copies a byte string.
fn clone_bytes(v: &Vec<u8>) -> (r: Vec<u8>)
    ensures
        r@ == v@,
{
    let r = v.clone();
    proof {
        assert(r@ =~= v@);
    }
    r
}

impl Clone for Event {
    /// An event's copy carries the same mathematical value.
    fn clone(&self) -> (r: Self)
        ensures
            r@ == self@,
    {
        Event {
            name: self.name.clone(),
            description: clone_bytes(&self.description),
            datetime: clone_bytes(&self.datetime),
            location: clone_bytes(&self.location),
            organizer: self.organizer.clone(),
            image_url: clone_bytes(&self.image_url),
            max_tickets: self.max_tickets,
            sold: self.sold,
            price: self.price,
        }
    }
}

/// A composite address in the registry's key space: an `Event` by its
/// identifier, a `Ticket` by the pair (owner, ticket sequence number),
/// and the append-only index of event identifiers.
#[derive(Clone, Copy, PartialEq, Eq, Structural, Debug)]
pub enum DataKey {
    Event(u32),
    Ticket(Address, u32),
    EventList,
}

/// Why an operation failed. Every failure is total: the registry is left
/// exactly as it was.
#[derive(Clone, Copy, PartialEq, Eq, Structural, Debug)]
pub enum TicketError {
    /// The addressed event or ticket is not in the store.
    NotFound,
    /// The event's capacity is exhausted: `sold` has reached `max_tickets`.
    SoldOut,
    /// The supplied payment is below the event's price.
    InsufficientPayment,
}

} // verus!
