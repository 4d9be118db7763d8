//! Laws of the registry, proved once over the transition predicates that
//! the operations' contracts state.

use vstd::prelude::*;

use crate::contract::buy_transition;
use crate::contract::validate_transition;
use crate::contract::TicketContract;
use crate::types::Address;
use crate::types::TicketError;

verus! {

/// Redemption is monotone: no `validate_ticket` call, whatever ticket it
/// addresses and whatever it answers, moves a used ticket back to unused.
pub proof fn law_used_is_monotone(
    pre: TicketContract,
    post: TicketContract,
    owner: Address,
    ticket_id: u32,
    r: Result<bool, TicketError>,
    k: (Address, u32),
)
    requires
        validate_transition(pre, post, owner, ticket_id, r),
        pre.tickets_view().contains_key(k),
        pre.tickets_view()[k].used,
    ensures
        post.tickets_view().contains_key(k),
        post.tickets_view()[k].used,
{
}

/// A sale never un-redeems a ticket either: across `buy_ticket`, every
/// used ticket stays used — except at the one slot the sale writes,
/// (buyer, the event's `sold` counter), where a sale against a second
/// event can overwrite an older ticket with a fresh unused one.
pub proof fn law_buy_preserves_used(
    pre: TicketContract,
    post: TicketContract,
    event_id: u32,
    buyer: Address,
    payment: i128,
    r: Result<(), TicketError>,
    k: (Address, u32),
)
    requires
        buy_transition(pre, post, event_id, buyer, payment, r),
        pre.tickets_view().contains_key(k),
        pre.tickets_view()[k].used,
        pre.events_view().contains_key(event_id) ==> k != (
            buyer,
            pre.events_view()[event_id].sold,
        ),
    ensures
        post.tickets_view().contains_key(k),
        post.tickets_view()[k].used,
{
}

/// Redemption happens exactly once: after `validate_ticket` has answered
/// `true` for (owner, ticket_id), a second call on the same pair answers
/// `false` and leaves the registry untouched, and so does a third.
pub proof fn law_validate_twice(
    s0: TicketContract,
    s1: TicketContract,
    s2: TicketContract,
    s3: TicketContract,
    owner: Address,
    ticket_id: u32,
    r2: Result<bool, TicketError>,
    r3: Result<bool, TicketError>,
)
    requires
        validate_transition(s0, s1, owner, ticket_id, Ok::<bool, TicketError>(true)),
        validate_transition(s1, s2, owner, ticket_id, r2),
        validate_transition(s2, s3, owner, ticket_id, r3),
    ensures
        r2 == Ok::<bool, TicketError>(false),
        s2 == s1,
        r3 == Ok::<bool, TicketError>(false),
        s3 == s1,
{
}

} // verus!
