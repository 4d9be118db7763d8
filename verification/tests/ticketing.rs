//! End-to-end tests of the ticketing registry: creation, enumeration,
//! sales against capacity, the owner scan and one-time redemption.

use ticketproof::Address;
use ticketproof::DataKey;
use ticketproof::TicketContract;
use ticketproof::TicketError;

/// Creates an event with throwaway descriptive fields.
fn create(c: &mut TicketContract, id: u32, name: &str, max_tickets: u32, price: i128) {
    c.create_event(
        id,
        String::from(name),
        vec![1, 2, 3],
        vec![2, 0, 2, 6],
        vec![9, 9],
        String::from("org"),
        vec![7],
        max_tickets,
        price,
    );
}

#[test]
fn scenario_two_buyers_capacity_and_redemption() {
    let mut c = TicketContract::new();
    let buyer_a = Address { id: 10 };
    let buyer_b = Address { id: 11 };
    let buyer_c = Address { id: 12 };
    create(&mut c, 1, "gig", 2, 100);

    assert_eq!(c.buy_ticket(1, buyer_a, 100), Ok(()));
    let t_a = c.get_ticket(buyer_a, 0).unwrap();
    assert!(!t_a.used);
    assert_eq!(t_a.event_id, 1);
    assert_eq!(c.get_event(1).unwrap().sold, 1);

    assert_eq!(c.buy_ticket(1, buyer_b, 100), Ok(()));
    let t_b = c.get_ticket(buyer_b, 1).unwrap();
    assert!(!t_b.used);
    assert_eq!(c.get_event(1).unwrap().sold, 2);

    assert_eq!(c.buy_ticket(1, buyer_c, 100), Err(TicketError::SoldOut));

    assert_eq!(c.validate_ticket(buyer_a, 0), Ok(true));
    assert_eq!(c.validate_ticket(buyer_a, 0), Ok(false));

    assert_eq!(c.get_tickets_by_owner(buyer_a), vec![0]);
    // Buyer B holds ticket 1, but the scan starts at position 0, which is
    // absent under buyer B: the global numbering leaves the scan empty.
    assert_eq!(c.get_tickets_by_owner(buyer_b), Vec::<u32>::new());
}

#[test]
fn sold_out_leaves_everything_unchanged() {
    let mut c = TicketContract::new();
    let buyer = Address { id: 1 };
    let late = Address { id: 2 };
    create(&mut c, 7, "small", 1, 50);
    assert_eq!(c.buy_ticket(7, buyer, 50), Ok(()));

    assert_eq!(c.buy_ticket(7, late, 500), Err(TicketError::SoldOut));
    assert_eq!(c.get_event(7).unwrap().sold, 1);
    let t = c.get_ticket(buyer, 0).unwrap();
    assert!(!t.used);
    assert_eq!(t.event_id, 7);
    assert!(c.get_ticket(late, 0).is_none());
    assert_eq!(c.get_all_events_with_details().len(), 1);
}

#[test]
fn insufficient_payment_changes_nothing() {
    let mut c = TicketContract::new();
    let buyer = Address { id: 3 };
    create(&mut c, 4, "prix", 2, 100);

    assert_eq!(c.buy_ticket(4, buyer, 99), Err(TicketError::InsufficientPayment));
    assert_eq!(c.get_event(4).unwrap().sold, 0);
    assert!(c.get_ticket(buyer, 0).is_none());
    assert_eq!(c.get_tickets_by_owner(buyer), Vec::<u32>::new());
}

#[test]
fn buy_from_missing_event_is_not_found() {
    let mut c = TicketContract::new();
    assert_eq!(c.buy_ticket(9, Address { id: 5 }, 1000), Err(TicketError::NotFound));
    assert!(c.get_event(9).is_none());
}

#[test]
fn exact_payment_and_overpayment_succeed() {
    let mut c = TicketContract::new();
    let buyer = Address { id: 8 };
    create(&mut c, 2, "pay", 3, 100);
    assert_eq!(c.buy_ticket(2, buyer, 100), Ok(()));
    assert_eq!(c.buy_ticket(2, buyer, 101), Ok(()));
    assert_eq!(c.get_event(2).unwrap().sold, 2);
}

#[test]
fn validate_three_times_redeems_once() {
    let mut c = TicketContract::new();
    let buyer = Address { id: 21 };
    create(&mut c, 1, "door", 5, 10);
    assert_eq!(c.buy_ticket(1, buyer, 10), Ok(()));
    assert!(!c.get_ticket(buyer, 0).unwrap().used);

    assert_eq!(c.validate_ticket(buyer, 0), Ok(true));
    assert!(c.get_ticket(buyer, 0).unwrap().used);
    assert_eq!(c.validate_ticket(buyer, 0), Ok(false));
    assert_eq!(c.validate_ticket(buyer, 0), Ok(false));
    assert!(c.get_ticket(buyer, 0).unwrap().used);
}

#[test]
fn validate_missing_ticket_is_not_found() {
    let mut c = TicketContract::new();
    assert_eq!(c.validate_ticket(Address { id: 1 }, 0), Err(TicketError::NotFound));
    create(&mut c, 1, "gig", 2, 0);
    assert_eq!(c.buy_ticket(1, Address { id: 1 }, 0), Ok(()));
    assert_eq!(c.validate_ticket(Address { id: 1 }, 1), Err(TicketError::NotFound));
    assert_eq!(c.validate_ticket(Address { id: 2 }, 0), Err(TicketError::NotFound));
}

#[test]
fn list_events_follows_creation_order_across_overwrites() {
    let mut c = TicketContract::new();
    let buyer = Address { id: 30 };
    create(&mut c, 5, "first", 10, 1);
    create(&mut c, 3, "second", 20, 2);
    assert_eq!(c.buy_ticket(5, buyer, 1), Ok(()));
    assert_eq!(c.get_event(5).unwrap().sold, 1);

    // Creating id 5 again silently overwrites it: the sold counter resets,
    // and the index keeps both entries.
    create(&mut c, 5, "third", 30, 3);
    assert_eq!(c.get_event(5).unwrap().sold, 0);

    let listed = c.get_all_events_with_details();
    assert_eq!(listed.len(), 3);
    assert_eq!(listed[0].name, "third");
    assert_eq!(listed[0].max_tickets, 30);
    assert_eq!(listed[1].name, "second");
    assert_eq!(listed[2].name, "third");

    // The ticket issued against the overwritten event is orphaned, its
    // back-reference dangling, but untouched.
    let t = c.get_ticket(buyer, 0).unwrap();
    assert_eq!(t.event_id, 5);
    assert!(!t.used);
}

#[test]
fn empty_registry_lists_nothing() {
    let c = TicketContract::new();
    assert!(c.get_all_events_with_details().is_empty());
    assert_eq!(c.get_tickets_by_owner(Address { id: 0 }), Vec::<u32>::new());
}

#[test]
fn event_details_round_trip() {
    let mut c = TicketContract::new();
    c.create_event(
        42,
        String::from("name"),
        vec![0, 255, 1],
        vec![20, 26],
        vec![],
        String::from("organizer"),
        vec![104, 116, 116, 112],
        17,
        -5,
    );
    let e = c.get_event(42).unwrap();
    assert_eq!(e.name, "name");
    assert_eq!(e.description, vec![0, 255, 1]);
    assert_eq!(e.datetime, vec![20, 26]);
    assert_eq!(e.location, Vec::<u8>::new());
    assert_eq!(e.organizer, "organizer");
    assert_eq!(e.image_url, vec![104, 116, 116, 112]);
    assert_eq!(e.max_tickets, 17);
    assert_eq!(e.sold, 0);
    assert_eq!(e.price, -5);
    // A negative price means any larger payment buys.
    assert_eq!(c.buy_ticket(42, Address { id: 6 }, -5), Ok(()));
}

#[test]
fn owner_scan_returns_contiguous_prefix_only() {
    let mut c = TicketContract::new();
    let alice = Address { id: 100 };
    let bob = Address { id: 200 };
    create(&mut c, 1, "run", 10, 0);
    assert_eq!(c.buy_ticket(1, alice, 0), Ok(()));
    assert_eq!(c.buy_ticket(1, alice, 0), Ok(()));
    assert_eq!(c.buy_ticket(1, alice, 0), Ok(()));
    assert_eq!(c.get_tickets_by_owner(alice), vec![0, 1, 2]);

    // Bob takes sequence number 3; Alice's next ticket is number 4, so her
    // scan still stops at the hole in position 3.
    assert_eq!(c.buy_ticket(1, bob, 0), Ok(()));
    assert_eq!(c.buy_ticket(1, alice, 0), Ok(()));
    assert_eq!(c.get_tickets_by_owner(alice), vec![0, 1, 2]);
    assert_eq!(c.get_tickets_by_owner(bob), Vec::<u32>::new());
    assert!(c.get_ticket(alice, 4).is_some());
}

#[test]
fn owner_scan_caps_at_one_thousand() {
    let mut c = TicketContract::new();
    let big = Address { id: 77 };
    create(&mut c, 1, "big", 1100, 0);
    for _ in 0..1001 {
        assert_eq!(c.buy_ticket(1, big, 0), Ok(()));
    }
    let owned = c.get_tickets_by_owner(big);
    assert_eq!(owned.len(), 1000);
    assert_eq!(owned[0], 0);
    assert_eq!(owned[999], 999);
    assert!(c.get_ticket(big, 1000).is_some());
}

#[test]
fn has_answers_for_every_key_kind() {
    let mut c = TicketContract::new();
    let buyer = Address { id: 9 };
    assert!(c.has(DataKey::EventList));
    assert!(!c.has(DataKey::Event(1)));
    assert!(!c.has(DataKey::Ticket(buyer, 0)));
    create(&mut c, 1, "gig", 1, 0);
    assert!(c.has(DataKey::Event(1)));
    assert!(!c.has(DataKey::Ticket(buyer, 0)));
    assert_eq!(c.buy_ticket(1, buyer, 0), Ok(()));
    assert!(c.has(DataKey::Ticket(buyer, 0)));
    assert!(!c.has(DataKey::Ticket(buyer, 1)));
}

#[test]
fn second_event_can_overwrite_a_redeemed_slot() {
    // The ticket sequence number comes from each event's own counter, so a
    // buyer's slot 0 is shared across events: a sale against a second
    // event overwrites the slot with a fresh unused ticket.
    let mut c = TicketContract::new();
    let buyer = Address { id: 55 };
    create(&mut c, 1, "one", 5, 0);
    assert_eq!(c.buy_ticket(1, buyer, 0), Ok(()));
    assert_eq!(c.validate_ticket(buyer, 0), Ok(true));
    assert!(c.get_ticket(buyer, 0).unwrap().used);

    create(&mut c, 2, "two", 5, 0);
    assert_eq!(c.buy_ticket(2, buyer, 0), Ok(()));
    let t = c.get_ticket(buyer, 0).unwrap();
    assert!(!t.used);
    assert_eq!(t.event_id, 2);
    assert_eq!(c.validate_ticket(buyer, 0), Ok(true));
}
