//! A ledger-backed ticketing registry.
//!
//! Events are created with a fixed ticket capacity and price, tickets are
//! sold against that capacity, and a ticket can be redeemed exactly once.
//! The registry owns its storage: a key-addressed store of events, tickets
//! and an append-only index of event identifiers in creation order.

pub mod contract;
pub mod laws;
pub mod types;

pub use contract::TicketContract;
pub use types::Address;
pub use types::DataKey;
pub use types::Event;
pub use types::EventView;
pub use types::Ticket;
pub use types::TicketError;
