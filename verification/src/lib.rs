//! A ticket office for events: organizers create events, users buy
//! tickets, tickets are verified and used at check-in, passed on to other
//! users, and events can be canceled.
//!
//! [`StellarTicket`] keeps the records of the office; each of its
//! operations answers a request exactly as its step in [`model`] says, and
//! the laws of the office are proved in [`laws`].

pub mod contract;
pub mod error;
pub mod laws;
pub mod model;
pub mod outcomes;
pub mod table;
pub mod types;

pub use contract::StellarTicket;
pub use error::Error;
pub use table::Holder;
pub use types::{Address, Event, Symbol, Ticket};
