//! Local state-synchronization engine for a terminal client of a federated
//! chat protocol.
//!
//! The library owns the client's view of the world: the registry of joined
//! rooms, each room's message timeline with its selection cursor and
//! backward-pagination token, and the overlay of reactions keyed by message
//! identity.  Protocol events and user actions are folded into that state by
//! pure handlers; everything the handlers decide (messages to send, events to
//! redact, history pages to fetch, log lines to write) is returned as data,
//! so the surrounding program only performs I/O.

pub mod config;
pub mod events;
pub mod log;
pub mod matrix;
pub mod overlay;
pub mod state;
pub mod ui;
pub mod utils;
