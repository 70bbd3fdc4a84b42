//! A datagram broadcast relay: every peer that sends a datagram becomes a
//! subscriber, and every datagram a known peer sends is re-sent to all
//! subscribers.
//!
//! The library holds the relay's state and decisions as verified state
//! machines over in-memory FIFO mailboxes; socket I/O and scheduling are left
//! to the caller.
pub mod addr;
pub mod broadcast;
pub mod client;
pub mod server;
pub mod laws;
