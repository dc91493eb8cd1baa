//! Verified building blocks for small network services.
//!
//! * [`bus`] is the heart of the crate: a single-process publish/subscribe
//!   message broker, with its wire protocol, its topic registry, its
//!   connections and the decisions of its server.
//! * [`dns`] reads DNS packets out of a fixed buffer.
//! * [`ringhash`] is a consistent-hash ring.
//! * [`bank`] holds the sessions of a small line protocol.
//!
//! Nothing in this crate opens a socket. Each module decides and computes;
//! the program around it reads, writes and waits.

pub mod bank;
pub mod bus;
pub mod dns;
pub mod ringhash;
