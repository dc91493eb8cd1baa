//! A single-process publish/subscribe message bus.
//!
//! Clients create and delete named topics, publish payloads to a topic,
//! and subscribe to receive whatever is published to a topic from then on.
//! Nothing is stored: a message goes to the subscribers of the moment, and
//! a subscriber that is too slow loses the oldest messages it has not read.
//!
//! The modules, from the wire inwards:
//!
//! * [`grammar`] defines the wire format and proves its laws;
//!   [`protocol`] is the codec that implements it.
//! * [`topic`], [`error`] are the small types everything else speaks in.
//! * [`broker`] is the registry of topics.
//! * [`connection`] is one client connection without its socket;
//!   [`client`] pairs one with an identity.
//! * [`method`] applies a decoded frame to registry and connection.
//! * [`server`] holds the per-connection handler, the retry policy for a
//!   failing accept, and shutdown with drain.
//! * [`octets`], [`channel`], [`lock`], [`admission`] declare what the bus
//!   uses of the `bytes` crate, of tokio and of `std::sync`, with the
//!   contracts that are taken on trust.

pub mod admission;
pub mod broker;
pub mod channel;
pub mod client;
pub mod connection;
pub mod error;
pub mod grammar;
pub mod lock;
pub mod method;
pub mod octets;
pub mod protocol;
pub mod server;
pub mod topic;
