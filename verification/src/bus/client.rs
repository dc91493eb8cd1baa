//! A subscriber: a connection, a receiver, and an identity.

use crate::bus::connection::Connection;
use crate::bus::protocol::Message;
use tokio::sync::broadcast::Receiver;
use uuid::Uuid;
use vstd::prelude::*;

verus! {

/// A universally unique identifier. Opaque.
#[verifier::external_type_specification]
#[verifier::external_body]
pub struct ExUuid(uuid::Uuid);

/// `Uuid::new_v4`: a random identifier, drawn from the random numbers of
/// the operating system. Two calls are not promised to differ, and nothing
/// else is promised either. The crate panics where the operating system
/// has no random numbers to give.
pub assume_specification[ Uuid::new_v4 ]() -> (id: Uuid)
;

/// A client that is subscribed: its connection, its receiver, and an
/// identifier drawn at random when it was made.
pub struct Subscriber {
    pub id: Uuid,
    conn: Connection,
    rcv: Receiver<Message>,
}

impl Subscriber {
    /// The inbound bytes of the connection that no frame has consumed yet.
    pub closed spec fn buffered(&self) -> Seq<u8> {
        self.conn.buffered()
    }

    /// The topics that the connection is subscribed to.
    pub closed spec fn topics(&self) -> Seq<Seq<char>> {
        self.conn.topics()
    }

    /// A subscriber on the given connection, with a fresh identifier. The
    /// connection is taken as it is.
    pub fn new(conn: Connection, rcv: Receiver<Message>) -> (subscriber: Subscriber)
        ensures
            subscriber.buffered() == conn.buffered(),
            subscriber.topics() == conn.topics(),
    {
        Subscriber { id: Uuid::new_v4(), conn, rcv }
    }

    /// Gives the connection and the receiver back.
    pub fn into_parts(self) -> (parts: (Connection, Receiver<Message>))
        ensures
            parts.0.buffered() == self.buffered(),
            parts.0.topics() == self.topics(),
    {
        (self.conn, self.rcv)
    }
}

} // verus!
