//! `SUB`: subscribe the connection to a topic.

use crate::bus::broker::MessageStore;
use crate::bus::connection::{extended, Connection};
use crate::bus::grammar::Command;
use crate::bus::method::{acknowledge, answers, Reply};
use crate::bus::topic::Topic;
use vstd::prelude::*;

verus! {

/// A request to subscribe to the topic `subject`.
pub struct Subscribe {
    pub subject: String,
}

impl Subscribe {
    /// Subscribes the connection to the topic. On success nothing is
    /// replied: the connection now holds one subscription more, and what
    /// is published to the topic from here on is the answer. A topic that
    /// does not exist, or a registry in use elsewhere, is answered with a
    /// refusal and leaves the connection as it was. The subscriptions that
    /// the connection holds already are left as they are in either case: a
    /// second subscription to a topic stands beside the first.
    pub fn apply(self, store: &MessageStore, conn: &mut Connection) -> (reply: Reply)
        ensures
            final(conn).buffered() == old(conn).buffered(),
            answers(reply@, Command::Subscribe, self.subject@),
            if reply@ is Silent {
                extended(final(conn).installed(), old(conn).installed(), self.subject@)
            } else {
                final(conn).installed() == old(conn).installed()
            },
            final(conn).topics() == if reply@ is Silent {
                old(conn).topics().push(self.subject@)
            } else {
                old(conn).topics()
            },
    {
        let failure = match store.subscribe(self.subject.as_str()) {
            Ok(rx) => {
                conn.add_subscription(Topic::new(self.subject.as_str()), rx);
                None
            },
            Err(e) => Some(e),
        };
        acknowledge(Command::Subscribe, self.subject.as_str(), failure)
    }
}

} // verus!
