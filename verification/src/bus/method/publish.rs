//! `PUB`: publish a payload to a topic.

use crate::bus::broker::MessageStore;
use crate::bus::grammar::Command;
use crate::bus::method::{acknowledge, answers, Reply};
use crate::bus::protocol::Message;
use bytes::Bytes;
use vstd::prelude::*;

verus! {

/// A request to publish `bytes` to the topic `subject`.
pub struct Publish {
    pub subject: String,
    pub bytes: Bytes,
}

impl Publish {
    /// Publishes the payload and returns the acknowledgement, or the
    /// refusal if the topic does not exist or the registry is in use
    /// elsewhere. The publisher is acknowledged whether or not anyone is
    /// subscribed.
    pub fn apply(self, store: &MessageStore) -> (reply: Reply)
        ensures
            answers(reply@, Command::Publish, self.subject@),
    {
        let msg = Message::new(self.bytes);
        let failure = match store.publish(self.subject.clone(), msg) {
            Ok(_) => None,
            Err(e) => Some(e),
        };
        acknowledge(Command::Publish, self.subject.as_str(), failure)
    }
}

} // verus!
