//! `MAKE`: create a topic.

use crate::bus::broker::MessageStore;
use crate::bus::grammar::Command;
use crate::bus::method::{acknowledge, answers, Reply};
use vstd::prelude::*;

verus! {

/// A request to create the topic `subject`.
#[derive(Debug)]
pub struct Make {
    pub subject: String,
}

impl Make {
    /// Creates the topic and returns the acknowledgement, or the refusal
    /// if the topic exists or the registry is in use elsewhere.
    pub fn apply(self, store: &MessageStore) -> (reply: Reply)
        ensures
            answers(reply@, Command::Make, self.subject@),
    {
        let failure = match store.add_topic(self.subject.as_str()) {
            Ok(_) => None,
            Err(e) => Some(e),
        };
        acknowledge(Command::Make, self.subject.as_str(), failure)
    }
}

} // verus!
