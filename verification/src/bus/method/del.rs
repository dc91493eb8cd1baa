//! `DEL`: delete a topic.

use crate::bus::broker::MessageStore;
use crate::bus::grammar::Command;
use crate::bus::method::{acknowledge, answers, Reply};
use vstd::prelude::*;

verus! {

/// A request to delete the topic `subject`.
#[derive(Debug)]
pub struct Delete {
    pub subject: String,
}

impl Delete {
    /// Deletes the topic and returns the acknowledgement, or the refusal
    /// if the topic does not exist or the registry is in use elsewhere.
    pub fn apply(self, store: &MessageStore) -> (reply: Reply)
        ensures
            answers(reply@, Command::Delete, self.subject@),
    {
        let failure = match store.remove_topic(self.subject.as_str()) {
            Ok(_) => None,
            Err(e) => Some(e),
        };
        acknowledge(Command::Delete, self.subject.as_str(), failure)
    }
}

} // verus!
