//! Errors of the registry and of the frame codec.

use vstd::prelude::*;

verus! {

/// Why a registry operation failed.
///
/// The first four variants name the operation that found the registry
/// locked by another handler; the caller may simply try again. The last
/// two are answers about the topic itself.
#[derive(Debug, Clone, Copy, PartialEq, Eq, Structural)]
pub enum MessageStoreError {
    /// `add_topic` could not take the registry lock.
    AddTopic,
    /// `remove_topic` could not take the registry lock.
    RemoveTopic,
    /// `subscribe` could not take the registry lock.
    Subscribe,
    /// `publish` could not take the registry lock.
    Publish,
    /// The topic to create is already there.
    TopicExists,
    /// The topic named does not exist.
    TopicNotFound,
}

impl MessageStoreError {
    /// True for the failures that say nothing about the topic, only that the
    /// registry was busy.
    pub open spec fn is_transient(self) -> bool {
        self == MessageStoreError::AddTopic || self == MessageStoreError::RemoveTopic
            || self == MessageStoreError::Subscribe || self == MessageStoreError::Publish
    }

    /// The text shown to a client.
    pub open spec fn text(self) -> Seq<char> {
        match self {
            MessageStoreError::TopicExists => "topic already exists"@,
            MessageStoreError::TopicNotFound => "topic not found"@,
            _ => "registry busy"@,
        }
    }

    /// Renders the error for a client.
    pub fn to_string(&self) -> (s: String)
        ensures
            s@ == self.text(),
    {
        match self {
            MessageStoreError::TopicExists => "topic already exists".to_owned(),
            MessageStoreError::TopicNotFound => "topic not found".to_owned(),
            _ => "registry busy".to_owned(),
        }
    }
}

/// The two ways in which bytes can fail to be a frame.
#[derive(Debug, Clone, Copy, PartialEq, Eq, Structural)]
pub enum ParsingErrorKind {
    /// The bytes seen so far end before the frame does: more are needed.
    Incomplete,
    /// The bytes cannot be the start of any frame.
    Malformed,
}

/// A failure of the frame codec.
#[derive(Debug, Clone, Copy, PartialEq, Eq, Structural)]
pub struct ParsingError {
    pub kind: ParsingErrorKind,
}

impl ParsingError {
    /// The error for input that stops short.
    pub fn incomplete() -> (e: ParsingError)
        ensures
            e.kind == ParsingErrorKind::Incomplete,
    {
        ParsingError { kind: ParsingErrorKind::Incomplete }
    }

    /// The error for input that no frame starts with.
    pub fn malformed() -> (e: ParsingError)
        ensures
            e.kind == ParsingErrorKind::Malformed,
    {
        ParsingError { kind: ParsingErrorKind::Malformed }
    }

    /// The text shown to a client.
    pub open spec fn text(self) -> Seq<char> {
        match self.kind {
            ParsingErrorKind::Incomplete => "parsing error: incomplete frame"@,
            ParsingErrorKind::Malformed => "parsing error: malformed frame"@,
        }
    }

    /// Renders the error for a client.
    pub fn to_string(&self) -> (s: String)
        ensures
            s@ == self.text(),
    {
        match self.kind {
            ParsingErrorKind::Incomplete => "parsing error: incomplete frame".to_owned(),
            ParsingErrorKind::Malformed => "parsing error: malformed frame".to_owned(),
        }
    }
}

} // verus!
