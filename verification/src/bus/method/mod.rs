//! Method dispatch: from a decoded frame to an operation on the registry
//! and the reply that the client is owed.

pub mod del;
pub mod make;
pub mod publish;
pub mod sub;

pub use del::Delete;
pub use make::Make;
pub use publish::Publish;
pub use sub::Subscribe;

use crate::bus::broker::MessageStore;
use crate::bus::connection::{extended, Connection};
use crate::bus::error::MessageStoreError;
use crate::bus::grammar::{Command, Frame};
use crate::bus::octets::{bytes_content, bytes_from_string};
use crate::bus::protocol::MethodFrames;
use bytes::Bytes;
use vstd::prelude::*;
use vstd::string::StringExecFns;
use vstd::utf8::encode_utf8;

verus! {

/// The name of a command as it stands in frames and replies.
pub open spec fn command_name(command: Command) -> Seq<char> {
    match command {
        Command::Make => "MAKE"@,
        Command::Delete => "DEL"@,
        Command::Publish => "PUB"@,
        Command::Subscribe => "SUB"@,
    }
}

/// The line that acknowledges a command.
pub open spec fn ack_text(command: Command, subject: Seq<char>) -> Seq<char> {
    "ACK "@ + command_name(command) + " "@ + subject
}

/// The line that refuses a command, with the reason.
pub open spec fn nack_text(command: Command, subject: Seq<char>, error: MessageStoreError) -> Seq<
    char,
> {
    "NACK "@ + command_name(command) + " "@ + subject + ": "@ + error.text()
}

/// What the client is sent in answer to a command.
pub enum Reply {
    /// The command was carried out.
    Ack(Bytes),
    /// The command was refused; the connection stays usable.
    Nack(Bytes),
    /// Nothing is sent: a subscription answers with the messages to come.
    Silent,
}

/// A reply as a value.
pub enum ReplyView {
    Ack(Seq<u8>),
    Nack(Seq<u8>),
    Silent,
}

impl View for Reply {
    type V = ReplyView;

    open spec fn view(&self) -> ReplyView {
        match self {
            Reply::Ack(line) => ReplyView::Ack(bytes_content(*line)),
            Reply::Nack(line) => ReplyView::Nack(bytes_content(*line)),
            Reply::Silent => ReplyView::Silent,
        }
    }
}

/// The reply owed for a command, given how the registry answered it.
pub open spec fn reply_for(
    command: Command,
    subject: Seq<char>,
    failure: Option<MessageStoreError>,
) -> ReplyView {
    match failure {
        Some(error) => ReplyView::Nack(encode_utf8(nack_text(command, subject, error))),
        None => match command {
            Command::Subscribe => ReplyView::Silent,
            _ => ReplyView::Ack(encode_utf8(ack_text(command, subject))),
        },
    }
}

impl Reply {
    /// The bytes to write to the client, if any.
    pub fn into_bytes(self) -> (line: Option<Bytes>)
        ensures
            match self@ {
                ReplyView::Ack(bytes) => line matches Some(b) && bytes_content(b) == bytes,
                ReplyView::Nack(bytes) => line matches Some(b) && bytes_content(b) == bytes,
                ReplyView::Silent => line is None,
            },
    {
        match self {
            Reply::Ack(line) => Some(line),
            Reply::Nack(line) => Some(line),
            Reply::Silent => None,
        }
    }
}

/// The name of a command as it stands in frames and replies.
pub fn name_of(command: Command) -> (name: &'static str)
    ensures
        name@ == command_name(command),
{
    match command {
        Command::Make => "MAKE",
        Command::Delete => "DEL",
        Command::Publish => "PUB",
        Command::Subscribe => "SUB",
    }
}

/// Writes the reply owed for a command, given how the registry answered
/// it: an acknowledgement where it succeeded (none for a subscription), a
/// refusal with the reason where it failed.
pub fn acknowledge(command: Command, subject: &str, failure: Option<MessageStoreError>) -> (reply:
    Reply)
    ensures
        reply@ == reply_for(command, subject@, failure),
{
    match failure {
        Some(error) => {
            let mut line = "NACK ".to_owned();
            line.append(name_of(command));
            line.append(" ");
            line.append(subject);
            line.append(": ");
            let reason = error.to_string();
            line.append(reason.as_str());
            assert(line@ =~= nack_text(command, subject@, error));
            Reply::Nack(bytes_from_string(line))
        },
        None => match command {
            Command::Subscribe => Reply::Silent,
            _ => {
                let mut line = "ACK ".to_owned();
                line.append(name_of(command));
                line.append(" ");
                line.append(subject);
                assert(line@ =~= ack_text(command, subject@));
                Reply::Ack(bytes_from_string(line))
            },
        },
    }
}

/// A decoded frame, ready to be applied.
pub enum Method {
    Make(Make),
    Delete(Delete),
    Publish(Publish),
    Subscribe(Subscribe),
}

impl View for Method {
    type V = Frame;

    open spec fn view(&self) -> Frame {
        match self {
            Method::Make(m) => Frame::Make(m.subject@),
            Method::Delete(m) => Frame::Delete(m.subject@),
            Method::Publish(m) => Frame::Publish(m.subject@, bytes_content(m.bytes)),
            Method::Subscribe(m) => Frame::Subscribe(m.subject@),
        }
    }
}

impl Method {
    /// The operation that a frame asks for.
    pub fn from_frames(frames: MethodFrames) -> (method: Method)
        ensures
            method@ == frames@,
    {
        match frames {
            MethodFrames::Delete(subject) => Method::Delete(Delete { subject }),
            MethodFrames::Make(subject) => Method::Make(Make { subject }),
            MethodFrames::Publish(subject, bytes) => Method::Publish(Publish { subject, bytes }),
            MethodFrames::Subscribe(subject) => Method::Subscribe(Subscribe { subject }),
        }
    }

    /// Carries the operation out against the registry and the connection,
    /// and returns the reply. No failure of the registry ends the
    /// connection: each becomes a refusal sent to the client. Only a
    /// subscription that succeeds changes the connection.
    pub fn apply(self, store: &MessageStore, conn: &mut Connection) -> (reply: Reply)
        ensures
            final(conn).buffered() == old(conn).buffered(),
            answers(reply@, self@.command(), self@.subject()),
            if reply@ is Silent {
                extended(final(conn).installed(), old(conn).installed(), self@.subject())
            } else {
                final(conn).installed() == old(conn).installed()
            },
            final(conn).topics() == if reply@ is Silent {
                old(conn).topics().push(self@.subject())
            } else {
                old(conn).topics()
            },
    {
        match self {
            Method::Make(m) => m.apply(store),
            Method::Delete(m) => m.apply(store),
            Method::Publish(m) => m.apply(store),
            Method::Subscribe(m) => m.apply(store, conn),
        }
    }

    /// The name of the command.
    pub fn get_name(&self) -> (name: &str)
        ensures
            name@ == command_name(self@.command()),
    {
        match self {
            Method::Make(_) => "MAKE",
            Method::Delete(_) => "DEL",
            Method::Publish(_) => "PUB",
            Method::Subscribe(_) => "SUB",
        }
    }
}

/// How a command fails on account of the topic: a make finds it there, the
/// others do not find it.
pub open spec fn refusal(command: Command) -> MessageStoreError {
    match command {
        Command::Make => MessageStoreError::TopicExists,
        _ => MessageStoreError::TopicNotFound,
    }
}

/// How a command fails when the registry is in use elsewhere.
pub open spec fn busy(command: Command) -> MessageStoreError {
    match command {
        Command::Make => MessageStoreError::AddTopic,
        Command::Delete => MessageStoreError::RemoveTopic,
        Command::Publish => MessageStoreError::Publish,
        Command::Subscribe => MessageStoreError::Subscribe,
    }
}

/// The replies that a command can draw: the one for success, the refusal
/// on account of the topic, and the refusal by a registry in use elsewhere.
/// Which of them it is lies with the registry at the moment of the call.
pub open spec fn answers(reply: ReplyView, command: Command, subject: Seq<char>) -> bool {
    ||| reply == reply_for(command, subject, None)
    ||| reply == reply_for(command, subject, Some(refusal(command)))
    ||| reply == reply_for(command, subject, Some(busy(command)))
}

} // verus!
