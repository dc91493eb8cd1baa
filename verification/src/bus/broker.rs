//! The topic registry: which topics exist, and the channel behind each.
//!
//! [`State`] is the mapping itself and knows nothing of threads; its
//! contracts are exact. [`MessageStore`] is the shared handle that every
//! connection handler holds: it guards one `State` with a lock that is
//! only ever tried, never waited for.

use crate::bus::channel::{capacity_made, message_channel};
use crate::bus::error::MessageStoreError;
use crate::bus::lock::share;
use crate::bus::protocol::Message;
use crate::bus::topic::Topic;
use std::ops::{Deref, DerefMut};
use std::sync::{Arc, Mutex};
use tokio::sync::broadcast::{Receiver, Sender};
use vstd::hash_map::StringHashMap;
use vstd::prelude::*;

verus! {

/// How many messages the channel of a topic keeps for its slowest subscriber.
pub const CHAN_CAPACITY: usize = 1024;

/// The topics after a request to create `name`.
pub open spec fn made(names: Set<Seq<char>>, name: Seq<char>) -> Set<Seq<char>> {
    names.insert(name)
}

/// How a request to create `name` fails, if it does.
pub open spec fn make_error(names: Set<Seq<char>>, name: Seq<char>) -> Option<MessageStoreError> {
    if names.contains(name) {
        Some(MessageStoreError::TopicExists)
    } else {
        None
    }
}

/// The topics after a request to delete `name`.
pub open spec fn deleted(names: Set<Seq<char>>, name: Seq<char>) -> Set<Seq<char>> {
    names.remove(name)
}

/// How a request that needs `name` to exist fails, if it does: a delete, a
/// publish, a subscribe.
pub open spec fn lookup_error(names: Set<Seq<char>>, name: Seq<char>) -> Option<
    MessageStoreError,
> {
    if names.contains(name) {
        None
    } else {
        Some(MessageStoreError::TopicNotFound)
    }
}

/// The registry: every topic that exists, and for each the sending end of
/// its channel.
pub struct State {
    topics: StringHashMap<Sender<Message>>,
}

impl State {
    /// The mapping itself: for each topic that exists, the sending end of
    /// its channel.
    pub closed spec fn channels(&self) -> Map<Seq<char>, Sender<Message>> {
        self.topics@
    }

    /// The names of the topics that exist.
    pub open spec fn names(&self) -> Set<Seq<char>> {
        self.channels().dom()
    }

    /// A registry without topics.
    pub fn new() -> (state: State)
        ensures
            state.channels() == Map::<Seq<char>, Sender<Message>>::empty(),
            state.names() == Set::<Seq<char>>::empty(),
    {
        State { topics: StringHashMap::new() }
    }

    /// Whether the topic exists.
    pub fn contains(&self, topic: &Topic) -> (present: bool)
        ensures
            present == self.names().contains(topic@),
    {
        self.topics.contains_key(topic.name())
    }

    /// Creates the topic, with a channel of its own made for
    /// [`CHAN_CAPACITY`] messages, unless it exists. The channels of the
    /// other topics are not touched. A refusal changes nothing: the topic
    /// stays on the channel it has, with the receivers that are on it.
    pub fn add_topic(&mut self, topic: Topic) -> (r: Result<Topic, MessageStoreError>)
        ensures
            match r {
                Ok(made_topic) => {
                    &&& made_topic@ == topic@
                    &&& make_error(old(self).names(), topic@) is None
                    &&& final(self).names() == made(old(self).names(), topic@)
                    &&& final(self).channels() == old(self).channels().insert(
                        topic@,
                        final(self).channels()[topic@],
                    )
                    &&& capacity_made(final(self).channels()[topic@]) == CHAN_CAPACITY
                },
                Err(e) => {
                    &&& make_error(old(self).names(), topic@) == Some(e)
                    &&& final(self).channels() == old(self).channels()
                },
            },
    {
        if self.topics.contains_key(topic.name()) {
            return Err(MessageStoreError::TopicExists);
        }
        let (tx, _) = message_channel(CHAN_CAPACITY);
        self.topics.insert(topic.duplicate().0, tx);
        assert(self.topics@.dom() =~= made(old(self).names(), topic@));
        Ok(topic)
    }

    /// Deletes the topic if it exists. Its channel goes with it, and with
    /// the channel what is pending on it: the registry lets go of the
    /// sending end, so that the channel is closed, and a subscription that
    /// finds its channel closed is over without passing on what it had
    /// not read yet ([`Subscription::seen`]). The channels of the other
    /// topics are not touched. A refusal changes nothing.
    ///
    /// [`Subscription::seen`]: crate::bus::connection::Subscription::seen
    pub fn remove_topic(&mut self, topic: Topic) -> (r: Result<Topic, MessageStoreError>)
        ensures
            match r {
                Ok(removed) => {
                    &&& removed@ == topic@
                    &&& lookup_error(old(self).names(), topic@) is None
                    &&& final(self).names() == deleted(old(self).names(), topic@)
                    &&& final(self).channels() == old(self).channels().remove(topic@)
                },
                Err(e) => {
                    &&& lookup_error(old(self).names(), topic@) == Some(e)
                    &&& final(self).channels() == old(self).channels()
                },
            },
    {
        if !self.topics.contains_key(topic.name()) {
            return Err(MessageStoreError::TopicNotFound);
        }
        self.topics.remove(topic.name());
        assert(self.topics@.dom() =~= deleted(old(self).names(), topic@));
        Ok(topic)
    }

    /// One more sending end on the channel of the topic, for use after the
    /// registry has been let go of. The registry itself is not touched: a request for a
    /// topic that does not exist does not create it.
    pub fn channel(&self, topic: &Topic) -> (r: Result<Sender<Message>, MessageStoreError>)
        ensures
            r is Ok == lookup_error(self.names(), topic@) is None,
            r matches Ok(tx) ==> tx == self.channels()[topic@],
            r matches Err(e) ==> lookup_error(self.names(), topic@) == Some(e),
    {
        match self.topics.get(topic.name()) {
            Some(tx) => Ok(tx.clone()),
            None => Err(MessageStoreError::TopicNotFound),
        }
    }
}

impl State {
    /// What a question about a topic's presence is answered with, given
    /// the registry if the lock on it was had: the answer of the registry,
    /// or none where the lock was not had.
    pub fn presence(locked: Option<&State>, topic: &Topic) -> (present: Option<bool>)
        ensures
            match locked {
                Some(state) => present == Some(state.names().contains(topic@)),
                None => present is None,
            },
    {
        match locked {
            Some(state) => Some(state.contains(topic)),
            None => None,
        }
    }

    /// What a lookup of a topic's channel is answered with, given the
    /// registry if the lock on it was had: the answer of the registry, or
    /// the error `busy` where the lock was not had.
    pub fn lookup(locked: Option<&State>, topic: &Topic, busy: MessageStoreError) -> (r: Result<
        Sender<Message>,
        MessageStoreError,
    >)
        ensures
            match locked {
                Some(state) => {
                    &&& r is Ok == state.names().contains(topic@)
                    &&& r matches Ok(tx) ==> tx == state.channels()[topic@]
                    &&& r matches Err(e) ==> e == MessageStoreError::TopicNotFound
                },
                None => r matches Err(e) && e == busy,
            },
    {
        match locked {
            Some(state) => state.channel(topic),
            None => Err(busy),
        }
    }
}

impl Default for State {
    fn default() -> (state: State)
        ensures
            state.channels() == Map::<Seq<char>, Sender<Message>>::empty(),
            state.names() == Set::<Seq<char>>::empty(),
    {
        State::new()
    }
}

/// A topic is there from the `MAKE` that creates it to the `DEL` that
/// deletes it, and neither before nor after: on a registry without the
/// topic, the make succeeds and the topic exists; the delete then succeeds,
/// the topic is gone and the registry is what it was; one more delete fails
/// with "not found" and changes nothing.
pub proof fn lemma_make_then_delete(names: Set<Seq<char>>, name: Seq<char>)
    requires
        !names.contains(name),
    ensures
        make_error(names, name) is None,
        made(names, name).contains(name),
        lookup_error(made(names, name), name) is None,
        !deleted(made(names, name), name).contains(name),
        deleted(made(names, name), name) == names,
        lookup_error(deleted(made(names, name), name), name) == Some(
            MessageStoreError::TopicNotFound,
        ),
        deleted(deleted(made(names, name), name), name) == names,
{
    assert(deleted(made(names, name), name) =~= names);
    assert(deleted(names, name) =~= names);
}

/// What is asked about one topic says nothing about another: making or
/// deleting `name` leaves the presence of every other topic as it was.
pub proof fn lemma_other_topics_untouched(names: Set<Seq<char>>, name: Seq<char>, other: Seq<char>)
    requires
        other != name,
    ensures
        made(names, name).contains(other) == names.contains(other),
        deleted(names, name).contains(other) == names.contains(other),
{
}

/// A second make of the same topic is refused, and so is the delete of a
/// topic that is not there; neither changes the registry.
pub proof fn lemma_refusals_change_nothing(names: Set<Seq<char>>, name: Seq<char>)
    ensures
        names.contains(name) ==> make_error(names, name) == Some(MessageStoreError::TopicExists)
            && made(names, name) == names,
        !names.contains(name) ==> lookup_error(names, name) == Some(
            MessageStoreError::TopicNotFound,
        ) && deleted(names, name) == names,
{
    if names.contains(name) {
        assert(made(names, name) =~= names);
    } else {
        assert(deleted(names, name) =~= names);
    }
}

/// The topics of the registry that a lock was made around: what the lock
/// held when it was new, whatever it has come to hold since.
pub uninterp spec fn made_around(lock: Mutex<State>) -> Set<Seq<char>>;

/// `Mutex::new`: an unlocked mutex that holds the registry given.
#[verifier::external_body]
fn lock_around(state: State) -> (lock: Mutex<State>)
    ensures
        made_around(lock) == state.names(),
{
    Mutex::new(state)
}

/// The shared handle on the registry. Cloning it gives another handle on
/// the same registry.
#[derive(Clone)]
pub struct MessageStore {
    state: Arc<Mutex<State>>,
}

impl MessageStore {
    /// The lock, with the registry behind it, that this handle is on. Two
    /// handles are on the same registry exactly when they are on the same
    /// lock.
    pub closed spec fn shared(&self) -> Mutex<State> {
        *self.state
    }

    /// A handle on a new registry, which starts out without topics.
    pub fn new() -> (store: MessageStore)
        ensures
            made_around(store.shared()) == Set::<Seq<char>>::empty(),
    {
        MessageStore { state: Arc::new(lock_around(State::new())) }
    }

    /// Whether the topic exists; `None` when the registry is in use
    /// elsewhere. The answer for each outcome of the lock attempt is
    /// [`State::presence`]'s to say.
    pub fn contains(&self, name: &str) -> (present: Option<bool>) {
        let topic = Topic::new(name);
        match self.state.try_lock() {
            Ok(guard) => State::presence(Some(guard.deref()), &topic),
            Err(_) => State::presence(None, &topic),
        }
    }

    /// Creates the topic unless it exists. Fails with `TopicExists` if it
    /// does, and with `AddTopic` when the registry is in use elsewhere.
    pub fn add_topic(&self, name: &str) -> (r: Result<Topic, MessageStoreError>)
        ensures
            match r {
                Ok(topic) => topic@ == name@,
                Err(e) => e == MessageStoreError::TopicExists || e == MessageStoreError::AddTopic,
            },
    {
        let topic = Topic::new(name);
        match self.state.try_lock() {
            Ok(mut guard) => guard.deref_mut().add_topic(topic),
            Err(_) => Err(MessageStoreError::AddTopic),
        }
    }

    /// Deletes the topic if it exists. Fails with `TopicNotFound` if it
    /// does not, and with `RemoveTopic` when the registry is in use
    /// elsewhere.
    pub fn remove_topic(&self, name: &str) -> (r: Result<Topic, MessageStoreError>)
        ensures
            match r {
                Ok(topic) => topic@ == name@,
                Err(e) => e == MessageStoreError::TopicNotFound || e
                    == MessageStoreError::RemoveTopic,
            },
    {
        let topic = Topic::new(name);
        match self.state.try_lock() {
            Ok(mut guard) => guard.deref_mut().remove_topic(topic),
            Err(_) => Err(MessageStoreError::RemoveTopic),
        }
    }

    /// The channel of the topic, looked up under the lock and handed out
    /// after the lock is released; `busy` is the error for a registry in
    /// use elsewhere. The answer for each outcome of the lock attempt is
    /// [`State::lookup`]'s to say.
    fn channel(&self, topic: &Topic, busy: MessageStoreError) -> (r: Result<
        Sender<Message>,
        MessageStoreError,
    >)
        ensures
            r matches Err(e) ==> e == MessageStoreError::TopicNotFound || e == busy,
    {
        match self.state.try_lock() {
            Ok(guard) => State::lookup(Some(guard.deref()), topic, busy),
            Err(_) => State::lookup(None, topic, busy),
        }
    }

    /// A new receiver on the topic. It sees what is published from now on
    /// and nothing of what was published before. Fails with `TopicNotFound`
    /// if the topic does not exist, and with `Subscribe` when the registry
    /// is in use elsewhere.
    pub fn subscribe(&self, topic_name: &str) -> (r: Result<Receiver<Message>, MessageStoreError>)
        ensures
            r matches Err(e) ==> e == MessageStoreError::TopicNotFound || e
                == MessageStoreError::Subscribe,
    {
        let topic = Topic::new(topic_name);
        match self.channel(&topic, MessageStoreError::Subscribe) {
            Ok(tx) => Ok(tx.subscribe()),
            Err(e) => Err(e),
        }
    }

    /// Hands the message to every receiver subscribed to the topic right
    /// now; with none subscribed it is dropped. The publisher never waits
    /// for a subscriber. Fails with `TopicNotFound` if the topic does not
    /// exist, and with `Publish` when the registry is in use elsewhere.
    pub fn publish(&self, topic_name: String, msg: Message) -> (r: Result<
        Topic,
        MessageStoreError,
    >)
        ensures
            match r {
                Ok(topic) => topic@ == topic_name@,
                Err(e) => e == MessageStoreError::TopicNotFound || e == MessageStoreError::Publish,
            },
    {
        let topic = Topic(topic_name);
        match self.channel(&topic, MessageStoreError::Publish) {
            Ok(tx) => {
                let _ = tx.send(msg);
                Ok(topic)
            },
            Err(e) => Err(e),
        }
    }
}

impl Default for MessageStore {
    fn default() -> (store: MessageStore)
        ensures
            made_around(store.shared()) == Set::<Seq<char>>::empty(),
    {
        MessageStore::new()
    }
}

/// Owns the registry for the lifetime of a server and hands out handles
/// on it.
pub struct MessageStoreDropGuard {
    pub store: MessageStore,
}

impl MessageStoreDropGuard {
    /// A guard around a new registry, which starts out without topics.
    pub fn new() -> (guard: MessageStoreDropGuard)
        ensures
            made_around(guard.store.shared()) == Set::<Seq<char>>::empty(),
    {
        MessageStoreDropGuard { store: MessageStore::new() }
    }

    /// One more handle on the registry that the guard owns.
    pub fn store(&self) -> (store: MessageStore)
        ensures
            store.shared() == self.store.shared(),
    {
        MessageStore { state: share(&self.store.state) }
    }
}

} // verus!
