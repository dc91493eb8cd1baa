//! The server without its listener: admission, the per-connection handler,
//! the retry policy for a failing accept, shutdown and drain.
//!
//! Sockets are not touched here. Whoever owns them accepts, reads, writes
//! and sleeps, and asks this module what to do next.

use crate::bus::admission::{idle, permits_made, Idle};
use crate::bus::lock::share;
use crate::bus::broker::{made_around, MessageStore, MessageStoreDropGuard, State};
use crate::bus::channel::Missed;
use crate::bus::connection::{extended, Connection, Delivery, Shutdown, Step, Subscription};
use crate::bus::grammar::{framing, Command, Framing};
use crate::bus::method::{busy, refusal, reply_for, Method, ReplyView};
use crate::bus::octets::bytes_content;
use crate::bus::protocol::MethodFrames;
use bytes::Bytes;
use std::sync::Arc;
use tokio::sync::{OwnedSemaphorePermit, Semaphore};
use vstd::prelude::*;

verus! {

/// The first delay after a failed accept, in seconds.
pub const BACKOFF_START: u64 = 1;

/// The longest delay that is still slept; a failure after it is final.
pub const BACKOFF_CEILING: u64 = 64;

/// The most connections that a server can be asked to serve at a time.
pub const MAX_CONNECTIONS: usize = usize::MAX >> 3;

/// The delay that follows `delay`: twice as long.
pub open spec fn next_delay(delay: nat) -> nat {
    2 * delay
}

/// The delay in force after a number of failed accepts in a row.
pub open spec fn delay_after(failures: nat) -> nat
    decreases failures,
{
    if failures == 0 {
        BACKOFF_START as nat
    } else {
        next_delay(delay_after((failures - 1) as nat))
    }
}

/// The retry policy for a listener that fails to accept: sleep, then try
/// again, each time for twice as long, and give up once the delay has
/// passed the ceiling.
pub struct Backoff {
    delay: u64,
}

impl Backoff {
    /// The delay that the next failure will be answered with.
    pub closed spec fn delay(&self) -> nat {
        self.delay as nat
    }

    /// The policy before any failure.
    pub fn new() -> (backoff: Backoff)
        ensures
            backoff.delay() == BACKOFF_START,
    {
        Backoff { delay: BACKOFF_START }
    }

    /// Takes note of a failed accept. Returns the seconds to sleep before
    /// the next attempt, or `None` when the failure is final.
    pub fn on_failure(&mut self) -> (sleep: Option<u64>)
        ensures
            old(self).delay() > BACKOFF_CEILING ==> sleep is None && final(self).delay() == old(
                self,
            ).delay(),
            old(self).delay() <= BACKOFF_CEILING ==> sleep == Some(old(self).delay() as u64)
                && final(self).delay() == next_delay(old(self).delay()),
    {
        if self.delay > BACKOFF_CEILING {
            return None;
        }
        let sleep = self.delay;
        self.delay = self.delay * 2;
        Some(sleep)
    }
}

/// Seven failures in a row are slept on, for 1, 2, 4, 8, 16, 32 and 64
/// seconds; the delay then stands at 128, past the ceiling, so that the
/// eighth failure is final.
pub proof fn lemma_backoff_schedule()
    ensures
        forall|k: nat| k < 7 ==> #[trigger] delay_after(k) <= BACKOFF_CEILING,
        delay_after(0) == 1,
        delay_after(1) == 2,
        delay_after(2) == 4,
        delay_after(3) == 8,
        delay_after(4) == 16,
        delay_after(5) == 32,
        delay_after(6) == 64,
        delay_after(7) == 128,
        delay_after(7) > BACKOFF_CEILING,
{
    reveal_with_fuel(delay_after, 9);
    assert forall|k: nat| k < 7 implies #[trigger] delay_after(k) <= BACKOFF_CEILING by {
        if k == 0 {
        } else if k == 1 {
        } else if k == 2 {
        } else if k == 3 {
        } else if k == 4 {
        } else if k == 5 {
        } else {
            assert(k == 6);
        }
    }
}

/// What has happened on a connection.
pub enum Event {
    /// A frame has been read.
    Frame(MethodFrames),
    /// A receive on the subscription with this index has come back.
    Delivery(usize, Delivery),
    /// A receive on the shutdown channel has come back.
    Shutdown(Result<(), Missed>),
    /// The peer has closed the stream between frames.
    Closed,
    /// The stream has failed, or what came over it is not the protocol.
    Failed,
}

/// What the owner of the socket does next.
pub enum Action {
    /// Write these bytes to the client, then go on.
    Write(Bytes),
    /// Go on; there is nothing to write.
    Continue,
    /// Leave the loop and drop the handler.
    Exit,
}

/// An action as a value.
pub enum ActionView {
    Write(Seq<u8>),
    Continue,
    Exit,
}

impl View for Action {
    type V = ActionView;

    open spec fn view(&self) -> ActionView {
        match self {
            Action::Write(bytes) => ActionView::Write(bytes_content(*bytes)),
            Action::Continue => ActionView::Continue,
            Action::Exit => ActionView::Exit,
        }
    }
}

/// The action that carries a reply out.
pub open spec fn sending(reply: ReplyView) -> ActionView {
    match reply {
        ReplyView::Ack(line) => ActionView::Write(line),
        ReplyView::Nack(line) => ActionView::Write(line),
        ReplyView::Silent => ActionView::Continue,
    }
}

/// The actions that a frame can lead to: the one for success, the one for
/// a refusal on account of the topic, and the one for a refusal by a
/// registry in use elsewhere.
pub open spec fn reactions(action: ActionView, command: Command, subject: Seq<char>) -> bool {
    ||| action == sending(reply_for(command, subject, None))
    ||| action == sending(reply_for(command, subject, Some(refusal(command))))
    ||| action == sending(reply_for(command, subject, Some(busy(command))))
}

/// The two states of a connection.
#[derive(Debug, Clone, Copy, PartialEq, Eq, Structural)]
pub enum Mode {
    /// No subscription is installed.
    Awaiting,
    /// At least one subscription is installed.
    Streaming,
}

/// The coordinator of one connection. It holds the connection, a handle
/// on the registry, a listener for the shutdown notice and one admission
/// permit. The permit goes back to the pool when the handler is dropped,
/// however its loop ended.
#[allow(dead_code)]
pub struct Handler {
    message_store: MessageStore,
    connection: Connection,
    permit: OwnedSemaphorePermit,
    shutdown: Shutdown,
    completion: tokio::sync::mpsc::Sender<()>,
}

impl Handler {
    /// The connection that the handler decides for.
    pub closed spec fn link(&self) -> Connection {
        self.connection
    }

    /// The listener for the shutdown notice.
    pub closed spec fn notice(&self) -> Shutdown {
        self.shutdown
    }

    /// The lock, with the registry behind it, that the handler works on.
    pub closed spec fn registry(&self) -> std::sync::Mutex<State> {
        self.message_store.shared()
    }

    /// The inbound bytes that no frame has consumed yet.
    pub open spec fn buffered(&self) -> Seq<u8> {
        self.link().buffered()
    }

    /// The topics subscribed to, in the order of subscription.
    pub open spec fn topics(&self) -> Seq<Seq<char>> {
        self.link().topics()
    }

    /// Whether the shutdown notice has been heard.
    pub open spec fn heard(&self) -> bool {
        self.notice().heard()
    }

    /// The state of the connection.
    pub open spec fn mode(&self) -> Mode {
        if self.topics().len() == 0 {
            Mode::Awaiting
        } else {
            Mode::Streaming
        }
    }

    /// The state of the connection.
    pub fn state(&self) -> (mode: Mode)
        ensures
            mode == self.mode(),
    {
        if self.connection.subscription_count() == 0 {
            Mode::Awaiting
        } else {
            Mode::Streaming
        }
    }

    /// Whether the shutdown notice has been heard.
    pub fn is_shutdown(&self) -> (heard: bool)
        ensures
            heard == self.heard(),
    {
        self.shutdown.is_shutdown()
    }

    /// The connection, for the caller that feeds it from the socket.
    pub fn connection(&mut self) -> (connection: &mut Connection)
        ensures
            final(self).heard() == old(self).heard(),
            connection.buffered() == old(self).buffered(),
            connection.topics() == old(self).topics(),
            final(self).buffered() == final(connection).buffered(),
            final(self).topics() == final(connection).topics(),
    {
        &mut self.connection
    }

    /// The listener for the shutdown notice, for the caller that waits on
    /// it.
    pub fn shutdown(&mut self) -> (shutdown: &mut Shutdown)
        ensures
            *shutdown == old(self).notice(),
            final(self).notice() == *final(shutdown),
            final(self).link() == old(self).link(),
            final(self).registry() == old(self).registry(),
    {
        &mut self.shutdown
    }

    /// What the loop waits on besides the socket: the subscriptions of the
    /// connection and the listener for the shutdown notice, both at once.
    pub fn sources(&mut self) -> ((subscriptions, shutdown): (
        &mut Vec<Subscription>,
        &mut Shutdown,
    ))
        ensures
            subscriptions@ == old(self).link().installed(),
            *shutdown == old(self).notice(),
            final(self).link().installed() == final(subscriptions)@,
            final(self).notice() == *final(shutdown),
            final(self).buffered() == old(self).buffered(),
            final(self).registry() == old(self).registry(),
    {
        (self.connection.subscriptions(), &mut self.shutdown)
    }

    /// Decides what to do about an event.
    ///
    /// A frame is dispatched, and its reply, if it has one, is to be
    /// written; a subscription that succeeds puts the connection into
    /// streaming mode or keeps it there. A message from a subscription is
    /// to be written as it is. Lag is passed over in silence. A
    /// subscription whose topic is gone is removed. The shutdown notice, the
    /// end of the stream and a failure each end the loop.
    pub fn on_event(&mut self, event: Event) -> (action: Action)
        ensures
            final(self).buffered() == old(self).buffered(),
            final(self).registry() == old(self).registry(),
            final(self).notice().notice_end() == old(self).notice().notice_end(),
            match event {
                Event::Frame(frame) => {
                    &&& reactions(action@, frame@.command(), frame@.subject())
                    &&& if action is Continue {
                        extended(
                            final(self).link().installed(),
                            old(self).link().installed(),
                            frame@.subject(),
                        )
                    } else {
                        final(self).link().installed() == old(self).link().installed()
                    }
                    &&& final(self).topics() == if action is Continue {
                        old(self).topics().push(frame@.subject())
                    } else {
                        old(self).topics()
                    }
                    &&& final(self).heard() == old(self).heard()
                },
                Event::Delivery(index, Delivery::Message(message)) => {
                    &&& action@ == ActionView::Write(message@)
                    &&& final(self).link().installed() == old(self).link().installed()
                    &&& final(self).heard() == old(self).heard()
                },
                Event::Delivery(index, Delivery::Missed(Missed::Closed)) => {
                    &&& action is Continue
                    &&& final(self).link().installed() == if index < old(
                        self,
                    ).link().installed().len() {
                        old(self).link().installed().remove(index as int)
                    } else {
                        old(self).link().installed()
                    }
                    &&& final(self).topics() == if index < old(self).topics().len() {
                        old(self).topics().remove(index as int)
                    } else {
                        old(self).topics()
                    }
                    &&& final(self).heard() == old(self).heard()
                },
                Event::Delivery(index, Delivery::Missed(_)) => {
                    &&& action is Continue
                    &&& final(self).link().installed() == old(self).link().installed()
                    &&& final(self).heard() == old(self).heard()
                },
                Event::Shutdown(outcome) => {
                    &&& final(self).heard() == (old(self).heard() || outcome != Err::<(), Missed>(
                        Missed::Empty,
                    ))
                    &&& final(self).link().installed() == old(self).link().installed()
                    &&& action@ == if final(self).heard() {
                        ActionView::Exit
                    } else {
                        ActionView::Continue
                    }
                },
                Event::Closed => {
                    &&& action is Exit
                    &&& final(self).link().installed() == old(self).link().installed()
                    &&& final(self).heard() == old(self).heard()
                },
                Event::Failed => {
                    &&& action is Exit
                    &&& final(self).link().installed() == old(self).link().installed()
                    &&& final(self).heard() == old(self).heard()
                },
            },
    {
        match event {
            Event::Frame(frame) => {
                let method = Method::from_frames(frame);
                let reply = method.apply(&self.message_store, &mut self.connection);
                match reply.into_bytes() {
                    Some(line) => Action::Write(line),
                    None => Action::Continue,
                }
            },
            Event::Delivery(index, delivery) => match Subscription::on_delivery(delivery) {
                Step::Deliver(message) => Action::Write(message.into_payload()),
                Step::Finish => {
                    self.connection.drop_subscription(index);
                    Action::Continue
                },
                _ => Action::Continue,
            },
            Event::Shutdown(outcome) => {
                self.shutdown.recv(outcome);
                if self.shutdown.is_shutdown() {
                    Action::Exit
                } else {
                    Action::Continue
                }
            },
            Event::Closed => Action::Exit,
            Event::Failed => Action::Exit,
        }
    }

    /// One turn of the loop without waiting: the shutdown notice is looked
    /// for first, then a frame among the bytes that have arrived, then a
    /// message on one of the subscriptions. `Continue` means that nothing
    /// was there to act on.
    pub fn poll(&mut self) -> (action: Action)
        ensures
            old(self).heard() ==> action is Exit,
            final(self).registry() == old(self).registry(),
            final(self).heard() ==> action is Exit && final(self).buffered() == old(
                self,
            ).buffered() && final(self).link().installed() == old(self).link().installed(),
            !final(self).heard() ==> match framing(old(self).buffered(), 0) {
                Framing::Complete(frame, end) => {
                    &&& reactions(action@, frame.command(), frame.subject())
                    &&& final(self).buffered() == old(self).buffered().skip(end)
                    &&& if action is Continue {
                        extended(
                            final(self).link().installed(),
                            old(self).link().installed(),
                            frame.subject(),
                        )
                    } else {
                        final(self).link().installed() == old(self).link().installed()
                    }
                    &&& final(self).topics() == if action is Continue {
                        old(self).topics().push(frame.subject())
                    } else {
                        old(self).topics()
                    }
                },
                Framing::Malformed => {
                    &&& action is Exit
                    &&& final(self).buffered() == old(self).buffered()
                    &&& final(self).link().installed() == old(self).link().installed()
                },
                Framing::Incomplete => {
                    &&& !(action is Exit)
                    &&& final(self).buffered() == old(self).buffered()
                    &&& final(self).topics().len() <= old(self).topics().len()
                },
            },
    {
        if self.shutdown.poll() {
            return Action::Exit;
        }
        match self.connection.parse() {
            Ok(Some(frame)) => {
                return self.on_event(Event::Frame(frame));
            },
            Ok(None) => {},
            Err(_) => {
                return self.on_event(Event::Failed);
            },
        }
        match self.connection.next_message() {
            Some(found) => Action::Write(found.1.into_payload()),
            None => Action::Continue,
        }
    }
}

/// The server without its listener: the registry, the pool of admission
/// permits, the sender of the shutdown notice, and the channel on which the
/// end of the last handler is observed.
///
/// A connection is given a permit before it is served: a handler is only made
/// with a permit in hand, so that no more than the configured number of
/// connections are ever served at a time.
pub struct Server {
    message_store: MessageStoreDropGuard,
    limit_connections: Arc<Semaphore>,
    shutdown_sender: tokio::sync::broadcast::Sender<()>,
    shutdown_complete_tx: Option<tokio::sync::mpsc::Sender<()>>,
    shutdown_complete_rx: tokio::sync::mpsc::Receiver<()>,
}

/// Whether a server is drained, given whether shutdown has been triggered
/// and what a receive on its completion channel came back with: it is once
/// shutdown has been triggered and no sender is left, that is, once the
/// last handler is gone.
pub open spec fn drain_over(stopping: bool, outcome: Result<(), Idle>) -> bool {
    stopping && outcome == Err::<(), Idle>(Idle::Disconnected)
}

impl Server {
    /// Whether shutdown has been triggered.
    pub closed spec fn stopping(&self) -> bool {
        self.shutdown_complete_tx is None
    }

    /// The lock, with the registry behind it, that the server owns.
    pub closed spec fn registry(&self) -> std::sync::Mutex<State> {
        self.message_store.store.shared()
    }

    /// The pool of permits.
    pub closed spec fn pool(&self) -> Semaphore {
        *self.limit_connections
    }

    /// The receiving end of the completion channel.
    pub closed spec fn completion_end(&self) -> tokio::sync::mpsc::Receiver<()> {
        self.shutdown_complete_rx
    }

    /// Decides whether a server is drained, from whether shutdown has been
    /// triggered and what a receive on the completion channel came back
    /// with.
    pub fn is_drained(stopping: bool, outcome: Result<(), Idle>) -> (done: bool)
        ensures
            done == drain_over(stopping, outcome),
    {
        match outcome {
            Err(Idle::Disconnected) => stopping,
            _ => false,
        }
    }

    /// A server that is not shutting down, with a registry that starts out
    /// without topics and a pool made with `n_permits` permits.
    pub fn new(n_permits: usize) -> (server: Server)
        requires
            n_permits <= MAX_CONNECTIONS,
        ensures
            !server.stopping(),
            made_around(server.registry()) == Set::<Seq<char>>::empty(),
            permits_made(server.pool()) == n_permits,
    {
        let notify_shutdown = tokio::sync::broadcast::Sender::new(1);
        proof {
            vstd::bits::lemma_usize_shr_is_div(usize::MAX, 3);
            vstd::arithmetic::power2::lemma2_to64();
        }
        let (shutdown_complete_tx, shutdown_complete_rx) = tokio::sync::mpsc::channel(1);
        Server {
            message_store: MessageStoreDropGuard::new(),
            limit_connections: Arc::new(Semaphore::new(n_permits)),
            shutdown_sender: notify_shutdown,
            shutdown_complete_tx: Some(shutdown_complete_tx),
            shutdown_complete_rx,
        }
    }

    /// One more handle on the registry that the server owns.
    pub fn store(&self) -> (store: MessageStore)
        ensures
            store.shared() == self.registry(),
    {
        self.message_store.store()
    }

    /// The pool of permits itself, for a caller that waits for one.
    pub fn limit(&self) -> (pool: Arc<Semaphore>)
        ensures
            *pool == self.pool(),
    {
        share(&self.limit_connections)
    }

    /// How many more connections can be taken on right now.
    pub fn available_permits(&self) -> (free: usize) {
        self.limit_connections.available_permits()
    }

    /// A handler for a connection that holds `permit`. It starts with no
    /// bytes pending, no subscription and no notice heard. `None` once
    /// shutdown has been triggered: no new work is taken on then.
    pub fn handler(&self, permit: OwnedSemaphorePermit) -> (handler: Option<Handler>)
        ensures
            handler is Some == !self.stopping(),
            handler matches Some(h) ==> {
                &&& h.buffered() == Seq::<u8>::empty()
                &&& h.topics() == Seq::<Seq<char>>::empty()
                &&& !h.heard()
                &&& h.registry() == self.registry()
            },
    {
        match &self.shutdown_complete_tx {
            Some(completion) => Some(
                Handler {
                    message_store: self.message_store.store(),
                    connection: Connection::new(),
                    permit,
                    shutdown: Shutdown::new(self.shutdown_sender.subscribe()),
                    completion: completion.clone(),
                },
            ),
            None => None,
        }
    }

    /// A handler for a new connection if a permit is free; nothing is
    /// waited for. `None` when the server is full or shutting down.
    pub fn try_handler(&self) -> (handler: Option<Handler>)
        ensures
            self.stopping() ==> handler is None,
            handler matches Some(h) ==> {
                &&& h.buffered() == Seq::<u8>::empty()
                &&& h.topics() == Seq::<Seq<char>>::empty()
                &&& !h.heard()
                &&& h.registry() == self.registry()
            },
    {
        match share(&self.limit_connections).try_acquire_owned() {
            Ok(permit) => self.handler(permit),
            Err(_) => None,
        }
    }

    /// Triggers shutdown: every handler is sent the notice, and no handler
    /// is made from here on. Triggering it again does nothing.
    pub fn shutdown(&mut self)
        ensures
            final(self).stopping(),
            final(self).registry() == old(self).registry(),
            final(self).pool() == old(self).pool(),
            final(self).completion_end() == old(self).completion_end(),
    {
        if self.shutdown_complete_tx.is_some() {
            let _ = self.shutdown_sender.send(());
            self.shutdown_complete_tx = None;
        }
    }

    /// Whether shutdown has been triggered and every handler is gone.
    /// Before shutdown the answer is always no.
    ///
    /// After shutdown the answer lies with the completion channel; what is
    /// made of its answer is [`Server::is_drained`]'s to say.
    pub fn drained(&mut self) -> (done: bool)
        ensures
            final(self).stopping() == old(self).stopping(),
            final(self).registry() == old(self).registry(),
            final(self).pool() == old(self).pool(),
            !old(self).stopping() ==> !done && final(self).completion_end() == old(
                self,
            ).completion_end(),
    {
        if self.shutdown_complete_tx.is_some() {
            return false;
        }
        let outcome = match self.shutdown_complete_rx.try_recv() {
            Ok(_) => Ok(()),
            Err(error) => Err(idle(error)),
        };
        Server::is_drained(true, outcome)
    }

    /// The channel on which the end of the last handler shows, for a caller
    /// that waits on it.
    pub fn completion(&mut self) -> (rx: &mut tokio::sync::mpsc::Receiver<()>)
        ensures
            *rx == old(self).completion_end(),
            final(self).completion_end() == *final(rx),
            final(self).stopping() == old(self).stopping(),
            final(self).registry() == old(self).registry(),
            final(self).pool() == old(self).pool(),
    {
        &mut self.shutdown_complete_rx
    }
}

} // verus!
