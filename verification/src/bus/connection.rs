//! One client connection, without its socket.
//!
//! A [`Connection`] owns the bytes that have arrived and not yet been
//! consumed, and the subscriptions that the client has taken out. Whoever
//! owns the socket reads from it and hands the bytes over; the decisions
//! are made here.

use crate::bus::channel::{missed, Missed};
use crate::bus::error::{ParsingError, ParsingErrorKind};
use crate::bus::grammar::{
    framing, lemma_framing_bounds, lemma_prefix_incomplete, lemma_round_trip, Frame, Framing,
};
use crate::bus::octets::{
    buffer_advance, buffer_as_slice, buffer_content, buffer_extend, buffer_len,
    buffer_with_capacity,
};
use crate::bus::protocol::{Cursor, Message, MethodFrames, Parser};
use crate::bus::topic::Topic;
use bytes::BytesMut;
use tokio::sync::broadcast::Receiver;
use vstd::prelude::*;

verus! {

/// The room set aside for inbound bytes when a connection is made.
pub const BUF_SIZE: usize = 4096;

/// What one receive on a channel came back with.
pub enum Delivery {
    /// The next message.
    Message(Message),
    /// No message, and why.
    Missed(Missed),
}

/// What a subscription does about a delivery.
pub enum Step {
    /// Pass the message on to the client.
    Deliver(Message),
    /// Messages were lost to lag. Say nothing and receive again.
    Resume,
    /// Nothing is waiting. Receive again later.
    Wait,
    /// The topic is gone. The subscription is over.
    Finish,
}

/// A delivery as a value: the payload, or the reason for none.
pub open spec fn delivery_view(delivery: Delivery) -> Result<Seq<u8>, Missed> {
    match delivery {
        Delivery::Message(message) => Ok(message@),
        Delivery::Missed(why) => Err(why),
    }
}

/// A step as a value.
pub enum StepView {
    Deliver(Seq<u8>),
    Resume,
    Wait,
    Finish,
}

impl View for Step {
    type V = StepView;

    open spec fn view(&self) -> StepView {
        match self {
            Step::Deliver(message) => StepView::Deliver(message@),
            Step::Resume => StepView::Resume,
            Step::Wait => StepView::Wait,
            Step::Finish => StepView::Finish,
        }
    }
}

/// What a subscription does about a delivery: a message is passed on as it
/// is, lag is made up for by receiving again, an empty channel is waited
/// on, and a closed one ends the subscription.
pub open spec fn reaction(delivery: Result<Seq<u8>, Missed>) -> StepView {
    match delivery {
        Ok(payload) => StepView::Deliver(payload),
        Err(Missed::Lagged(_)) => StepView::Resume,
        Err(Missed::Empty) => StepView::Wait,
        Err(Missed::Closed) => StepView::Finish,
    }
}

/// The payloads that a subscription passes on, in order, when its receives
/// come back with `deliveries` one after the other: it reacts to each, and
/// stops at the first that ends it.
pub open spec fn passed_on(deliveries: Seq<Result<Seq<u8>, Missed>>) -> Seq<Seq<u8>>
    decreases deliveries.len(),
{
    if deliveries.len() == 0 {
        Seq::<Seq<u8>>::empty()
    } else {
        match reaction(deliveries[0]) {
            StepView::Deliver(payload) => seq![payload] + passed_on(deliveries.drop_first()),
            StepView::Finish => Seq::<Seq<u8>>::empty(),
            _ => passed_on(deliveries.drop_first()),
        }
    }
}

/// A topic together with a receiver on its channel. Lag does not end a
/// subscription: the subscriber loses messages and keeps its place in line.
pub struct Subscription {
    topic: Topic,
    rx: Receiver<Message>,
}

impl Subscription {
    /// The name of the topic subscribed to.
    pub closed spec fn topic_name(&self) -> Seq<char> {
        self.topic@
    }

    /// The receiving end that the subscription reads its channel with.
    pub closed spec fn channel_end(&self) -> Receiver<Message> {
        self.rx
    }

    /// Pairs a receiver with the topic it listens to.
    pub fn new(topic: Topic, rx: Receiver<Message>) -> (subscription: Subscription)
        ensures
            subscription.topic_name() == topic@,
            subscription.channel_end() == rx,
    {
        Subscription { topic, rx }
    }

    /// The topic subscribed to.
    pub fn topic(&self) -> (topic: &Topic)
        ensures
            topic@ == self.topic_name(),
    {
        &self.topic
    }

    /// The receiver, for a caller that waits on it. What the wait returns
    /// goes to [`Subscription::on_delivery`].
    pub fn receiver(&mut self) -> (rx: &mut Receiver<Message>)
        ensures
            *rx == old(self).channel_end(),
            final(self).channel_end() == *final(rx),
            final(self).topic_name() == old(self).topic_name(),
    {
        &mut self.rx
    }

    /// Decides what to do about a delivery: a message is passed on as it
    /// is, lag is absorbed, an empty channel is waited on, a closed one ends
    /// the subscription.
    pub fn on_delivery(delivery: Delivery) -> (step: Step)
        ensures
            step@ == reaction(delivery_view(delivery)),
            delivery matches Delivery::Message(message) ==> step == Step::Deliver(message),
    {
        match delivery {
            Delivery::Message(message) => Step::Deliver(message),
            Delivery::Missed(Missed::Lagged(_)) => Step::Resume,
            Delivery::Missed(Missed::Empty) => Step::Wait,
            Delivery::Missed(Missed::Closed) => Step::Finish,
        }
    }

    /// What a subscription makes of a delivery, given whether its channel
    /// is closed. A channel is closed once its topic is deleted, and with
    /// the topic goes what was pending on it: a delivery on a closed
    /// channel counts as "closed", whatever it brought. On an open channel
    /// the delivery stands as it is.
    pub fn seen(closed: bool, delivery: Delivery) -> (seen: Delivery)
        ensures
            delivery_view(seen) == seen_on(closed, delivery_view(delivery)),
            !closed ==> seen == delivery,
    {
        if closed {
            Delivery::Missed(Missed::Closed)
        } else {
            delivery
        }
    }

    /// Receives once without waiting and decides what to do about it.
    /// What comes back lies with the channel; what is made of it is for
    /// [`Subscription::seen`] and [`Subscription::on_delivery`] to say.
    pub fn poll(&mut self) -> (step: Step)
        ensures
            final(self).topic_name() == old(self).topic_name(),
    {
        let closed = self.rx.is_closed();
        let delivery = match self.rx.try_recv() {
            Ok(message) => Delivery::Message(message),
            Err(error) => Delivery::Missed(missed(error)),
        };
        Subscription::on_delivery(Subscription::seen(closed, delivery))
    }
}

/// A delivery as it counts on a channel that is closed or open: on a closed
/// channel every delivery counts as "closed".
pub open spec fn seen_on(closed: bool, delivery: Result<Seq<u8>, Missed>) -> Result<
    Seq<u8>,
    Missed,
> {
    if closed {
        Err(Missed::Closed)
    } else {
        delivery
    }
}

/// Deleting a topic discards what is pending for its subscribers: from the
/// first delivery that is seen on the closed channel on, nothing is passed
/// on, whatever that delivery and the later ones bring.
pub proof fn lemma_closed_discards(
    delivery: Result<Seq<u8>, Missed>,
    later: Seq<Result<Seq<u8>, Missed>>,
)
    ensures
        passed_on(seq![seen_on(true, delivery)] + later) == Seq::<Seq<u8>>::empty(),
{
}

/// Whether `after` is `before` with one subscription more behind it, to
/// the topic named: the subscriptions that were there are there as they
/// were, receivers and all.
pub open spec fn extended(after: Seq<Subscription>, before: Seq<Subscription>, topic: Seq<char>) -> bool {
    &&& after.len() == before.len() + 1
    &&& after.drop_last() == before
    &&& after.last().topic_name() == topic
}

/// The payloads among the deliveries, in order.
pub open spec fn messages_in(deliveries: Seq<Result<Seq<u8>, Missed>>) -> Seq<Seq<u8>>
    decreases deliveries.len(),
{
    if deliveries.len() == 0 {
        Seq::<Seq<u8>>::empty()
    } else {
        match deliveries[0] {
            Ok(payload) => seq![payload] + messages_in(deliveries.drop_first()),
            Err(_) => messages_in(deliveries.drop_first()),
        }
    }
}

/// While the channel stays open, a subscription passes on every message
/// that its receives bring, in the order in which they bring them, and
/// nothing else: it adds nothing, drops nothing and reorders nothing. What
/// a slow subscriber loses, it loses in the channel, which then reports
/// the lag in place of the messages.
pub proof fn lemma_passes_on_what_arrives(deliveries: Seq<Result<Seq<u8>, Missed>>)
    requires
        forall|i: int|
            0 <= i < deliveries.len() ==> (#[trigger] deliveries[i]) != Err::<Seq<u8>, Missed>(
                Missed::Closed,
            ),
    ensures
        passed_on(deliveries) == messages_in(deliveries),
    decreases deliveries.len(),
{
    if deliveries.len() > 0 {
        let rest = deliveries.drop_first();
        assert forall|i: int| 0 <= i < rest.len() implies (#[trigger] rest[i]) != Err::<
            Seq<u8>,
            Missed,
        >(Missed::Closed) by {
            assert(rest[i] == deliveries[i + 1]);
        }
        lemma_passes_on_what_arrives(rest);
        assert(deliveries[0] != Err::<Seq<u8>, Missed>(Missed::Closed));
    }
}

/// A subscriber that never lags loses nothing: where every receive brings a
/// message, what the subscription passes on is exactly those messages, in
/// the order in which the channel gave them.
pub proof fn lemma_no_lag_no_loss(events: Seq<Result<Seq<u8>, Missed>>)
    requires
        forall|i: int| 0 <= i < events.len() ==> (#[trigger] events[i]) is Ok,
    ensures
        passed_on(events).len() == events.len(),
        forall|i: int| 0 <= i < events.len() ==> events[i] == Ok::<Seq<u8>, Missed>(
            #[trigger] passed_on(events)[i],
        ),
    decreases events.len(),
{
    if events.len() > 0 {
        let rest = events.drop_first();
        assert forall|i: int| 0 <= i < rest.len() implies (#[trigger] rest[i]) is Ok by {
            assert(rest[i] == events[i + 1]);
        }
        lemma_no_lag_no_loss(rest);
        assert forall|i: int| 0 <= i < events.len() implies events[i] == Ok::<Seq<u8>, Missed>(
            #[trigger] passed_on(events)[i],
        ) by {
            if i > 0 {
                assert(rest[i - 1] == events[i]);
                assert(passed_on(events)[i] == passed_on(rest)[i - 1]);
            }
        }
    }
}

/// Lag and an empty channel pass nothing on and end nothing: the
/// subscription goes on with what comes next. A closed channel ends it:
/// whatever comes after is not passed on.
pub proof fn lemma_passed_on_step(
    event: Result<Seq<u8>, Missed>,
    later: Seq<Result<Seq<u8>, Missed>>,
)
    ensures
        passed_on(seq![event] + later) == match event {
            Ok(payload) => seq![payload] + passed_on(later),
            Err(Missed::Closed) => Seq::<Seq<u8>>::empty(),
            Err(_) => passed_on(later),
        },
{
    assert((seq![event] + later).drop_first() =~= later);
}

/// Why a connection cannot go on.
#[derive(Debug, Clone, Copy, PartialEq, Eq, Structural)]
pub enum ConnectionError {
    /// The bytes received are not a frame, and no later byte can mend
    /// that: framing is lost.
    Malformed,
    /// The peer closed the stream in the middle of a frame.
    Reset,
    /// More bytes are pending than memory can address.
    Overflow,
}

impl ConnectionError {
    /// The text for a log or a client.
    pub open spec fn text(self) -> Seq<char> {
        match self {
            ConnectionError::Malformed => "parsing error!"@,
            ConnectionError::Reset => "connection reset by peer"@,
            ConnectionError::Overflow => "inbound buffer overflow"@,
        }
    }

    /// Renders the error.
    pub fn to_string(&self) -> (s: String)
        ensures
            s@ == self.text(),
    {
        match self {
            ConnectionError::Malformed => "parsing error!".to_owned(),
            ConnectionError::Reset => "connection reset by peer".to_owned(),
            ConnectionError::Overflow => "inbound buffer overflow".to_owned(),
        }
    }
}

/// What the owner of the socket does next while reading a frame.
pub enum ReadAction {
    /// Reading is over: here is the next frame, or `None` because the peer
    /// closed the stream between frames.
    Return(Option<MethodFrames>),
    /// No whole frame is buffered. Read from the socket and come back with
    /// what arrived.
    ReadMore,
    /// The connection is beyond repair.
    Fail(ConnectionError),
}

/// A read action as a value.
pub enum ReadActionView {
    Return(Option<Frame>),
    ReadMore,
    Fail(ConnectionError),
}

impl View for ReadAction {
    type V = ReadActionView;

    open spec fn view(&self) -> ReadActionView {
        match self {
            ReadAction::Return(Some(frame)) => ReadActionView::Return(Some(frame@)),
            ReadAction::Return(None) => ReadActionView::Return(None),
            ReadAction::ReadMore => ReadActionView::ReadMore,
            ReadAction::Fail(e) => ReadActionView::Fail(*e),
        }
    }
}

/// The bytes pending once `received` has come in on top of `buffered`.
/// `None` stands for the call that opens a read, before anything was asked
/// of the socket; zero bytes received mean that the stream has ended, and
/// then nothing changes.
pub open spec fn taken_in(buffered: Seq<u8>, received: Option<Seq<u8>>) -> Seq<u8> {
    match received {
        Some(bytes) if bytes.len() > 0 && buffered.len() + bytes.len() <= isize::MAX => buffered
            + bytes,
        _ => buffered,
    }
}

/// What a turn of the read loop decides, from the bytes pending and the
/// bytes just received.
pub open spec fn read_decision(buffered: Seq<u8>, received: Option<Seq<u8>>) -> ReadActionView {
    match received {
        Some(bytes) if bytes.len() == 0 => if buffered.len() == 0 {
            ReadActionView::Return(None)
        } else {
            ReadActionView::Fail(ConnectionError::Reset)
        },
        Some(bytes) if buffered.len() + bytes.len() > isize::MAX => ReadActionView::Fail(
            ConnectionError::Overflow,
        ),
        _ => match framing(taken_in(buffered, received), 0) {
            Framing::Complete(frame, _) => ReadActionView::Return(Some(frame)),
            Framing::Incomplete => ReadActionView::ReadMore,
            Framing::Malformed => ReadActionView::Fail(ConnectionError::Malformed),
        },
    }
}

/// The bytes still pending after a turn of the read loop: a frame that was
/// returned is gone from the front, and nothing else is.
pub open spec fn left_over(buffered: Seq<u8>, received: Option<Seq<u8>>) -> Seq<u8> {
    let pending = taken_in(buffered, received);
    match read_decision(buffered, received) {
        ReadActionView::Return(Some(_)) => match framing(pending, 0) {
            Framing::Complete(_, end) => pending.skip(end),
            _ => pending,
        },
        _ => pending,
    }
}

/// On a connection with nothing else pending, a well-formed frame is
/// returned when its last byte has arrived and not before: while a part of
/// it is pending, the decision is to read more; once all of it is, the
/// decision is to return it, and what came behind it stays pending.
pub proof fn lemma_frame_is_read_when_whole(frame: Frame, n: int, rest: Seq<u8>)
    requires
        frame.well_formed(),
        0 <= n < frame.wire().len(),
    ensures
        read_decision(frame.wire().subrange(0, n), None) == ReadActionView::ReadMore,
        left_over(frame.wire().subrange(0, n), None) == frame.wire().subrange(0, n),
        read_decision(frame.wire() + rest, None) == ReadActionView::Return(Some(frame)),
        left_over(frame.wire() + rest, None) == rest,
{
    lemma_prefix_incomplete(frame, n);
    lemma_round_trip(frame, rest);
    assert((frame.wire() + rest).skip(frame.wire().len() as int) =~= rest);
}

/// One accepted stream, seen from the broker: the inbound bytes that no
/// frame has consumed yet, and the subscriptions taken out so far.
pub struct Connection {
    buffer: BytesMut,
    subscriptions: Vec<Subscription>,
    turn: usize,
}

impl Connection {
    /// The inbound bytes that no frame has consumed yet.
    pub closed spec fn buffered(&self) -> Seq<u8> {
        buffer_content(self.buffer)
    }

    /// The subscriptions installed, in the order of subscription.
    pub closed spec fn installed(&self) -> Seq<Subscription> {
        self.subscriptions@
    }

    /// The topics subscribed to, in the order of subscription. A topic
    /// subscribed to twice stands here twice.
    pub open spec fn topics(&self) -> Seq<Seq<char>> {
        Seq::new(self.installed().len(), |i: int| self.installed()[i].topic_name())
    }

    /// A connection on which nothing has arrived and nothing is subscribed.
    pub fn new() -> (connection: Connection)
        ensures
            connection.buffered() == Seq::<u8>::empty(),
            connection.topics() == Seq::<Seq<char>>::empty(),
    {
        let connection = Connection {
            buffer: buffer_with_capacity(BUF_SIZE),
            subscriptions: Vec::new(),
            turn: 0,
        };
        assert(connection.topics() =~= Seq::<Seq<char>>::empty());
        connection
    }

    /// How many bytes are pending.
    pub fn pending(&self) -> (n: usize)
        ensures
            n == self.buffered().len(),
    {
        buffer_len(&self.buffer)
    }

    /// How many subscriptions the connection holds.
    pub fn subscription_count(&self) -> (n: usize)
        ensures
            n == self.topics().len(),
    {
        self.subscriptions.len()
    }

    /// Takes the next frame off the pending bytes, if a whole one is there.
    /// `Ok(None)` means that more bytes are needed; an error means that the
    /// stream is not in the protocol. Only a frame that is returned is
    /// consumed.
    pub fn parse(&mut self) -> (r: Result<Option<MethodFrames>, ParsingError>)
        ensures
            final(self).installed() == old(self).installed(),
            match framing(old(self).buffered(), 0) {
                Framing::Complete(frame, end) => {
                    &&& r matches Ok(Some(found))
                    &&& found@ == frame
                    &&& 0 < end <= old(self).buffered().len()
                    &&& final(self).buffered() == old(self).buffered().skip(end)
                },
                Framing::Incomplete => {
                    &&& r matches Ok(None)
                    &&& final(self).buffered() == old(self).buffered()
                },
                Framing::Malformed => {
                    &&& r matches Err(e)
                    &&& e.kind == ParsingErrorKind::Malformed
                    &&& final(self).buffered() == old(self).buffered()
                },
            },
    {
        proof {
            lemma_framing_bounds(self.buffered(), 0);
        }
        if buffer_len(&self.buffer) == 0 {
            return Ok(None);
        }
        let mut buf = Cursor::new(buffer_as_slice(&self.buffer));
        match Parser::check(&mut buf) {
            Ok(_) => {
                let len = buf.position();
                buf.set_position(0);
                let parsed = Parser::parse(&mut buf);
                match parsed {
                    Ok(method) => {
                        buffer_advance(&mut self.buffer, len);
                        assert(self.topics() =~= old(self).topics());
                        Ok(Some(method))
                    },
                    Err(e) => Err(e),
                }
            },
            Err(e) => match e.kind {
                ParsingErrorKind::Incomplete => Ok(None),
                ParsingErrorKind::Malformed => Err(e),
            },
        }
    }

    /// One turn of the read loop. The first call of a read passes `None`;
    /// each later call passes what the socket just gave, where zero bytes
    /// mean that the peer has closed the stream.
    ///
    /// A frame that is pending is returned at once. A stream that ends
    /// between frames ends the read with `Return(None)`; one that ends
    /// inside a frame is a reset.
    pub fn read(&mut self, received: Option<&[u8]>) -> (action: ReadAction)
        ensures
            final(self).installed() == old(self).installed(),
            action@ == read_decision(
                old(self).buffered(),
                match received {
                    Some(bytes) => Some(bytes@),
                    None => None,
                },
            ),
            final(self).buffered() == left_over(
                old(self).buffered(),
                match received {
                    Some(bytes) => Some(bytes@),
                    None => None,
                },
            ),
    {
        match received {
            Some(bytes) => {
                if bytes.len() == 0 {
                    if buffer_len(&self.buffer) == 0 {
                        return ReadAction::Return(None);
                    } else {
                        return ReadAction::Fail(ConnectionError::Reset);
                    }
                }
                let have = buffer_len(&self.buffer);
                if have > (isize::MAX as usize) || bytes.len() > (isize::MAX as usize) - have {
                    return ReadAction::Fail(ConnectionError::Overflow);
                }
                buffer_extend(&mut self.buffer, bytes);
                assert(self.topics() =~= old(self).topics());
            },
            None => {},
        }
        match self.parse() {
            Ok(Some(method)) => ReadAction::Return(Some(method)),
            Ok(None) => ReadAction::ReadMore,
            Err(_) => ReadAction::Fail(ConnectionError::Malformed),
        }
    }

    /// Installs a subscription. Nothing is looked up and nothing replaced:
    /// a second subscription to a topic stands beside the first, with a
    /// receiver of its own.
    pub fn add_subscription(&mut self, topic: Topic, rx: Receiver<Message>)
        ensures
            final(self).buffered() == old(self).buffered(),
            extended(final(self).installed(), old(self).installed(), topic@),
            final(self).installed().last().channel_end() == rx,
            final(self).topics() == old(self).topics().push(topic@),
    {
        self.subscriptions.push(Subscription::new(topic, rx));
        assert(self.installed().drop_last() =~= old(self).installed());
        assert(self.topics() =~= old(self).topics().push(topic@));
    }

    /// Takes in what the subscription with this index did about its latest
    /// delivery. A message is handed out together with the topic it came
    /// on; a subscription that is over is removed, the others keeping
    /// their order; lag and an empty channel change nothing. An index that
    /// names no subscription changes nothing either.
    pub fn settle(&mut self, index: usize, step: Step) -> (r: Option<(Topic, Message)>)
        ensures
            final(self).buffered() == old(self).buffered(),
            index >= old(self).installed().len() ==> r is None && final(self).installed() == old(
                self,
            ).installed(),
            index < old(self).installed().len() ==> match step {
                Step::Deliver(message) => {
                    &&& r matches Some(found)
                    &&& found.0@ == old(self).topics()[index as int]
                    &&& found.1 == message
                    &&& final(self).installed() == old(self).installed()
                },
                Step::Finish => {
                    &&& r is None
                    &&& final(self).installed() == old(self).installed().remove(index as int)
                },
                _ => {
                    &&& r is None
                    &&& final(self).installed() == old(self).installed()
                },
            },
    {
        if index >= self.subscriptions.len() {
            return None;
        }
        match step {
            Step::Deliver(message) => {
                let topic = self.subscriptions[index].topic().duplicate();
                self.turn = index + 1;
                Some((topic, message))
            },
            Step::Finish => {
                self.subscriptions.remove(index);
                None
            },
            _ => None,
        }
    }

    /// Looks once at every subscription, beginning behind the one that
    /// delivered last, and returns the first message found together with
    /// its topic. Nothing is waited for. A subscriber that lagged goes on
    /// from the oldest message kept; a subscription whose topic is gone is
    /// dropped. No order holds between topics; within one subscription the
    /// channel's order is kept, since each is read front to back.
    ///
    /// Which message comes back, if any, lies with the channels. What is
    /// done about each receive is [`Connection::settle`]'s to say. With no
    /// subscription installed there is nothing to receive from.
    pub fn next_message(&mut self) -> (r: Option<(Topic, Message)>)
        ensures
            final(self).buffered() == old(self).buffered(),
            old(self).installed().len() == 0 ==> r is None && final(self).installed() == old(
                self,
            ).installed(),
            final(self).topics().len() <= old(self).topics().len(),
            forall|t: Seq<char>|
                final(self).topics().contains(t) ==> old(self).topics().contains(t),
            r matches Some(found) ==> final(self).topics().contains(found.0@),
    {
        let mut budget = self.subscriptions.len();
        let mut i = self.turn;
        while budget > 0 && self.subscriptions.len() > 0
            invariant
                self.buffered() == old(self).buffered(),
                old(self).installed().len() == 0 ==> self.installed() == old(self).installed(),
                self.topics().len() <= old(self).topics().len(),
                forall|t: Seq<char>| self.topics().contains(t) ==> old(self).topics().contains(t),
            decreases budget,
        {
            if i >= self.subscriptions.len() {
                i = 0;
            }
            budget -= 1;
            let ghost before = self.topics();
            let mut step = self.subscriptions[i].poll();
            if let Step::Resume = step {
                step = self.subscriptions[i].poll();
            }
            assert(self.topics() =~= before);
            let finished = match step {
                Step::Finish => true,
                _ => false,
            };
            match self.settle(i, step) {
                Some(found) => {
                    assert(self.topics() =~= before);
                    assert(self.topics()[i as int] == found.0@);
                    return Some(found);
                },
                None => {
                    if finished {
                        assert(self.topics() =~= before.remove(i as int));
                        assert forall|t: Seq<char>| self.topics().contains(t) implies before.contains(
                            t,
                        ) by {
                            let j = choose|j: int|
                                0 <= j < self.topics().len() && self.topics()[j] == t;
                            if j < i {
                                assert(before[j] == t);
                            } else {
                                assert(before[j + 1] == t);
                            }
                        }
                    } else {
                        assert(self.topics() =~= before);
                        i += 1;
                    }
                },
            }
        }
        self.turn = i;
        None
    }

    /// Removes the subscription with this index, if there is one. The
    /// others keep their order.
    pub fn drop_subscription(&mut self, index: usize)
        ensures
            final(self).buffered() == old(self).buffered(),
            final(self).installed() == if index < old(self).installed().len() {
                old(self).installed().remove(index as int)
            } else {
                old(self).installed()
            },
            final(self).topics() == if index < old(self).topics().len() {
                old(self).topics().remove(index as int)
            } else {
                old(self).topics()
            },
    {
        if index < self.subscriptions.len() {
            self.subscriptions.remove(index);
            assert(self.topics() =~= old(self).topics().remove(index as int));
        }
    }

    /// The subscriptions, for a caller that waits on their receivers.
    pub fn subscriptions(&mut self) -> (subscriptions: &mut Vec<Subscription>)
        ensures
            subscriptions@ == old(self).installed(),
            final(self).installed() == final(subscriptions)@,
            final(self).buffered() == old(self).buffered(),
    {
        &mut self.subscriptions
    }
}

/// A listener for the shutdown notice. Once it has heard the notice it
/// stays shut down.
pub struct Shutdown {
    shutdown: bool,
    notify: Receiver<()>,
}

impl Shutdown {
    /// Whether the notice has been heard.
    pub closed spec fn heard(&self) -> bool {
        self.shutdown
    }

    /// The receiving end on which the notice comes.
    pub closed spec fn notice_end(&self) -> Receiver<()> {
        self.notify
    }

    /// A listener on the given channel that has heard nothing yet.
    pub fn new(notify: Receiver<()>) -> (shutdown: Shutdown)
        ensures
            !shutdown.heard(),
            shutdown.notice_end() == notify,
    {
        Shutdown { shutdown: false, notify }
    }

    /// Whether the notice has been heard.
    pub fn is_shutdown(&self) -> (heard: bool)
        ensures
            heard == self.heard(),
    {
        self.shutdown
    }

    /// The channel on which the notice comes, for a caller that waits on
    /// it. What the wait returns goes to [`Shutdown::recv`].
    pub fn listener(&mut self) -> (notify: &mut Receiver<()>)
        ensures
            *notify == old(self).notice_end(),
            final(self).notice_end() == *final(notify),
            final(self).heard() == old(self).heard(),
    {
        &mut self.notify
    }

    /// Takes in what a receive on the notice channel came back with.
    /// Anything but "empty" counts as the notice: a value, a lag, or the
    /// end of the channel because the server is gone.
    pub fn recv(&mut self, outcome: Result<(), Missed>)
        ensures
            final(self).heard() == (old(self).heard() || outcome != Err::<(), Missed>(
                Missed::Empty,
            )),
            final(self).notice_end() == old(self).notice_end(),
    {
        match outcome {
            Err(Missed::Empty) => {},
            _ => {
                self.shutdown = true;
            },
        }
    }

    /// Looks for the notice without waiting. Returns whether it has been
    /// heard, now or before.
    pub fn poll(&mut self) -> (heard: bool)
        ensures
            heard == final(self).heard(),
            old(self).heard() ==> heard,
    {
        if self.shutdown {
            return true;
        }
        let outcome = match self.notify.try_recv() {
            Ok(_) => Ok(()),
            Err(error) => Err(missed(error)),
        };
        self.recv(outcome);
        self.shutdown
    }
}

} // verus!
