use bytes::Bytes;
use wirekit::bus::admission::Idle;
use wirekit::bus::broker::CHAN_CAPACITY;
use wirekit::bus::channel::Missed;
use wirekit::bus::connection::{
    Connection, ConnectionError, Delivery, ReadAction, Shutdown, Step, Subscription,
};
use wirekit::bus::method::{acknowledge, name_of, Method, Reply};
use wirekit::bus::grammar::Command;
use wirekit::bus::error::MessageStoreError;
use wirekit::bus::protocol::{Message, MethodFrames};
use wirekit::bus::server::{Action, Backoff, Event, Handler, Mode, Server};
use wirekit::bus::topic::Topic;

fn written(action: Action) -> Bytes {
    match action {
        Action::Write(bytes) => bytes,
        Action::Continue => panic!("nothing to write"),
        Action::Exit => panic!("the handler left"),
    }
}

fn is_continue(action: &Action) -> bool {
    matches!(action, Action::Continue)
}

fn is_exit(action: &Action) -> bool {
    matches!(action, Action::Exit)
}

fn send(handler: &mut Handler, bytes: &[u8]) -> Action {
    match handler.connection().read(Some(bytes)) {
        ReadAction::Return(Some(frame)) => handler.on_event(Event::Frame(frame)),
        ReadAction::Return(None) => handler.on_event(Event::Closed),
        ReadAction::ReadMore => Action::Continue,
        ReadAction::Fail(_) => handler.on_event(Event::Failed),
    }
}

#[test]
fn make_subscribe_publish_across_two_connections() {
    let server = Server::new(8);
    let mut a = server.try_handler().unwrap();
    let mut b = server.try_handler().unwrap();

    assert_eq!(written(send(&mut b, b"MAKE orders\r\n")), Bytes::from("ACK MAKE orders"));

    assert_eq!(a.state(), Mode::Awaiting);
    assert!(is_continue(&send(&mut a, b"SUB orders\r\n")));
    assert_eq!(a.state(), Mode::Streaming);

    assert_eq!(
        written(send(&mut b, b"PUB orders\r\nhello\r\n")),
        Bytes::from("ACK PUB orders")
    );
    assert_eq!(b.state(), Mode::Awaiting);

    assert_eq!(written(a.poll()), Bytes::from("hello"));
    assert!(is_continue(&a.poll()));
    assert!(is_continue(&b.poll()));
}

#[test]
fn empty_payload_line_is_a_frame_of_its_own() {
    let server = Server::new(8);
    let mut a = server.try_handler().unwrap();
    let mut b = server.try_handler().unwrap();
    written(send(&mut b, b"MAKE orders\r\n"));
    send(&mut a, b"SUB orders\r\n");

    assert_eq!(
        written(send(&mut b, b"PUB orders\r\n\r\nhello\r\n")),
        Bytes::from("ACK PUB orders")
    );
    assert_eq!(written(a.poll()), Bytes::from(""));
    assert_eq!(b.connection().pending(), 7);
    assert!(is_exit(&b.poll()));
}

#[test]
fn delete_of_a_missing_topic_is_refused_inline() {
    let server = Server::new(8);
    let mut a = server.try_handler().unwrap();
    assert_eq!(
        written(send(&mut a, b"DEL nosuch\r\n")),
        Bytes::from("NACK DEL nosuch: topic not found")
    );
    assert_eq!(written(send(&mut a, b"MAKE nosuch\r\n")), Bytes::from("ACK MAKE nosuch"));
    assert_eq!(
        written(send(&mut a, b"MAKE nosuch\r\n")),
        Bytes::from("NACK MAKE nosuch: topic already exists")
    );
    assert_eq!(written(send(&mut a, b"DEL nosuch\r\n")), Bytes::from("ACK DEL nosuch"));
    assert_eq!(
        written(send(&mut a, b"PUB nosuch\r\nx\r\n")),
        Bytes::from("NACK PUB nosuch: topic not found")
    );
    assert_eq!(
        written(send(&mut a, b"SUB nosuch\r\n")),
        Bytes::from("NACK SUB nosuch: topic not found")
    );
    assert_eq!(a.state(), Mode::Awaiting);
    assert_eq!(server.store().contains("nosuch"), Some(false));
}

#[test]
fn stalled_subscriber_skips_ahead_and_stays_subscribed() {
    let server = Server::new(8);
    let mut a = server.try_handler().unwrap();
    let store = server.store();
    store.add_topic("orders").unwrap();
    assert!(is_continue(&send(&mut a, b"SUB orders\r\n")));

    let total = 2 * CHAN_CAPACITY;
    for i in 1..=total {
        let payload = Bytes::from(format!("{}", i));
        store.publish("orders".to_string(), Message::new(payload)).unwrap();
    }
    assert_eq!(written(a.poll()), Bytes::from(format!("{}", CHAN_CAPACITY + 1)));
    assert_eq!(written(a.poll()), Bytes::from(format!("{}", CHAN_CAPACITY + 2)));
    for i in (CHAN_CAPACITY + 3)..=total {
        assert_eq!(written(a.poll()), Bytes::from(format!("{}", i)));
    }
    assert!(is_continue(&a.poll()));
    assert_eq!(a.state(), Mode::Streaming);

    store
        .publish("orders".to_string(), Message::new(Bytes::from("next")))
        .unwrap();
    assert_eq!(written(a.poll()), Bytes::from("next"));
}

#[test]
fn subscriber_one_past_capacity_loses_exactly_one() {
    let store = Server::new(1).store();
    store.add_topic("t").unwrap();
    let mut sub = Subscription::new(Topic::new("t"), store.subscribe("t").unwrap());
    for i in 0..=CHAN_CAPACITY {
        store
            .publish("t".to_string(), Message::new(Bytes::from(format!("{}", i))))
            .unwrap();
    }
    assert!(matches!(sub.poll(), Step::Resume));
    match sub.poll() {
        Step::Deliver(message) => assert_eq!(message.1, Bytes::from("1")),
        _ => panic!("a message was due"),
    }
}

#[test]
fn shutdown_reaches_three_handlers_and_drain_waits_for_the_last() {
    let mut server = Server::new(3);
    assert_eq!(server.available_permits(), 3);
    let mut first = server.try_handler().unwrap();
    let mut second = server.try_handler().unwrap();
    let mut third = server.try_handler().unwrap();
    assert_eq!(server.available_permits(), 0);
    assert!(server.try_handler().is_none());

    assert!(is_continue(&first.poll()));
    assert!(!server.drained());

    server.shutdown();
    assert!(!server.drained());

    assert!(is_exit(&first.poll()));
    assert!(first.is_shutdown());
    drop(first);
    assert_eq!(server.available_permits(), 1);
    assert!(!server.drained());

    assert!(is_exit(&second.poll()));
    drop(second);
    assert_eq!(server.available_permits(), 2);
    assert!(!server.drained());

    assert!(is_exit(&third.poll()));
    assert!(is_exit(&third.poll()));
    drop(third);
    assert_eq!(server.available_permits(), 3);
    assert!(server.drained());

    assert!(server.try_handler().is_none());
    assert_eq!(server.available_permits(), 3);
    server.shutdown();
    assert!(server.drained());
}

#[test]
fn permit_comes_back_when_a_handler_fails() {
    let server = Server::new(1);
    let mut only = server.try_handler().unwrap();
    assert!(server.try_handler().is_none());
    assert!(is_exit(&send(&mut only, b"BOGUS x\r\n")));
    drop(only);
    assert_eq!(server.available_permits(), 1);
    assert!(server.try_handler().is_some());
}

#[test]
fn handler_events_map_to_actions() {
    let server = Server::new(4);
    let mut h = server.try_handler().unwrap();
    server.store().add_topic("t").unwrap();

    assert!(is_exit(&h.on_event(Event::Closed)));
    assert!(is_exit(&h.on_event(Event::Failed)));
    assert!(is_continue(&h.on_event(Event::Shutdown(Err(Missed::Empty)))));
    assert!(!h.is_shutdown());

    let message = Message::new(Bytes::from("payload"));
    assert_eq!(
        written(h.on_event(Event::Delivery(0, Delivery::Message(message)))),
        Bytes::from("payload")
    );
    assert!(is_continue(&h.on_event(Event::Delivery(0, Delivery::Missed(Missed::Lagged(7))))));
    assert!(is_continue(&h.on_event(Event::Delivery(0, Delivery::Missed(Missed::Empty)))));

    assert!(is_continue(&h.on_event(Event::Frame(MethodFrames::Subscribe("t".to_string())))));
    assert!(is_continue(&h.on_event(Event::Frame(MethodFrames::Subscribe("t".to_string())))));
    assert_eq!(h.connection().subscription_count(), 2);
    assert!(is_continue(&h.on_event(Event::Delivery(5, Delivery::Missed(Missed::Closed)))));
    assert_eq!(h.connection().subscription_count(), 2);
    assert!(is_continue(&h.on_event(Event::Delivery(0, Delivery::Missed(Missed::Closed)))));
    assert_eq!(h.connection().subscription_count(), 1);
    assert_eq!(h.state(), Mode::Streaming);

    assert!(is_exit(&h.on_event(Event::Shutdown(Err(Missed::Closed)))));
    assert!(h.is_shutdown());
    assert!(is_exit(&h.on_event(Event::Shutdown(Err(Missed::Empty)))));
    assert!(is_exit(&h.poll()));
}

#[test]
fn duplicate_subscriptions_each_deliver() {
    let server = Server::new(4);
    let mut a = server.try_handler().unwrap();
    let store = server.store();
    store.add_topic("t").unwrap();
    send(&mut a, b"SUB t\r\n");
    send(&mut a, b"SUB t\r\n");
    assert_eq!(a.connection().subscription_count(), 2);
    store.publish("t".to_string(), Message::new(Bytes::from("once"))).unwrap();
    assert_eq!(written(a.poll()), Bytes::from("once"));
    assert_eq!(written(a.poll()), Bytes::from("once"));
    assert!(is_continue(&a.poll()));
}

#[test]
fn subscriptions_to_several_topics_are_merged() {
    let store = Server::new(1).store();
    store.add_topic("a").unwrap();
    store.add_topic("b").unwrap();
    let mut conn = Connection::new();
    conn.add_subscription(Topic::new("a"), store.subscribe("a").unwrap());
    conn.add_subscription(Topic::new("b"), store.subscribe("b").unwrap());
    store.publish("a".to_string(), Message::new(Bytes::from("a1"))).unwrap();
    store.publish("a".to_string(), Message::new(Bytes::from("a2"))).unwrap();
    store.publish("b".to_string(), Message::new(Bytes::from("b1"))).unwrap();

    let mut from_a = Vec::new();
    let mut from_b = Vec::new();
    while let Some((topic, message)) = conn.next_message() {
        if topic == Topic::new("a") {
            from_a.push(message.1);
        } else {
            assert_eq!(topic, Topic::new("b"));
            from_b.push(message.1);
        }
    }
    assert_eq!(from_a, vec![Bytes::from("a1"), Bytes::from("a2")]);
    assert_eq!(from_b, vec![Bytes::from("b1")]);
}

#[test]
fn subscription_to_a_deleted_topic_is_dropped() {
    let store = Server::new(1).store();
    store.add_topic("a").unwrap();
    store.add_topic("b").unwrap();
    let mut conn = Connection::new();
    conn.add_subscription(Topic::new("a"), store.subscribe("a").unwrap());
    conn.add_subscription(Topic::new("b"), store.subscribe("b").unwrap());
    store
        .publish("a".to_string(), Message::new(Bytes::from("pending")))
        .unwrap();
    store
        .publish("b".to_string(), Message::new(Bytes::from("kept")))
        .unwrap();
    store.remove_topic("a").unwrap();
    let (topic, message) = conn.next_message().unwrap();
    assert_eq!(topic, Topic::new("b"));
    assert_eq!(message.1, Bytes::from("kept"));
    assert!(conn.next_message().is_none());
    assert_eq!(conn.subscription_count(), 1);
    conn.drop_subscription(3);
    assert_eq!(conn.subscription_count(), 1);
    conn.drop_subscription(0);
    assert_eq!(conn.subscription_count(), 0);
}

#[test]
fn read_loop_returns_frames_as_bytes_arrive() {
    let mut conn = Connection::new();
    assert!(matches!(conn.read(None), ReadAction::ReadMore));
    assert!(matches!(conn.read(Some(b"PUB ord")), ReadAction::ReadMore));
    assert!(matches!(conn.read(Some(b"ers\r\nhel")), ReadAction::ReadMore));
    assert_eq!(conn.pending(), 15);
    match conn.read(Some(b"lo\r\nMAKE x\r\nDEL")) {
        ReadAction::Return(Some(frame)) => {
            assert_eq!(frame, MethodFrames::Publish("orders".to_string(), Bytes::from("hello")))
        }
        _ => panic!("a frame was due"),
    }
    match conn.read(None) {
        ReadAction::Return(Some(frame)) => assert_eq!(frame, MethodFrames::Make("x".to_string())),
        _ => panic!("a frame was due"),
    }
    assert!(matches!(conn.read(None), ReadAction::ReadMore));
    assert_eq!(conn.pending(), 3);
    assert!(matches!(conn.read(Some(b"")), ReadAction::Fail(ConnectionError::Reset)));
}

#[test]
fn read_loop_ends_cleanly_between_frames() {
    let mut conn = Connection::new();
    assert!(matches!(conn.read(Some(b"")), ReadAction::Return(None)));
    match conn.read(Some(b"SUB t\r\n")) {
        ReadAction::Return(Some(frame)) => {
            assert_eq!(frame, MethodFrames::Subscribe("t".to_string()))
        }
        _ => panic!("a frame was due"),
    }
    assert!(matches!(conn.read(Some(b"")), ReadAction::Return(None)));
}

#[test]
fn read_loop_fails_on_a_malformed_frame() {
    let mut conn = Connection::new();
    assert!(matches!(
        conn.read(Some(b"HELLO world\r\n")),
        ReadAction::Fail(ConnectionError::Malformed)
    ));
    assert_eq!(conn.pending(), 13);
    assert!(conn.parse().is_err());
}

#[test]
fn connection_errors_read_as_text() {
    assert_eq!(ConnectionError::Malformed.to_string(), "parsing error!");
    assert_eq!(ConnectionError::Reset.to_string(), "connection reset by peer");
    assert_eq!(ConnectionError::Overflow.to_string(), "inbound buffer overflow");
}

#[test]
fn subscription_decisions() {
    let message = Message::new(Bytes::from("m"));
    match Subscription::on_delivery(Delivery::Message(message)) {
        Step::Deliver(m) => assert_eq!(m.payload(), &Bytes::from("m")),
        _ => panic!("the message was to be passed on"),
    }
    assert!(matches!(
        Subscription::on_delivery(Delivery::Missed(Missed::Lagged(3))),
        Step::Resume
    ));
    assert!(matches!(Subscription::on_delivery(Delivery::Missed(Missed::Empty)), Step::Wait));
    assert!(matches!(Subscription::on_delivery(Delivery::Missed(Missed::Closed)), Step::Finish));
}

#[test]
fn subscription_polls_its_channel() {
    let store = Server::new(1).store();
    store.add_topic("t").unwrap();
    let mut sub = Subscription::new(Topic::new("t"), store.subscribe("t").unwrap());
    assert_eq!(sub.topic(), &Topic::new("t"));
    assert!(matches!(sub.poll(), Step::Wait));
    store.publish("t".to_string(), Message::new(Bytes::from("one"))).unwrap();
    match sub.poll() {
        Step::Deliver(message) => assert_eq!(message.into_payload(), Bytes::from("one")),
        _ => panic!("a message was due"),
    }
    assert!(sub.receiver().is_empty());
    store.remove_topic("t").unwrap();
    assert!(matches!(sub.poll(), Step::Finish));
}

#[test]
fn shutdown_listener_hears_the_notice_once() {
    let (tx, rx) = tokio::sync::broadcast::channel::<()>(1);
    let mut shutdown = Shutdown::new(rx);
    assert!(!shutdown.is_shutdown());
    assert!(!shutdown.poll());
    shutdown.recv(Err(Missed::Empty));
    assert!(!shutdown.is_shutdown());
    tx.send(()).unwrap();
    assert!(shutdown.poll());
    assert!(shutdown.is_shutdown());
    assert!(shutdown.poll());
    assert!(shutdown.listener().is_empty());

    let (tx, rx) = tokio::sync::broadcast::channel::<()>(1);
    let mut orphan = Shutdown::new(rx);
    drop(tx);
    assert!(orphan.poll());

    let (_tx, rx) = tokio::sync::broadcast::channel::<()>(1);
    let mut told = Shutdown::new(rx);
    told.recv(Ok(()));
    assert!(told.is_shutdown());
    let (_tx, rx) = tokio::sync::broadcast::channel::<()>(1);
    let mut lagged = Shutdown::new(rx);
    lagged.recv(Err(Missed::Lagged(2)));
    assert!(lagged.is_shutdown());
}

#[test]
fn backoff_doubles_and_gives_up_after_64() {
    let mut backoff = Backoff::new();
    let mut slept = Vec::new();
    while let Some(delay) = backoff.on_failure() {
        slept.push(delay);
    }
    assert_eq!(slept, vec![1, 2, 4, 8, 16, 32, 64]);
    assert_eq!(backoff.on_failure(), None);
}

#[test]
fn replies_are_lines_of_text() {
    let bytes_of = |reply: Reply| reply.into_bytes();
    assert_eq!(
        bytes_of(acknowledge(Command::Make, "orders", None)),
        Some(Bytes::from("ACK MAKE orders"))
    );
    assert_eq!(
        bytes_of(acknowledge(Command::Delete, "orders", None)),
        Some(Bytes::from("ACK DEL orders"))
    );
    assert_eq!(
        bytes_of(acknowledge(Command::Publish, "orders", None)),
        Some(Bytes::from("ACK PUB orders"))
    );
    assert_eq!(bytes_of(acknowledge(Command::Subscribe, "orders", None)), None);
    assert_eq!(
        bytes_of(acknowledge(Command::Subscribe, "orders", Some(MessageStoreError::Subscribe))),
        Some(Bytes::from("NACK SUB orders: registry busy"))
    );
    assert_eq!(
        bytes_of(acknowledge(Command::Make, "o", Some(MessageStoreError::TopicExists))),
        Some(Bytes::from("NACK MAKE o: topic already exists"))
    );
    assert!(matches!(acknowledge(Command::Make, "o", None), Reply::Ack(_)));
    assert!(matches!(
        acknowledge(Command::Make, "o", Some(MessageStoreError::AddTopic)),
        Reply::Nack(_)
    ));
    assert_eq!(name_of(Command::Make), "MAKE");
    assert_eq!(name_of(Command::Delete), "DEL");
    assert_eq!(name_of(Command::Publish), "PUB");
    assert_eq!(name_of(Command::Subscribe), "SUB");
}

#[test]
fn methods_come_from_frames() {
    let make = Method::from_frames(MethodFrames::Make("a".to_string()));
    assert_eq!(make.get_name(), "MAKE");
    assert!(matches!(make, Method::Make(ref m) if m.subject == "a"));
    let del = Method::from_frames(MethodFrames::Delete("b".to_string()));
    assert_eq!(del.get_name(), "DEL");
    assert!(matches!(del, Method::Delete(ref m) if m.subject == "b"));
    let publish = Method::from_frames(MethodFrames::Publish("c".to_string(), Bytes::from("p")));
    assert_eq!(publish.get_name(), "PUB");
    assert!(matches!(publish, Method::Publish(ref m) if m.subject == "c" && m.bytes == "p"));
    let sub = Method::from_frames(MethodFrames::Subscribe("d".to_string()));
    assert_eq!(sub.get_name(), "SUB");
    assert!(matches!(sub, Method::Subscribe(ref m) if m.subject == "d"));
}

#[test]
fn methods_apply_to_store_and_connection() {
    let store = Server::new(1).store();
    let mut conn = Connection::new();
    let apply = |frame: MethodFrames, conn: &mut Connection| {
        Method::from_frames(frame).apply(&store, conn).into_bytes()
    };
    assert_eq!(
        apply(MethodFrames::Subscribe("t".to_string()), &mut conn),
        Some(Bytes::from("NACK SUB t: topic not found"))
    );
    assert_eq!(conn.subscription_count(), 0);
    assert_eq!(
        apply(MethodFrames::Make("t".to_string()), &mut conn),
        Some(Bytes::from("ACK MAKE t"))
    );
    assert_eq!(apply(MethodFrames::Subscribe("t".to_string()), &mut conn), None);
    assert_eq!(conn.subscription_count(), 1);
    assert_eq!(
        apply(MethodFrames::Publish("t".to_string(), Bytes::from("x")), &mut conn),
        Some(Bytes::from("ACK PUB t"))
    );
    let (topic, message) = conn.next_message().unwrap();
    assert_eq!(topic, Topic::new("t"));
    assert_eq!(message.1, Bytes::from("x"));
    assert_eq!(
        apply(MethodFrames::Delete("t".to_string()), &mut conn),
        Some(Bytes::from("ACK DEL t"))
    );
    assert_eq!(conn.subscriptions().len(), 1);
}

#[test]
fn subscriber_gets_a_random_identity() {
    let store = Server::new(1).store();
    store.add_topic("t").unwrap();
    let mut conn = Connection::new();
    conn.add_subscription(Topic::new("t"), store.subscribe("t").unwrap());
    let subscriber = wirekit::bus::client::Subscriber::new(conn, store.subscribe("t").unwrap());
    assert_eq!(subscriber.id.get_version_num(), 4);
    let other = wirekit::bus::client::Subscriber::new(
        Connection::new(),
        store.subscribe("t").unwrap(),
    );
    assert_ne!(subscriber.id, other.id);
    let (conn, mut rx) = subscriber.into_parts();
    assert_eq!(conn.subscription_count(), 1);
    store.publish("t".to_string(), Message::new(Bytes::from("x"))).unwrap();
    assert_eq!(rx.try_recv().unwrap().1, Bytes::from("x"));
}

#[test]
fn settle_acts_on_one_subscription() {
    let store = Server::new(1).store();
    store.add_topic("a").unwrap();
    store.add_topic("b").unwrap();
    let mut conn = Connection::new();
    conn.add_subscription(Topic::new("a"), store.subscribe("a").unwrap());
    conn.add_subscription(Topic::new("b"), store.subscribe("b").unwrap());

    assert!(conn.settle(0, Step::Wait).is_none());
    assert!(conn.settle(1, Step::Resume).is_none());
    assert_eq!(conn.subscription_count(), 2);

    let (topic, message) = conn
        .settle(1, Step::Deliver(Message::new(Bytes::from("m"))))
        .unwrap();
    assert_eq!(topic, Topic::new("b"));
    assert_eq!(message.1, Bytes::from("m"));
    assert_eq!(conn.subscription_count(), 2);

    assert!(conn.settle(2, Step::Deliver(Message::new(Bytes::from("m")))).is_none());
    assert!(conn.settle(2, Step::Finish).is_none());
    assert_eq!(conn.subscription_count(), 2);

    assert!(conn.settle(0, Step::Finish).is_none());
    assert_eq!(conn.subscription_count(), 1);
    let (topic, _) = conn
        .settle(0, Step::Deliver(Message::new(Bytes::from("n"))))
        .unwrap();
    assert_eq!(topic, Topic::new("b"));
}

#[test]
fn drain_is_over_once_stopping_and_disconnected() {
    assert!(Server::is_drained(true, Err(Idle::Disconnected)));
    assert!(!Server::is_drained(false, Err(Idle::Disconnected)));
    assert!(!Server::is_drained(true, Err(Idle::Empty)));
    assert!(!Server::is_drained(true, Ok(())));
    assert!(!Server::is_drained(false, Ok(())));
}

#[test]
fn handles_of_a_server_are_on_one_registry() {
    let server = Server::new(2);
    let mut handler = server.try_handler().unwrap();
    server.store().add_topic("t").unwrap();
    assert!(is_continue(&send(&mut handler, b"SUB t\r\n")));
    assert_eq!(
        written(send(&mut handler, b"MAKE t\r\n")),
        Bytes::from("NACK MAKE t: topic already exists")
    );
    assert_eq!(server.limit().available_permits(), 1);
    let (subscriptions, shutdown) = handler.sources();
    assert_eq!(subscriptions.len(), 1);
    assert_eq!(subscriptions[0].topic(), &Topic::new("t"));
    assert!(!shutdown.is_shutdown());
    assert!(!handler.shutdown().is_shutdown());
}

#[test]
fn deleting_a_topic_discards_what_is_pending() {
    let store = Server::new(1).store();
    store.add_topic("t").unwrap();
    let mut sub = Subscription::new(Topic::new("t"), store.subscribe("t").unwrap());
    store
        .publish("t".to_string(), Message::new(Bytes::from("one")))
        .unwrap();
    store
        .publish("t".to_string(), Message::new(Bytes::from("two")))
        .unwrap();
    match sub.poll() {
        Step::Deliver(message) => assert_eq!(message.1, Bytes::from("one")),
        _ => panic!("a message was due"),
    }
    store.remove_topic("t").unwrap();
    assert!(matches!(sub.poll(), Step::Finish));
    assert!(matches!(sub.poll(), Step::Finish));

    store.add_topic("t").unwrap();
    store
        .publish("t".to_string(), Message::new(Bytes::from("new")))
        .unwrap();
    assert!(matches!(sub.poll(), Step::Finish));
}

#[test]
fn closed_channel_overrides_the_delivery() {
    let message = Message::new(Bytes::from("m"));
    assert!(matches!(
        Subscription::seen(true, Delivery::Message(message.clone())),
        Delivery::Missed(Missed::Closed)
    ));
    assert!(matches!(
        Subscription::seen(true, Delivery::Missed(Missed::Empty)),
        Delivery::Missed(Missed::Closed)
    ));
    assert!(matches!(
        Subscription::seen(true, Delivery::Missed(Missed::Lagged(3))),
        Delivery::Missed(Missed::Closed)
    ));
    match Subscription::seen(false, Delivery::Message(message)) {
        Delivery::Message(m) => assert_eq!(m.1, Bytes::from("m")),
        _ => panic!("the message stands on an open channel"),
    }
    assert!(matches!(
        Subscription::seen(false, Delivery::Missed(Missed::Lagged(3))),
        Delivery::Missed(Missed::Lagged(3))
    ));
    assert!(matches!(
        Subscription::seen(false, Delivery::Missed(Missed::Empty)),
        Delivery::Missed(Missed::Empty)
    ));
}

#[test]
fn second_subscription_leaves_the_first_untouched() {
    let store = Server::new(1).store();
    store.add_topic("t").unwrap();
    let mut conn = Connection::new();
    conn.add_subscription(Topic::new("t"), store.subscribe("t").unwrap());
    store
        .publish("t".to_string(), Message::new(Bytes::from("early")))
        .unwrap();
    conn.add_subscription(Topic::new("t"), store.subscribe("t").unwrap());
    store
        .publish("t".to_string(), Message::new(Bytes::from("late")))
        .unwrap();
    let subscriptions = conn.subscriptions();
    assert_eq!(subscriptions.len(), 2);
    let mut first = Vec::new();
    while let Step::Deliver(message) = subscriptions[0].poll() {
        first.push(message.1);
    }
    let mut second = Vec::new();
    while let Step::Deliver(message) = subscriptions[1].poll() {
        second.push(message.1);
    }
    assert_eq!(first, vec![Bytes::from("early"), Bytes::from("late")]);
    assert_eq!(second, vec![Bytes::from("late")]);
}

#[test]
fn refused_make_leaves_the_subscribers_attached() {
    let server = Server::new(2);
    let mut a = server.try_handler().unwrap();
    let mut b = server.try_handler().unwrap();
    written(send(&mut b, b"MAKE t\r\n"));
    assert!(is_continue(&send(&mut a, b"SUB t\r\n")));
    assert_eq!(
        written(send(&mut b, b"MAKE t\r\n")),
        Bytes::from("NACK MAKE t: topic already exists")
    );
    assert_eq!(
        written(send(&mut b, b"DEL other\r\n")),
        Bytes::from("NACK DEL other: topic not found")
    );
    assert_eq!(written(send(&mut b, b"MAKE other\r\n")), Bytes::from("ACK MAKE other"));
    assert_eq!(written(send(&mut b, b"PUB t\r\nstill here\r\n")), Bytes::from("ACK PUB t"));
    assert_eq!(written(a.poll()), Bytes::from("still here"));
    assert_eq!(a.state(), Mode::Streaming);
}

#[test]
fn new_server_has_its_permits_and_no_topics() {
    let server = Server::new(5);
    assert_eq!(server.available_permits(), 5);
    assert_eq!(server.store().contains("anything"), Some(false));
    let none = Server::new(0);
    assert_eq!(none.available_permits(), 0);
    assert!(none.try_handler().is_none());
}
