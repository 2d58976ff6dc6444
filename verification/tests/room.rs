use chat_hub::broadcast::Delivery;
use chat_hub::connection::{Action, Cause, Connection, Event, State};
use chat_hub::message::{CloseFrame, Message};
use chat_hub::peer::PeerId;
use chat_hub::registry::{Inbox, Registry};
use futures::channel::mpsc::TryRecvError;

fn peer(n: u16) -> PeerId {
    PeerId::V4 { ipv4: 0x7f00_0001, port: n }
}

fn text(s: &str) -> Message {
    Message::Text(s.to_string())
}

fn join(registry: &mut Registry, id: PeerId) -> (Connection, Inbox) {
    let mut connection = Connection::new(id);
    match connection.handle(registry, Event::HandshakeSucceeded) {
        Action::StartRelay(inbox) => {
            assert!(matches!(connection.handle(registry, Event::RelayStarted), Action::Wait));
            (connection, inbox)
        }
        _ => panic!("a successful handshake starts the relay"),
    }
}

fn say(registry: &mut Registry, connection: &mut Connection, message: Message) -> Vec<Delivery> {
    match connection.handle(registry, Event::Inbound(message)) {
        Action::Broadcast(snapshot, message) => snapshot.deliver(connection.peer(), &message),
        _ => panic!("a message that is no close message is broadcast"),
    }
}

#[test]
fn three_peers_hello_then_one_leaves() {
    let (a, b, c) = (peer(5001), peer(5002), peer(5003));
    let mut registry = Registry::new();
    let (mut conn_a, mut rx_a) = join(&mut registry, a);
    let (mut conn_b, mut rx_b) = join(&mut registry, b);
    let (mut conn_c, mut rx_c) = join(&mut registry, c);
    assert_eq!(registry.len(), 3);

    let report = say(&mut registry, &mut conn_a, text("hello"));
    assert_eq!(
        report,
        vec![Delivery { peer: b, queued: true }, Delivery { peer: c, queued: true }]
    );
    assert_eq!(rx_b.try_recv(), Ok(text("hello")));
    assert_eq!(rx_b.try_recv(), Err(TryRecvError::Empty));
    assert_eq!(rx_c.try_recv(), Ok(text("hello")));
    assert_eq!(rx_c.try_recv(), Err(TryRecvError::Empty));
    assert_eq!(rx_a.try_recv(), Err(TryRecvError::Empty));

    let left = conn_b.handle(&mut registry, Event::Inbound(Message::Close(None)));
    assert!(matches!(left, Action::Close(Cause::PeerClosed)));
    assert_eq!(conn_b.state(), State::Terminated);

    let report = say(&mut registry, &mut conn_c, text("still here"));
    assert_eq!(report, vec![Delivery { peer: a, queued: true }]);
    assert_eq!(rx_a.try_recv(), Ok(text("still here")));
    assert_eq!(rx_a.try_recv(), Err(TryRecvError::Empty));
    assert_eq!(rx_b.try_recv(), Err(TryRecvError::Closed));
    assert_eq!(rx_c.try_recv(), Err(TryRecvError::Empty));

    assert_eq!(registry.len(), 2);
    assert!(registry.contains(a));
    assert!(!registry.contains(b));
    assert!(registry.contains(c));
    assert_eq!(registry.snapshot().peers(), vec![a, c]);
    assert_eq!(conn_a.state(), State::Relaying);
}

#[test]
fn stalled_peer_does_not_hold_up_the_others() {
    let (a, b, c) = (peer(1), peer(2), peer(3));
    let mut registry = Registry::new();
    let (mut conn_a, _rx_a) = join(&mut registry, a);
    let (_conn_b, mut stalled) = join(&mut registry, b);
    let (_conn_c, mut rx_c) = join(&mut registry, c);

    for n in 0..1000 {
        let report = say(&mut registry, &mut conn_a, text(&format!("line {}", n)));
        assert_eq!(
            report,
            vec![Delivery { peer: b, queued: true }, Delivery { peer: c, queued: true }]
        );
        assert_eq!(rx_c.try_recv(), Ok(text(&format!("line {}", n))));
        assert_eq!(rx_c.try_recv(), Err(TryRecvError::Empty));
    }
    for n in 0..1000 {
        assert_eq!(stalled.try_recv(), Ok(text(&format!("line {}", n))));
    }
    assert_eq!(stalled.try_recv(), Err(TryRecvError::Empty));
}

#[test]
fn messages_of_one_sender_arrive_in_order() {
    let mut registry = Registry::new();
    let (mut conn_a, _rx_a) = join(&mut registry, peer(1));
    let (_conn_b, mut rx_b) = join(&mut registry, peer(2));
    say(&mut registry, &mut conn_a, text("one"));
    say(&mut registry, &mut conn_a, Message::Binary(vec![2, 2]));
    say(&mut registry, &mut conn_a, text("three"));
    assert_eq!(rx_b.try_recv(), Ok(text("one")));
    assert_eq!(rx_b.try_recv(), Ok(Message::Binary(vec![2, 2])));
    assert_eq!(rx_b.try_recv(), Ok(text("three")));
    assert_eq!(rx_b.try_recv(), Err(TryRecvError::Empty));
}

#[test]
fn every_kind_but_close_is_relayed_as_it_is() {
    let mut registry = Registry::new();
    let (mut conn_a, mut rx_a) = join(&mut registry, peer(1));
    let (_conn_b, mut rx_b) = join(&mut registry, peer(2));
    let sent = vec![
        text(""),
        text("gr\u{fc}\u{df}e"),
        Message::Binary(vec![]),
        Message::Binary(vec![0, 255, 7]),
        Message::Ping(vec![1]),
        Message::Pong(vec![2, 3]),
    ];
    for message in sent.iter() {
        say(&mut registry, &mut conn_a, message.clone());
    }
    for message in sent {
        assert_eq!(rx_b.try_recv(), Ok(message));
    }
    assert_eq!(rx_b.try_recv(), Err(TryRecvError::Empty));
    assert_eq!(rx_a.try_recv(), Err(TryRecvError::Empty));
}

#[test]
fn close_message_is_never_relayed() {
    let mut registry = Registry::new();
    let (mut conn_a, _rx_a) = join(&mut registry, peer(1));
    let (_conn_b, mut rx_b) = join(&mut registry, peer(2));
    let farewell = Message::Close(Some(CloseFrame { code: 1000, reason: "bye".to_string() }));
    let action = conn_a.handle(&mut registry, Event::Inbound(farewell));
    assert!(matches!(action, Action::Close(Cause::PeerClosed)));
    assert_eq!(rx_b.try_recv(), Err(TryRecvError::Empty));
    assert_eq!(registry.len(), 1);
    assert!(!registry.contains(peer(1)));
    assert!(registry.contains(peer(2)));
}

#[test]
fn close_message_before_the_relay_has_started_ends_the_connection() {
    let mut registry = Registry::new();
    let mut connection = Connection::new(peer(1));
    let started = connection.handle(&mut registry, Event::HandshakeSucceeded);
    assert!(matches!(started, Action::StartRelay(_)));
    assert_eq!(connection.state(), State::Registered);
    let action = connection.handle(&mut registry, Event::Inbound(Message::Close(None)));
    assert!(matches!(action, Action::Close(Cause::PeerClosed)));
    assert_eq!(connection.state(), State::Terminated);
    assert_eq!(registry.len(), 0);
}

#[test]
fn failed_handshake_never_touches_the_registry() {
    let mut registry = Registry::new();
    let (_conn_a, _rx_a) = join(&mut registry, peer(1));
    let mut connection = Connection::new(peer(2));
    assert_eq!(connection.state(), State::Handshaking);
    let action = connection.handle(&mut registry, Event::HandshakeFailed);
    assert!(matches!(action, Action::Close(Cause::HandshakeFailed)));
    assert_eq!(connection.state(), State::Terminated);
    assert_eq!(registry.len(), 1);
    assert!(registry.contains(peer(1)));
    assert!(!registry.contains(peer(2)));
    assert!(!connection.terminate(&mut registry));
    assert_eq!(registry.len(), 1);
}

#[test]
fn each_end_of_a_relay_direction_removes_the_entry() {
    let ends = vec![
        (Event::InboundEnded, Cause::InboundEnded),
        (Event::InboundFailed, Cause::InboundFailed),
        (Event::QueueClosed, Cause::QueueClosed),
        (Event::OutboundFailed, Cause::OutboundFailed),
    ];
    for (event, cause) in ends {
        let mut registry = Registry::new();
        let (_other, _rx_other) = join(&mut registry, peer(9));
        let (mut connection, _rx) = join(&mut registry, peer(1));
        assert_eq!(registry.len(), 2);
        match connection.handle(&mut registry, event) {
            Action::Close(got) => assert_eq!(got, cause),
            _ => panic!("the end of a relay direction ends the connection"),
        }
        assert!(!cause.is_graceful());
        assert_eq!(connection.state(), State::Terminated);
        assert_eq!(registry.len(), 1);
        assert!(registry.contains(peer(9)));
        assert!(!registry.contains(peer(1)));
    }
    assert!(Cause::PeerClosed.is_graceful());
    assert!(!Cause::HandshakeFailed.is_graceful());
}

#[test]
fn cleanup_twice_is_cleanup_once() {
    let mut registry = Registry::new();
    let (_conn_a, _rx_a) = join(&mut registry, peer(1));
    let (mut conn_b, _rx_b) = join(&mut registry, peer(2));
    assert!(conn_b.terminate(&mut registry));
    assert_eq!(conn_b.state(), State::Terminated);
    assert_eq!(registry.len(), 1);
    assert!(!conn_b.terminate(&mut registry));
    assert_eq!(conn_b.state(), State::Terminated);
    assert_eq!(registry.len(), 1);
    assert!(registry.contains(peer(1)));
    let action = conn_b.handle(&mut registry, Event::InboundFailed);
    assert!(matches!(action, Action::Wait));
    assert_eq!(registry.len(), 1);
}

#[test]
fn late_cleanup_spares_a_newer_connection_of_the_same_identity() {
    let mut registry = Registry::new();
    let (mut first, _rx_first) = join(&mut registry, peer(1));
    let ended = first.handle(&mut registry, Event::InboundFailed);
    assert!(matches!(ended, Action::Close(Cause::InboundFailed)));
    let (second, _rx_second) = join(&mut registry, peer(1));
    assert!(!first.terminate(&mut registry));
    assert!(registry.contains(peer(1)));
    assert_eq!(registry.len(), 1);
    assert_eq!(second.state(), State::Relaying);
}

#[test]
fn terminated_connection_ignores_every_event() {
    let mut registry = Registry::new();
    let (_conn_a, mut rx_a) = join(&mut registry, peer(1));
    let (mut conn_b, _rx_b) = join(&mut registry, peer(2));
    conn_b.terminate(&mut registry);
    let events = vec![
        Event::HandshakeSucceeded,
        Event::HandshakeFailed,
        Event::RelayStarted,
        Event::Inbound(text("too late")),
        Event::Inbound(Message::Close(None)),
        Event::InboundEnded,
        Event::InboundFailed,
        Event::QueueClosed,
        Event::OutboundFailed,
    ];
    for event in events {
        assert!(matches!(conn_b.handle(&mut registry, event), Action::Wait));
        assert_eq!(conn_b.state(), State::Terminated);
        assert_eq!(registry.len(), 1);
    }
    assert!(!registry.contains(peer(2)));
    assert_eq!(rx_a.try_recv(), Err(TryRecvError::Empty));
}

#[test]
fn handshaking_connection_waits_for_the_handshake() {
    let mut registry = Registry::new();
    let mut connection = Connection::new(peer(1));
    let events = vec![
        Event::RelayStarted,
        Event::Inbound(text("early")),
        Event::Inbound(Message::Close(None)),
        Event::InboundEnded,
        Event::InboundFailed,
        Event::QueueClosed,
        Event::OutboundFailed,
    ];
    for event in events {
        assert!(matches!(connection.handle(&mut registry, event), Action::Wait));
        assert_eq!(connection.state(), State::Handshaking);
        assert_eq!(registry.len(), 0);
    }
    assert!(connection.terminate(&mut registry));
    assert_eq!(connection.state(), State::Terminated);
    assert_eq!(registry.len(), 0);
}

#[test]
fn second_handshake_result_is_ignored() {
    let mut registry = Registry::new();
    let (mut connection, mut inbox) = join(&mut registry, peer(1));
    assert!(matches!(connection.handle(&mut registry, Event::HandshakeSucceeded), Action::Wait));
    assert!(matches!(connection.handle(&mut registry, Event::HandshakeFailed), Action::Wait));
    assert_eq!(connection.state(), State::Relaying);
    assert_eq!(registry.len(), 1);
    assert_eq!(inbox.try_recv(), Err(TryRecvError::Empty));
}

#[test]
fn first_message_moves_a_registered_connection_to_relaying() {
    let mut registry = Registry::new();
    let mut connection = Connection::new(peer(1));
    let _inbox = match connection.handle(&mut registry, Event::HandshakeSucceeded) {
        Action::StartRelay(inbox) => inbox,
        _ => panic!("a successful handshake starts the relay"),
    };
    assert_eq!(connection.state(), State::Registered);
    assert_eq!(connection.peer(), peer(1));
    let report = say(&mut registry, &mut connection, text("alone"));
    assert_eq!(report, vec![]);
    assert_eq!(connection.state(), State::Relaying);
}
