//! The life of one connection: from its handshake, through registration and
//! relaying, to its cleanup.

use vstd::prelude::*;
use crate::broadcast::Snapshot;
use crate::message::{Message, MessageView};
use crate::peer::PeerId;
use crate::registry::{Inbox, Outbox, Registry};

verus! {

/// Where a connection stands.
#[derive(Clone, Copy, Debug, PartialEq, Eq, Structural)]
pub enum State {
    /// The protocol upgrade on the raw transport is under way.
    Handshaking,
    /// The outbound queue exists and the peer is in the registry.
    Registered,
    /// Both relay directions run.
    Relaying,
    /// The connection is over and has left the registry.
    Terminated,
}

/// Whether a connection in `state` has an entry in the registry.
pub open spec fn live(state: State) -> bool {
    state is Registered || state is Relaying
}

/// What the outside world reports to a connection.
#[derive(Debug)]
pub enum Event {
    /// The protocol upgrade succeeded.
    HandshakeSucceeded,
    /// The protocol upgrade failed.
    HandshakeFailed,
    /// Both relay directions have been started.
    RelayStarted,
    /// A message was read from the transport.
    Inbound(Message),
    /// The transport has no more messages to read.
    InboundEnded,
    /// Reading from the transport failed.
    InboundFailed,
    /// The connection's own outbound queue was closed.
    QueueClosed,
    /// Writing to the transport failed.
    OutboundFailed,
}

/// The mathematical value of an [`Event`].
pub enum EventView {
    HandshakeSucceeded,
    HandshakeFailed,
    RelayStarted,
    Inbound(MessageView),
    InboundEnded,
    InboundFailed,
    QueueClosed,
    OutboundFailed,
}

impl View for Event {
    type V = EventView;

    open spec fn view(&self) -> EventView {
        match *self {
            Event::HandshakeSucceeded => EventView::HandshakeSucceeded,
            Event::HandshakeFailed => EventView::HandshakeFailed,
            Event::RelayStarted => EventView::RelayStarted,
            Event::Inbound(m) => EventView::Inbound(m@),
            Event::InboundEnded => EventView::InboundEnded,
            Event::InboundFailed => EventView::InboundFailed,
            Event::QueueClosed => EventView::QueueClosed,
            Event::OutboundFailed => EventView::OutboundFailed,
        }
    }
}

/// Why a connection ended.
#[derive(Clone, Copy, Debug, PartialEq, Eq, Structural)]
pub enum Cause {
    /// The protocol upgrade failed.
    HandshakeFailed,
    /// The peer sent a close message.
    PeerClosed,
    /// The transport ended without a close message.
    InboundEnded,
    /// Reading from the transport failed.
    InboundFailed,
    /// The outbound queue was closed.
    QueueClosed,
    /// Writing to the transport failed.
    OutboundFailed,
}

impl Cause {
    /// Whether the connection ended gracefully, in specifications: only a
    /// close message of the peer ends it so.
    pub open spec fn spec_is_graceful(&self) -> bool {
        *self is PeerClosed
    }

    /// Whether the connection ended gracefully.
    #[verifier::when_used_as_spec(spec_is_graceful)]
    pub fn is_graceful(&self) -> (b: bool)
        ensures
            b == self.spec_is_graceful(),
    {
        match self {
            Cause::PeerClosed => true,
            _ => false,
        }
    }
}

/// The end that `event` brings to a connection that is registered, if it
/// brings one.
pub open spec fn ending(event: EventView) -> Option<Cause> {
    match event {
        EventView::Inbound(m) => if m is Close {
            Some(Cause::PeerClosed)
        } else {
            None
        },
        EventView::InboundEnded => Some(Cause::InboundEnded),
        EventView::InboundFailed => Some(Cause::InboundFailed),
        EventView::QueueClosed => Some(Cause::QueueClosed),
        EventView::OutboundFailed => Some(Cause::OutboundFailed),
        _ => None,
    }
}

/// The state that follows `state` on `event`.
///
/// A handshake result counts only while handshaking, and everything else
/// only once the connection is registered. A terminated connection stays
/// terminated.
pub open spec fn next_state(state: State, event: EventView) -> State {
    match state {
        State::Handshaking => match event {
            EventView::HandshakeSucceeded => State::Registered,
            EventView::HandshakeFailed => State::Terminated,
            _ => State::Handshaking,
        },
        State::Registered | State::Relaying => match event {
            EventView::HandshakeSucceeded | EventView::HandshakeFailed => state,
            _ => if ending(event) is Some {
                State::Terminated
            } else {
                State::Relaying
            },
        },
        State::Terminated => State::Terminated,
    }
}

/// What the caller is asked to do after an event, without the handles that
/// the request carries.
pub enum Request {
    /// Nothing.
    Wait,
    /// Start both relay directions.
    StartRelay,
    /// Fan the message out.
    Broadcast(MessageView),
    /// Close the transport.
    Close(Cause),
}

/// The request that `event` gives rise to in `state`.
pub open spec fn requested(state: State, event: EventView) -> Request {
    match state {
        State::Handshaking => match event {
            EventView::HandshakeSucceeded => Request::StartRelay,
            EventView::HandshakeFailed => Request::Close(Cause::HandshakeFailed),
            _ => Request::Wait,
        },
        State::Registered | State::Relaying => match event {
            EventView::Inbound(m) => if m is Close {
                Request::Close(Cause::PeerClosed)
            } else {
                Request::Broadcast(m)
            },
            _ => match ending(event) {
                Some(cause) => Request::Close(cause),
                None => Request::Wait,
            },
        },
        State::Terminated => Request::Wait,
    }
}

/// What the caller has to do after an event.
pub enum Action {
    /// Nothing: the event changes nothing that the caller has to act on.
    Wait,
    /// The peer is registered: start both relay directions, and write to the
    /// transport what comes out of this queue.
    StartRelay(Inbox),
    /// Deliver the message to the peers of the snapshot, with the
    /// connection's own peer as the sender.
    Broadcast(Snapshot, Message),
    /// The connection is over: stop both relay directions and close the
    /// transport.
    Close(Cause),
}

impl Action {
    /// The request that the action stands for.
    pub open spec fn request(&self) -> Request {
        match *self {
            Action::Wait => Request::Wait,
            Action::StartRelay(_) => Request::StartRelay,
            Action::Broadcast(_, m) => Request::Broadcast(m@),
            Action::Close(cause) => Request::Close(cause),
        }
    }
}

/// The registry after a connection of `peer` in `state` has taken `event`:
/// a successful handshake adds the peer with `outbox`, the end of a
/// registered connection removes it, and nothing else touches the registry.
pub open spec fn registry_after(
    registry: Map<PeerId, Outbox>,
    peer: PeerId,
    state: State,
    event: EventView,
    outbox: Outbox,
) -> Map<PeerId, Outbox> {
    if live(next_state(state, event)) && !live(state) {
        registry.insert(peer, outbox)
    } else if live(state) && !live(next_state(state, event)) {
        registry.remove(peer)
    } else {
        registry
    }
}

/// The registry after the cleanup of a connection of `peer` that stood in
/// `state`: a registered connection takes its entry with it, and any other
/// leaves the registry as it is.
pub open spec fn registry_without(registry: Map<PeerId, Outbox>, peer: PeerId, state: State) -> Map<
    PeerId,
    Outbox,
> {
    if live(state) {
        registry.remove(peer)
    } else {
        registry
    }
}

/// The mathematical value of a [`Connection`].
pub struct ConnectionView {
    pub peer: PeerId,
    pub state: State,
}

/// One accepted connection.
pub struct Connection {
    peer: PeerId,
    state: State,
}

impl View for Connection {
    type V = ConnectionView;

    closed spec fn view(&self) -> ConnectionView {
        ConnectionView { peer: self.peer, state: self.state }
    }
}

impl Connection {
    /// The connection of `peer`, about to start its handshake.
    pub fn new(peer: PeerId) -> (connection: Connection)
        ensures
            connection@ == (ConnectionView { peer, state: State::Handshaking }),
    {
        Connection { peer, state: State::Handshaking }
    }

    /// The identity of the connection.
    pub fn peer(&self) -> (peer: PeerId)
        ensures
            peer == self@.peer,
    {
        self.peer
    }

    /// Where the connection stands.
    pub fn state(&self) -> (state: State)
        ensures
            state == self@.state,
    {
        self.state
    }

    /// Ends the connection: it becomes terminated, and where it was
    /// registered its entry leaves the registry. Returns whether this call
    /// ended it; on a connection that is terminated already nothing happens.
    pub fn terminate(&mut self, registry: &mut Registry) -> (ended: bool)
        ensures
            final(self)@ == (ConnectionView { peer: old(self)@.peer, state: State::Terminated }),
            ended == !(old(self)@.state is Terminated),
            final(registry)@ == registry_without(
                old(registry)@,
                old(self)@.peer,
                old(self)@.state,
            ),
    {
        let ended = match self.state {
            State::Handshaking => true,
            State::Registered | State::Relaying => {
                registry.remove(self.peer);
                true
            },
            State::Terminated => false,
        };
        self.state = State::Terminated;
        ended
    }

    /// Takes one event, moves the connection on and does to the registry
    /// what the move asks for.
    ///
    /// A successful handshake registers the peer with a new outbound queue
    /// and hands the queue's receiving half to the caller. A message that is
    /// not a close message comes back with a snapshot of the registry, for
    /// the caller to deliver once it has let go of the registry. A close
    /// message, the end or a failure of either relay direction ends the
    /// connection and removes its entry; a close message is never handed
    /// back for delivery.
    pub fn handle(&mut self, registry: &mut Registry, event: Event) -> (action: Action)
        ensures
            final(self)@.peer == old(self)@.peer,
            final(self)@.state == next_state(old(self)@.state, event@),
            exists|outbox: Outbox|
                final(registry)@ == #[trigger] registry_after(
                    old(registry)@,
                    old(self)@.peer,
                    old(self)@.state,
                    event@,
                    outbox,
                ),
            action.request() == requested(old(self)@.state, event@),
            action matches Action::Broadcast(snapshot, _) ==> snapshot@.no_duplicates()
                && snapshot@.to_set() == old(registry)@.dom(),
    {
        let ghost before = registry@;
        let ghost ev = event@;
        let ghost state = self.state;
        let action = match self.state {
            State::Handshaking => match event {
                Event::HandshakeSucceeded => {
                    let inbox = registry.register(self.peer);
                    self.state = State::Registered;
                    Action::StartRelay(inbox)
                },
                Event::HandshakeFailed => {
                    self.state = State::Terminated;
                    Action::Close(Cause::HandshakeFailed)
                },
                _ => Action::Wait,
            },
            State::Registered | State::Relaying => match event {
                Event::HandshakeSucceeded | Event::HandshakeFailed => Action::Wait,
                Event::RelayStarted => {
                    self.state = State::Relaying;
                    Action::Wait
                },
                Event::Inbound(message) => {
                    if message.is_close() {
                        self.finish(registry, Cause::PeerClosed)
                    } else {
                        self.state = State::Relaying;
                        Action::Broadcast(registry.snapshot(), message)
                    }
                },
                Event::InboundEnded => self.finish(registry, Cause::InboundEnded),
                Event::InboundFailed => self.finish(registry, Cause::InboundFailed),
                Event::QueueClosed => self.finish(registry, Cause::QueueClosed),
                Event::OutboundFailed => self.finish(registry, Cause::OutboundFailed),
            },
            State::Terminated => Action::Wait,
        };
        proof {
            let outbox = if live(next_state(state, ev)) && !live(state) {
                choose|outbox: Outbox| registry@ == #[trigger] before.insert(self.peer, outbox)
            } else {
                arbitrary()
            };
            assert(registry@ == registry_after(before, self.peer, state, ev, outbox));
        }
        action
    }

    fn finish(&mut self, registry: &mut Registry, cause: Cause) -> (action: Action)
        requires
            live(old(self)@.state),
        ensures
            final(self)@.peer == old(self)@.peer,
            final(self)@.state is Terminated,
            action == Action::Close(cause),
            final(registry)@ == old(registry)@.remove(old(self)@.peer),
    {
        self.terminate(registry);
        Action::Close(cause)
    }
}

} // verus!
