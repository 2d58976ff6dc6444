//! The hub as a whole: the registry together with every connection, and
//! what holds of the two at every moment.

use vstd::prelude::*;
use crate::broadcast::{lemma_recipients, recipients};
use crate::connection::{
    ending, live, next_state, registry_after, registry_without, requested, Cause, EventView, Request,
    State,
};
use crate::message::MessageView;
use crate::peer::PeerId;
use crate::registry::Outbox;

verus! {

/// The registry and the state of the connection of every identity that has
/// connected so far. An identity stands for one connection at a time.
pub struct Hub {
    pub registry: Map<PeerId, Outbox>,
    pub connections: Map<PeerId, State>,
}

/// The peers whose connection is registered and not yet terminated.
pub open spec fn registered(connections: Map<PeerId, State>) -> Set<PeerId> {
    Set::new(|p: PeerId| connections.contains_key(p) && live(connections[p]))
}

/// The registry holds exactly the peers whose connection is registered and
/// not yet terminated.
pub open spec fn consistent(hub: Hub) -> bool {
    hub.registry.dom() =~= registered(hub.connections)
}

/// The hub before anything has connected.
pub open spec fn idle() -> Hub {
    Hub { registry: Map::empty(), connections: Map::empty() }
}

/// Whether a new connection of `peer` can be accepted: the identity is free,
/// or its earlier connection is over.
pub open spec fn vacant(hub: Hub, peer: PeerId) -> bool {
    !hub.connections.contains_key(peer) || hub.connections[peer] is Terminated
}

/// The hub after a connection of `peer` has been accepted.
pub open spec fn accept(hub: Hub, peer: PeerId) -> Hub {
    Hub { registry: hub.registry, connections: hub.connections.insert(peer, State::Handshaking) }
}

/// The hub after the connection of `peer` has handled `event`; `outbox` is
/// the queue that a successful handshake opens.
pub open spec fn step(hub: Hub, peer: PeerId, event: EventView, outbox: Outbox) -> Hub {
    Hub {
        registry: registry_after(hub.registry, peer, hub.connections[peer], event, outbox),
        connections: hub.connections.insert(peer, next_state(hub.connections[peer], event)),
    }
}

/// The hub after the cleanup of the connection of `peer`.
pub open spec fn cleanup(hub: Hub, peer: PeerId) -> Hub {
    Hub {
        registry: registry_without(hub.registry, peer, hub.connections[peer]),
        connections: hub.connections.insert(peer, State::Terminated),
    }
}

/// One thing that happens in the hub.
pub enum Occurrence {
    /// A connection of the peer is accepted.
    Accepted(PeerId),
    /// The connection of the peer handles the event. The queue is the one
    /// that a successful handshake opens.
    Handled(PeerId, EventView, Outbox),
    /// The cleanup of the connection of the peer runs.
    CleanedUp(PeerId),
}

/// Whether `occurrence` can happen in `hub`: a connection is accepted only
/// under an identity that is vacant, and only a connection that was accepted
/// handles events or is cleaned up.
pub open spec fn possible(hub: Hub, occurrence: Occurrence) -> bool {
    match occurrence {
        Occurrence::Accepted(peer) => vacant(hub, peer),
        Occurrence::Handled(peer, _, _) => hub.connections.contains_key(peer),
        Occurrence::CleanedUp(peer) => hub.connections.contains_key(peer),
    }
}

/// The hub after `occurrence`.
pub open spec fn after(hub: Hub, occurrence: Occurrence) -> Hub {
    match occurrence {
        Occurrence::Accepted(peer) => accept(hub, peer),
        Occurrence::Handled(peer, event, outbox) => step(hub, peer, event, outbox),
        Occurrence::CleanedUp(peer) => cleanup(hub, peer),
    }
}

/// The hub after everything in `history` has happened, in order, to a hub
/// that was idle.
pub open spec fn hub_after(history: Seq<Occurrence>) -> Hub
    decreases history.len(),
{
    if history.len() == 0 {
        idle()
    } else {
        after(hub_after(history.drop_last()), history.last())
    }
}

/// Whether everything in `history` can happen, in order, to a hub that was
/// idle.
pub open spec fn can_happen(history: Seq<Occurrence>) -> bool
    decreases history.len(),
{
    history.len() == 0 || (can_happen(history.drop_last()) && possible(
        hub_after(history.drop_last()),
        history.last(),
    ))
}

/// At every moment, whatever has happened so far, the registry holds
/// exactly the peers whose connection is registered and not yet terminated,
/// and its size is their number.
pub proof fn lemma_registry_tracks_connections(history: Seq<Occurrence>)
    requires
        can_happen(history),
    ensures
        consistent(hub_after(history)),
        hub_after(history).registry.dom().finite(),
        hub_after(history).registry.len() == registered(hub_after(history).connections).len(),
    decreases history.len(),
{
    if history.len() == 0 {
        lemma_idle_is_consistent();
    } else {
        let before = hub_after(history.drop_last());
        lemma_registry_tracks_connections(history.drop_last());
        match history.last() {
            Occurrence::Accepted(peer) => lemma_accept_keeps_consistent(before, peer),
            Occurrence::Handled(peer, event, outbox) => lemma_step_keeps_consistent(
                before,
                peer,
                event,
                outbox,
            ),
            Occurrence::CleanedUp(peer) => lemma_cleanup_keeps_consistent(before, peer),
        }
    }
    lemma_registry_counts_registered(hub_after(history));
}

/// Before anything has connected the registry is empty, and so is the set of
/// registered connections.
pub proof fn lemma_idle_is_consistent()
    ensures
        consistent(idle()),
        idle().registry.len() == 0,
{
}

/// Accepting a connection leaves the registry as it is: a connection that
/// is still handshaking has no entry.
pub proof fn lemma_accept_keeps_consistent(hub: Hub, peer: PeerId)
    requires
        consistent(hub),
        vacant(hub, peer),
    ensures
        consistent(accept(hub, peer)),
        accept(hub, peer).registry == hub.registry,
{
}

/// Whatever a connection handles, the registry goes on holding exactly the
/// peers that are registered and not yet terminated.
pub proof fn lemma_step_keeps_consistent(hub: Hub, peer: PeerId, event: EventView, outbox: Outbox)
    requires
        consistent(hub),
        hub.connections.contains_key(peer),
    ensures
        consistent(step(hub, peer, event, outbox)),
{
    let after = step(hub, peer, event, outbox);
    assert(after.registry.dom() =~= registered(after.connections));
}

/// The cleanup of a connection keeps the registry in step with the
/// connections, wherever the connection stood.
pub proof fn lemma_cleanup_keeps_consistent(hub: Hub, peer: PeerId)
    requires
        consistent(hub),
        hub.connections.contains_key(peer),
    ensures
        consistent(cleanup(hub, peer)),
{
    let after = cleanup(hub, peer);
    assert(after.registry.dom() =~= registered(after.connections));
}

/// The size of the registry is the number of connections that are
/// registered and not yet terminated: no peer is entered twice, and no entry
/// outlives its connection.
pub proof fn lemma_registry_counts_registered(hub: Hub)
    requires
        consistent(hub),
    ensures
        hub.registry.dom() == registered(hub.connections),
        hub.registry.len() == registered(hub.connections).len(),
        forall|p: PeerId|
            hub.registry.contains_key(p) <==> hub.connections.contains_key(p) && live(
                #[trigger] hub.connections[p],
            ),
{
    assert forall|p: PeerId|
        hub.registry.contains_key(p) <==> hub.connections.contains_key(p) && live(
            #[trigger] hub.connections[p],
        ) by {
        assert(hub.registry.dom().contains(p) <==> registered(hub.connections).contains(p));
    }
}

/// The end of a registered connection, graceful or not, removes its own
/// entry and no other: the registry shrinks by one, every other peer keeps
/// its entry and its queue, and every later broadcast goes to the peers it
/// went to before, less the one that left.
pub proof fn lemma_disconnect_removes_one_entry(
    hub: Hub,
    peer: PeerId,
    event: EventView,
    outbox: Outbox,
)
    requires
        consistent(hub),
        hub.registry.dom().finite(),
        hub.connections.contains_key(peer),
        live(hub.connections[peer]),
        ending(event) is Some,
    ensures
        step(hub, peer, event, outbox).connections[peer] is Terminated,
        step(hub, peer, event, outbox).registry == hub.registry.remove(peer),
        step(hub, peer, event, outbox).registry.len() == hub.registry.len() - 1,
        forall|other: PeerId|
            other != peer ==> (#[trigger] step(hub, peer, event, outbox).registry.contains_key(
                other,
            ) <==> hub.registry.contains_key(other)),
        forall|other: PeerId|
            other != peer && hub.registry.contains_key(other) ==> #[trigger] step(
                hub,
                peer,
                event,
                outbox,
            ).registry[other] == hub.registry[other],
        forall|sender: PeerId| #[trigger]
            step(hub, peer, event, outbox).registry.dom().remove(sender)
                == hub.registry.dom().remove(sender).remove(peer),
{
    let after = step(hub, peer, event, outbox);
    assert(hub.registry.contains_key(peer)) by {
        assert(registered(hub.connections).contains(peer));
    }
    assert forall|sender: PeerId| #[trigger]
        after.registry.dom().remove(sender) == hub.registry.dom().remove(sender).remove(peer) by {
        assert(after.registry.dom().remove(sender) =~= hub.registry.dom().remove(sender).remove(
            peer,
        ));
    }
}

/// The cleanup of a connection may run twice: the second run changes
/// nothing, neither in the registry nor in the connection. That holds even
/// where the registry has changed between the two runs, so a cleanup that
/// comes late cannot take away the entry of a newer connection.
pub proof fn lemma_cleanup_twice(hub: Hub, peer: PeerId, between: Map<PeerId, Outbox>)
    requires
        hub.connections.contains_key(peer),
    ensures
        cleanup(cleanup(hub, peer), peer) == cleanup(hub, peer),
        registry_without(between, peer, State::Terminated) == between,
        forall|event: EventView, outbox: Outbox| #[trigger]
            step(cleanup(hub, peer), peer, event, outbox) == cleanup(hub, peer),
{
    let once = cleanup(hub, peer);
    assert(once.connections.insert(peer, State::Terminated) =~= once.connections);
    assert forall|event: EventView, outbox: Outbox| #[trigger]
        step(once, peer, event, outbox) == once by {
        assert(next_state(State::Terminated, event) is Terminated);
    }
}

/// A close message is never handed on for delivery, wherever the connection
/// stands: on a registered connection it ends the connection instead.
pub proof fn lemma_close_is_never_relayed(state: State, event: EventView)
    ensures
        requested(state, event) matches Request::Broadcast(m) ==> !(m is Close) && event
            == EventView::Inbound(m) && live(state),
        event matches EventView::Inbound(m) && m is Close && live(state) ==> requested(state, event)
            == Request::Close(Cause::PeerClosed) && next_state(state, event)
            is Terminated,
{
}

/// A message that is not a close message, sent by a registered peer, goes to
/// every other peer that is registered at that moment, to each once, and
/// never back to its sender.
///
/// `snapshot` is a copy of the registry as the broadcast finds it.
pub proof fn lemma_broadcast_reaches_the_others(
    hub: Hub,
    sender: PeerId,
    message: MessageView,
    snapshot: Seq<PeerId>,
)
    requires
        consistent(hub),
        hub.connections.contains_key(sender),
        live(hub.connections[sender]),
        !(message is Close),
        snapshot.no_duplicates(),
        snapshot.to_set() == hub.registry.dom(),
    ensures
        requested(hub.connections[sender], EventView::Inbound(message)) == Request::Broadcast(
            message,
        ),
        recipients(snapshot, sender).no_duplicates(),
        !recipients(snapshot, sender).contains(sender),
        forall|p: PeerId|
            #![trigger recipients(snapshot, sender).contains(p)]
            recipients(snapshot, sender).contains(p) <==> (p != sender
                && hub.connections.contains_key(p) && live(hub.connections[p])),
{
    lemma_recipients(snapshot, sender);
    lemma_registry_counts_registered(hub);
    assert forall|p: PeerId|
        #![trigger recipients(snapshot, sender).contains(p)]
        recipients(snapshot, sender).contains(p) <==> (p != sender && hub.connections.contains_key(
            p,
        ) && live(hub.connections[p])) by {
        assert(snapshot.contains(p) <==> snapshot.to_set().contains(p));
    }
}

} // verus!
