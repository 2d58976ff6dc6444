//! The peer registry: which connections are registered, and the outbound
//! queue of each.

use vstd::prelude::*;
use futures::channel::mpsc::{UnboundedReceiver, UnboundedSender};
use crate::broadcast::{lemma_recipients, recipients, targets, Delivery, Snapshot};
use crate::message::Message;
use crate::peer::PeerId;

verus! {

/// The sending half of one connection's outbound queue.
pub type Outbox = UnboundedSender<Message>;

/// The receiving half of one connection's outbound queue.
pub type Inbox = UnboundedReceiver<Message>;

/// One registered peer with the sending half of its outbound queue.
pub(crate) struct Entry {
    pub(crate) peer: PeerId,
    pub(crate) outbox: Outbox,
}

/// No identity occurs twice among the entries.
pub(crate) open spec fn distinct(entries: Seq<Entry>) -> bool {
    forall|i: int, j: int| 0 <= i < j < entries.len() ==> entries[i].peer != entries[j].peer
}

/// Some entry is registered under `peer`.
pub(crate) open spec fn present(entries: Seq<Entry>, peer: PeerId) -> bool {
    exists|i: int| 0 <= i < entries.len() && (#[trigger] entries[i]).peer == peer
}

/// The place of the entry of `peer`, where there is one.
pub(crate) open spec fn slot(entries: Seq<Entry>, peer: PeerId) -> int {
    choose|i: int| 0 <= i < entries.len() && (#[trigger] entries[i]).peer == peer
}

/// The entries as a map from identity to outbound queue.
pub(crate) open spec fn as_map(entries: Seq<Entry>) -> Map<PeerId, Outbox> {
    Map::new(|p: PeerId| present(entries, p), |p: PeerId| entries[slot(entries, p)].outbox)
}

/// The identities of the entries, in their order.
pub(crate) open spec fn peers_of(entries: Seq<Entry>) -> Seq<PeerId> {
    entries.map_values(|e: Entry| e.peer)
}

proof fn lemma_slot(entries: Seq<Entry>, i: int)
    requires
        distinct(entries),
        0 <= i < entries.len(),
    ensures
        present(entries, entries[i].peer),
        slot(entries, entries[i].peer) == i,
{
    let k = slot(entries, entries[i].peer);
    assert(0 <= k < entries.len() && entries[k].peer == entries[i].peer);
}

proof fn lemma_push(entries: Seq<Entry>, e: Entry)
    requires
        distinct(entries),
        !present(entries, e.peer),
    ensures
        distinct(entries.push(e)),
        as_map(entries.push(e)) == as_map(entries).insert(e.peer, e.outbox),
{
    let after = entries.push(e);
    assert(distinct(after));
    assert forall|p: PeerId| present(after, p) <==> (p == e.peer || present(entries, p)) by {
        if present(after, p) {
            let k = slot(after, p);
        }
        if p == e.peer {
            assert(after[entries.len() as int].peer == p);
        }
        if present(entries, p) {
            assert(after[slot(entries, p)].peer == p);
        }
    }
}

proof fn lemma_remove(entries: Seq<Entry>, i: int)
    requires
        distinct(entries),
        0 <= i < entries.len(),
    ensures
        distinct(entries.remove(i)),
        !present(entries.remove(i), entries[i].peer),
        as_map(entries.remove(i)) == as_map(entries).remove(entries[i].peer),
{
    let after = entries.remove(i);
    let gone = entries[i].peer;
    assert(distinct(after));
    assert forall|p: PeerId| present(after, p) <==> (p != gone && present(entries, p)) by {
        if present(after, p) {
            let k = slot(after, p);
            let k0 = if k < i { k } else { k + 1 };
            lemma_slot(entries, i);
            lemma_slot(entries, k0);
        }
        if p != gone && present(entries, p) {
            let k0 = slot(entries, p);
            let k = if k0 < i { k0 } else { k0 - 1 };
            assert(after[k].peer == p);
        }
    }
}

pub(crate) proof fn lemma_distinct_peers(entries: Seq<Entry>)
    requires
        distinct(entries),
    ensures
        peers_of(entries).no_duplicates(),
{
    let ids = peers_of(entries);
    assert forall|i: int, j: int| 0 <= i < ids.len() && 0 <= j < ids.len() && i != j implies ids[i]
        != ids[j] by {
        if i < j {
            assert(entries[i].peer != entries[j].peer);
        } else {
            assert(entries[j].peer != entries[i].peer);
        }
    }
}

proof fn lemma_size(entries: Seq<Entry>)
    requires
        distinct(entries),
    ensures
        as_map(entries).dom().finite(),
        as_map(entries).dom().len() == entries.len(),
        peers_of(entries).no_duplicates(),
        peers_of(entries).to_set() == as_map(entries).dom(),
{
    let ids = peers_of(entries);
    lemma_distinct_peers(entries);
    assert forall|p: PeerId| ids.to_set().contains(p) <==> present(entries, p) by {
        if ids.to_set().contains(p) {
            let k = choose|k: int| 0 <= k < ids.len() && ids[k] == p;
            assert(entries[k].peer == p);
        }
        if present(entries, p) {
            assert(ids[slot(entries, p)] == p);
        }
    }
    assert(ids.to_set() =~= as_map(entries).dom());
    ids.unique_seq_to_set();
    vstd::seq_lib::seq_to_set_is_finite(ids);
}

/// The shared table of the registered peers.
///
/// Its value is a map from the identity of a registered connection to the
/// sending half of that connection's outbound queue. An identity has at most
/// one entry at any time.
pub struct Registry {
    entries: Vec<Entry>,
}

impl View for Registry {
    type V = Map<PeerId, Outbox>;

    closed spec fn view(&self) -> Map<PeerId, Outbox> {
        as_map(self.entries@)
    }
}

impl Registry {
    #[verifier::type_invariant]
    spec fn inv(self) -> bool {
        distinct(self.entries@)
    }

    /// A registry without entries.
    pub fn new() -> (registry: Registry)
        ensures
            registry@ == Map::<PeerId, Outbox>::empty(),
    {
        let registry = Registry { entries: Vec::new() };
        registry
    }

    /// The number of registered peers.
    pub fn len(&self) -> (n: usize)
        ensures
            self@.dom().finite(),
            n == self@.len(),
    {
        proof {
            use_type_invariant(self);
            lemma_size(self.entries@);
        }
        self.entries.len()
    }

    fn find(&self, peer: PeerId) -> (found: Option<usize>)
        ensures
            match found {
                Some(i) => i < self.entries@.len() && self.entries@[i as int].peer == peer,
                None => !present(self.entries@, peer),
            },
    {
        let mut i: usize = 0;
        while i < self.entries.len()
            invariant
                i <= self.entries@.len(),
                forall|k: int| 0 <= k < i ==> self.entries@[k].peer != peer,
            decreases self.entries@.len() - i,
        {
            if self.entries[i].peer == peer {
                return Some(i);
            }
            i += 1;
        }
        None
    }

    /// Whether `peer` is registered.
    pub fn contains(&self, peer: PeerId) -> (b: bool)
        ensures
            b == self@.contains_key(peer),
    {
        self.find(peer).is_some()
    }

    /// Registers `peer` with `outbox` as its outbound queue. Where `peer` was
    /// registered already, the new queue takes the place of the old one,
    /// which is handed back.
    pub fn insert(&mut self, peer: PeerId, outbox: Outbox) -> (displaced: Option<Outbox>)
        ensures
            final(self)@ == old(self)@.insert(peer, outbox),
            displaced == if old(self)@.contains_key(peer) {
                Some(old(self)@[peer])
            } else {
                None::<Outbox>
            },
    {
        proof {
            use_type_invariant(&*self);
        }
        let found = self.find(peer);
        let mut entries: Vec<Entry> = Vec::new();
        core::mem::swap(&mut self.entries, &mut entries);
        let displaced = match found {
            Some(i) => {
                proof {
                    lemma_slot(entries@, i as int);
                    lemma_remove(entries@, i as int);
                }
                Some(entries.remove(i).outbox)
            },
            None => None,
        };
        proof {
            lemma_push(entries@, Entry { peer, outbox });
        }
        entries.push(Entry { peer, outbox });
        self.entries = entries;
        displaced
    }

    /// Takes the entry of `peer` out of the registry and hands back its
    /// outbound queue. Where `peer` is not registered, nothing changes.
    pub fn remove(&mut self, peer: PeerId) -> (removed: Option<Outbox>)
        ensures
            final(self)@ == old(self)@.remove(peer),
            removed == if old(self)@.contains_key(peer) {
                Some(old(self)@[peer])
            } else {
                None::<Outbox>
            },
    {
        proof {
            use_type_invariant(&*self);
        }
        match self.find(peer) {
            Some(i) => {
                let mut entries: Vec<Entry> = Vec::new();
                core::mem::swap(&mut self.entries, &mut entries);
                proof {
                    lemma_slot(entries@, i as int);
                    lemma_remove(entries@, i as int);
                }
                let gone = entries.remove(i);
                self.entries = entries;
                Some(gone.outbox)
            },
            None => None,
        }
    }

    /// Opens a new outbound queue for `peer`, registers its sending half as
    /// [`insert`](Registry::insert) does, and hands back the receiving half.
    pub fn register(&mut self, peer: PeerId) -> (inbox: Inbox)
        ensures
            exists|outbox: Outbox| final(self)@ == #[trigger] old(self)@.insert(peer, outbox),
    {
        let (outbox, inbox) = futures::channel::mpsc::unbounded::<Message>();
        self.insert(peer, outbox);
        inbox
    }

    /// A copy of the registry as it stands: every registered peer once, each
    /// with a handle of its own for the peer's outbound queue.
    pub fn snapshot(&self) -> (snap: Snapshot)
        ensures
            snap@.no_duplicates(),
            snap@.to_set() == self@.dom(),
            snap@.len() == self@.len(),
    {
        proof {
            use_type_invariant(self);
            lemma_size(self.entries@);
        }
        let mut copy: Vec<Entry> = Vec::new();
        let mut i: usize = 0;
        while i < self.entries.len()
            invariant
                i <= self.entries@.len(),
                copy@.len() == i,
                forall|k: int| 0 <= k < i ==> copy@[k].peer == self.entries@[k].peer,
            decreases self.entries@.len() - i,
        {
            let entry = &self.entries[i];
            copy.push(Entry { peer: entry.peer, outbox: entry.outbox.clone() });
            i += 1;
        }
        assert(peers_of(copy@) =~= peers_of(self.entries@));
        assert(distinct(copy@));
        Snapshot::from_entries(copy)
    }

    /// Offers a copy of `message` to every registered peer but `sender`, and
    /// reports each attempt.
    pub fn broadcast(&self, sender: PeerId, message: &Message) -> (report: Vec<Delivery>)
        ensures
            targets(report@).no_duplicates(),
            targets(report@).to_set() == self@.dom().remove(sender),
            forall|p: PeerId|
                #[trigger] targets(report@).contains(p) <==> self@.contains_key(p) && p != sender,
    {
        let snap = self.snapshot();
        proof {
            lemma_recipients(snap@, sender);
            assert(forall|p: PeerId| #[trigger]
                recipients(snap@, sender).contains(p) <==> snap@.to_set().contains(p) && p
                    != sender);
        }
        snap.deliver(sender, message)
    }
}

} // verus!
