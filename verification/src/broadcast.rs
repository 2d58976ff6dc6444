//! The fan-out of one message to every registered peer but its sender.

use vstd::prelude::*;
use futures::channel::mpsc::TrySendError;
use crate::message::Message;
use crate::peer::PeerId;
use crate::registry::{distinct, lemma_distinct_peers, peers_of, Entry};

verus! {

/// The peers that a message of `sender` goes to: those of `peers` that are
/// not `sender`, in their order.
pub open spec fn recipients(peers: Seq<PeerId>, sender: PeerId) -> Seq<PeerId> {
    peers.filter(other_than(sender))
}

/// The test that a peer is not `sender`.
pub open spec fn other_than(sender: PeerId) -> spec_fn(PeerId) -> bool {
    |p: PeerId| p != sender
}

/// One attempt to put a message on the outbound queue of a peer.
#[derive(Clone, Copy, Debug, PartialEq, Eq, Structural)]
pub struct Delivery {
    /// The peer the message was meant for.
    pub peer: PeerId,
    /// Whether the queue took the message. It does not where the peer's
    /// connection has already torn the queue down; the message is then
    /// dropped.
    pub queued: bool,
}

/// The peers of a report, in its order.
pub open spec fn targets(report: Seq<Delivery>) -> Seq<PeerId> {
    report.map_values(|d: Delivery| d.peer)
}

impl Delivery {
    /// The record of one attempt: `sent` is what the queue of `peer`
    /// answered. An error means that the queue is gone, and is no error of
    /// the broadcast.
    pub fn settle(peer: PeerId, sent: Result<(), TrySendError<Message>>) -> (delivery: Delivery)
        ensures
            delivery.peer == peer,
            delivery.queued == sent.is_ok(),
    {
        match sent {
            Ok(_) => Delivery { peer, queued: true },
            Err(_) => Delivery { peer, queued: false },
        }
    }
}

/// A copy of the registry taken at one moment. Its value is the sequence of
/// the peers that were registered then, each once.
pub struct Snapshot {
    pub(crate) entries: Vec<Entry>,
}

impl View for Snapshot {
    type V = Seq<PeerId>;

    closed spec fn view(&self) -> Seq<PeerId> {
        peers_of(self.entries@)
    }
}

impl Snapshot {
    #[verifier::type_invariant]
    spec fn inv(self) -> bool {
        distinct(self.entries@)
    }

    /// The snapshot that holds `entries`.
    pub(crate) fn from_entries(entries: Vec<Entry>) -> (snap: Snapshot)
        requires
            distinct(entries@),
        ensures
            snap@ == peers_of(entries@),
    {
        Snapshot { entries }
    }

    /// The number of peers in the snapshot.
    pub fn len(&self) -> (n: usize)
        ensures
            n == self@.len(),
    {
        self.entries.len()
    }

    /// The peers of the snapshot, in its order.
    pub fn peers(&self) -> (peers: Vec<PeerId>)
        ensures
            peers@ == self@,
            peers@.no_duplicates(),
    {
        proof {
            use_type_invariant(self);
            lemma_distinct_peers(self.entries@);
        }
        let mut peers: Vec<PeerId> = Vec::new();
        let mut i: usize = 0;
        while i < self.entries.len()
            invariant
                i <= self.entries@.len(),
                peers@ == peers_of(self.entries@).take(i as int),
            decreases self.entries@.len() - i,
        {
            peers.push(self.entries[i].peer);
            i += 1;
        }
        peers
    }

    /// Offers a copy of `message` to the outbound queue of every peer of the
    /// snapshot but `sender`, in the snapshot's order, and reports each
    /// attempt. A queue that is gone drops its copy; the others are not
    /// affected.
    pub fn deliver(&self, sender: PeerId, message: &Message) -> (report: Vec<Delivery>)
        ensures
            targets(report@) == recipients(self@, sender),
            targets(report@).no_duplicates(),
            !targets(report@).contains(sender),
    {
        proof {
            use_type_invariant(self);
            lemma_distinct_peers(self.entries@);
            lemma_recipients(self@, sender);
        }
        let mut report: Vec<Delivery> = Vec::new();
        let mut i: usize = 0;
        assert(recipients(Seq::<PeerId>::empty(), sender) == Seq::<PeerId>::empty()) by {
            reveal(Seq::filter);
        }
        while i < self.entries.len()
            invariant
                i <= self.entries@.len(),
                targets(report@) == recipients(peers_of(self.entries@).take(i as int), sender),
            decreases self.entries@.len() - i,
        {
            let entry = &self.entries[i];
            proof {
                let ids = peers_of(self.entries@);
                assert(ids.take(i + 1) =~= ids.take(i as int).push(entry.peer));
                lemma_recipients_push(ids.take(i as int), entry.peer, sender);
            }
            if entry.peer != sender {
                let sent = entry.outbox.unbounded_send(message.clone());
                report.push(Delivery::settle(entry.peer, sent));
            }
            i += 1;
        }
        assert(peers_of(self.entries@).take(i as int) =~= peers_of(self.entries@));
        report
    }
}

proof fn lemma_recipients_push(peers: Seq<PeerId>, next: PeerId, sender: PeerId)
    ensures
        recipients(peers.push(next), sender) == if next != sender {
            recipients(peers, sender).push(next)
        } else {
            recipients(peers, sender)
        },
{
    peers.lemma_filter_push(next, other_than(sender));
}

proof fn lemma_recipient(peers: Seq<PeerId>, sender: PeerId, p: PeerId)
    ensures
        recipients(peers, sender).contains(p) <==> (peers.contains(p) && p != sender),
{
    let got = recipients(peers, sender);
    if got.contains(p) {
        let k = choose|k: int| 0 <= k < got.len() && got[k] == p;
        peers.lemma_filter_pred(other_than(sender), k);
        peers.lemma_filter_contains_rev(other_than(sender), p);
    }
    if peers.contains(p) && p != sender {
        let j = choose|j: int| 0 <= j < peers.len() && peers[j] == p;
        peers.lemma_filter_contains(other_than(sender), j);
    }
}

proof fn lemma_recipients_distinct(peers: Seq<PeerId>, sender: PeerId)
    requires
        peers.no_duplicates(),
    ensures
        recipients(peers, sender).no_duplicates(),
    decreases peers.len(),
{
    if peers.len() > 0 {
        let front = peers.drop_last();
        let last = peers.last();
        assert(peers =~= front.push(last));
        lemma_recipients_distinct(front, sender);
        lemma_recipients_push(front, last, sender);
        lemma_recipient(front, sender, last);
        assert(!front.contains(last)) by {
            if front.contains(last) {
                let j = choose|j: int| 0 <= j < front.len() && front[j] == last;
                assert(peers[j] == peers[peers.len() - 1]);
            }
        }
    } else {
        reveal(Seq::filter);
    }
}

/// A broadcast reaches every peer but its sender, and none twice.
///
/// Of the peers `peers`, a message of `sender` goes to `p` exactly when `p`
/// is one of them and is not `sender`. It never goes back to `sender`, and
/// where no peer occurs twice in `peers`, none occurs twice among the
/// recipients.
pub proof fn lemma_recipients(peers: Seq<PeerId>, sender: PeerId)
    ensures
        !recipients(peers, sender).contains(sender),
        forall|p: PeerId|
            #![trigger recipients(peers, sender).contains(p)]
            #![trigger peers.contains(p)]
            recipients(peers, sender).contains(p) <==> (peers.contains(p) && p != sender),
        recipients(peers, sender).to_set() == peers.to_set().remove(sender),
        peers.no_duplicates() ==> recipients(peers, sender).no_duplicates(),
{
    lemma_recipient(peers, sender, sender);
    assert forall|p: PeerId|
        #![trigger recipients(peers, sender).contains(p)]
        #![trigger peers.contains(p)]
        recipients(peers, sender).contains(p) <==> (peers.contains(p) && p != sender) by {
        lemma_recipient(peers, sender, p);
    }
    if peers.no_duplicates() {
        lemma_recipients_distinct(peers, sender);
    }
}

} // verus!
