//! What waits for each peer, in the order in which it came.

use std::collections::VecDeque;

use vstd::prelude::*;

use crate::peer::PeerId;
use crate::peer_map::PeerMap;

verus! {

/// What waits for a peer.
pub open spec fn waiting<T>(queues: Map<Seq<u8>, Seq<T>>, peer: Seq<u8>) -> Seq<T> {
    if queues.contains_key(peer) {
        queues[peer]
    } else {
        Seq::empty()
    }
}

/// The queues once one more item waits for a peer.
pub open spec fn with_last<T>(queues: Map<Seq<u8>, Seq<T>>, peer: Seq<u8>, item: T) -> Map<
    Seq<u8>,
    Seq<T>,
> {
    queues.insert(peer, waiting(queues, peer).push(item))
}

/// The queues once the first item that waited for a peer, if any, is gone.
pub open spec fn without_first<T>(queues: Map<Seq<u8>, Seq<T>>, peer: Seq<u8>) -> Map<
    Seq<u8>,
    Seq<T>,
> {
    if waiting(queues, peer).len() <= 1 {
        queues.remove(peer)
    } else {
        queues.insert(peer, waiting(queues, peer).drop_first())
    }
}

/// Whether there are queues only where something waits.
pub open spec fn all_waiting<T>(queues: Map<Seq<u8>, Seq<T>>) -> bool {
    forall|peer: Seq<u8>| #[trigger] queues.contains_key(peer) ==> queues[peer].len() > 0
}

/// A queue for each peer that something waits for.
#[derive(Debug)]
pub struct PeerQueues<T> {
    queues: PeerMap<VecDeque<T>>,
}

impl<T> View for PeerQueues<T> {
    type V = Map<Seq<u8>, Seq<T>>;

    closed spec fn view(&self) -> Map<Seq<u8>, Seq<T>> {
        Map::new(
            |peer: Seq<u8>| self.queues@.contains_key(peer) && self.queues@[peer]@.len() > 0,
            |peer: Seq<u8>| self.queues@[peer]@,
        )
    }
}

impl<T> PeerQueues<T> {
    /// The table of peers is in order.
    pub closed spec fn well_formed(self) -> bool {
        self.queues.inv()
    }

    pub open spec fn inv(self) -> bool {
        &&& self.well_formed()
        &&& all_waiting(self@)
    }

    /// Nothing waits for anyone.
    pub fn new() -> (queues: PeerQueues<T>)
        ensures
            queues.inv(),
            queues@ == Map::<Seq<u8>, Seq<T>>::empty(),
    {
        let queues = PeerQueues { queues: PeerMap::new() };
        assert(queues@ =~= Map::<Seq<u8>, Seq<T>>::empty());
        queues
    }

    /// Lets an item wait for a peer, behind those that wait already.
    pub fn push_back(&mut self, peer_id: &PeerId, item: T)
        requires
            old(self).inv(),
        ensures
            final(self).inv(),
            final(self)@ == with_last(old(self)@, peer_id@, item),
    {
        if let Some(queue) = self.queues.get_mut(peer_id) {
            queue.push_back(item);
        } else {
            let mut queue: VecDeque<T> = VecDeque::new();
            queue.push_back(item);
            self.queues.insert(peer_id.clone(), queue);
        }
        assert(self.queues@[peer_id@]@ =~= waiting(old(self)@, peer_id@).push(item));
        assert(self@ =~= with_last(old(self)@, peer_id@, item));
    }

    /// Takes the item out that waited longest for a peer.
    pub fn pop_front(&mut self, peer_id: &PeerId) -> (item: Option<T>)
        requires
            old(self).inv(),
        ensures
            final(self).inv(),
            final(self)@ == without_first(old(self)@, peer_id@),
            item == if old(self)@.contains_key(peer_id@) {
                Some(old(self)@[peer_id@].first())
            } else {
                None
            },
    {
        let item = match self.queues.get_mut(peer_id) {
            Some(queue) => queue.pop_front(),
            None => None,
        };
        assert(self@ =~= without_first(old(self)@, peer_id@));
        item
    }

    /// Takes everything out that waited for a peer.
    pub fn remove(&mut self, peer_id: &PeerId) -> (items: VecDeque<T>)
        requires
            old(self).inv(),
        ensures
            final(self).inv(),
            final(self)@ == old(self)@.remove(peer_id@),
            items@ == waiting(old(self)@, peer_id@),
    {
        let items = match self.queues.remove(peer_id) {
            Some(queue) => queue,
            None => VecDeque::new(),
        };
        assert(self@ =~= old(self)@.remove(peer_id@));
        assert(items@ =~= waiting(old(self)@, peer_id@));
        items
    }
}

} // verus!
