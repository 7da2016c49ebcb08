//! What is known of each peer.

use vstd::prelude::*;

use crate::peer::PeerId;

verus! {

/// A sequence that runs through a set: each member occurs in it, once.
pub open spec fn runs_through(order: Seq<Seq<u8>>, peers: Set<Seq<u8>>) -> bool {
    &&& order.no_duplicates()
    &&& forall|peer: Seq<u8>| #[trigger] order.contains(peer) <==> peers.contains(peer)
}

/// The identities in a list of peers.
pub open spec fn identities(peers: Seq<PeerId>) -> Seq<Seq<u8>> {
    peers.map_values(|peer_id: PeerId| peer_id@)
}

#[derive(Debug)]
struct Entry<V> {
    peer_id: PeerId,
    value: V,
}

/// A value for each of some peers. No peer occurs twice.
#[derive(Debug)]
pub struct PeerMap<V> {
    entries: Vec<Entry<V>>,
}

impl<V> PeerMap<V> {
    /// No two entries are of one peer.
    pub closed spec fn inv(self) -> bool {
        forall|i: int, j: int|
            0 <= i < j < self.entries@.len() ==> (#[trigger] self.entries@[i]).peer_id@ != (
            #[trigger] self.entries@[j]).peer_id@
    }

    closed spec fn has(self, peer: Seq<u8>) -> bool {
        exists|i: int|
            0 <= i < self.entries@.len() && (#[trigger] self.entries@[i]).peer_id@ == peer
    }

    closed spec fn index_of(self, peer: Seq<u8>) -> int {
        choose|i: int|
            0 <= i < self.entries@.len() && (#[trigger] self.entries@[i]).peer_id@ == peer
    }
}

impl<V> View for PeerMap<V> {
    type V = Map<Seq<u8>, V>;

    closed spec fn view(&self) -> Map<Seq<u8>, V> {
        Map::new(
            |peer: Seq<u8>| self.has(peer),
            |peer: Seq<u8>| self.entries@[self.index_of(peer)].value,
        )
    }
}

impl<V> PeerMap<V> {
    /// A map without peers.
    pub fn new() -> (map: PeerMap<V>)
        ensures
            map.inv(),
            map@ == Map::<Seq<u8>, V>::empty(),
    {
        let map = PeerMap { entries: Vec::new() };
        assert(map@ =~= Map::<Seq<u8>, V>::empty());
        map
    }

    /// The place of a peer's entry, if there is one.
    fn position(&self, peer_id: &PeerId) -> (place: Option<usize>)
        requires
            self.inv(),
        ensures
            match place {
                Some(i) => {
                    &&& i < self.entries@.len()
                    &&& self.entries@[i as int].peer_id@ == peer_id@
                    &&& self.has(peer_id@)
                    &&& self.index_of(peer_id@) == i
                },
                None => !self.has(peer_id@),
            },
    {
        let mut i: usize = 0;
        while i < self.entries.len()
            invariant
                i <= self.entries@.len(),
                self.inv(),
                forall|j: int| 0 <= j < i ==> self.entries@[j].peer_id@ != peer_id@,
            decreases self.entries@.len() - i,
        {
            if self.entries[i].peer_id.same(peer_id) {
                return Some(i);
            }
            i += 1;
        }
        None
    }

    /// Whether the map has a value for the peer.
    pub fn contains(&self, peer_id: &PeerId) -> (found: bool)
        requires
            self.inv(),
        ensures
            found == self@.contains_key(peer_id@),
    {
        self.position(peer_id).is_some()
    }

    /// The value for the peer.
    pub fn get(&self, peer_id: &PeerId) -> (value: Option<&V>)
        requires
            self.inv(),
        ensures
            value == if self@.contains_key(peer_id@) {
                Some(&self@[peer_id@])
            } else {
                None
            },
    {
        match self.position(peer_id) {
            Some(i) => Some(&self.entries[i].value),
            None => None,
        }
    }

    /// The value for the peer, to be changed in place.
    pub fn get_mut(&mut self, peer_id: &PeerId) -> (value: Option<&mut V>)
        requires
            old(self).inv(),
        ensures
            final(self).inv(),
            match value {
                Some(v) => {
                    &&& old(self)@.contains_key(peer_id@)
                    &&& *v == old(self)@[peer_id@]
                    &&& final(self)@ == old(self)@.insert(peer_id@, *final(v))
                },
                None => {
                    &&& !old(self)@.contains_key(peer_id@)
                    &&& final(self)@ == old(self)@
                },
            },
    {
        match self.position(peer_id) {
            Some(i) => {
                let value = &mut self.entries[i].value;
                proof {
                    Self::lemma_set(*old(self), after_borrow(*self), i as int, *final(value));
                }
                Some(value)
            },
            None => None,
        }
    }

    /// To change the value of an entry is to change the value for its peer.
    proof fn lemma_set(before: Self, after: Self, i: int, value: V)
        requires
            before.inv(),
            0 <= i < before.entries@.len(),
            after.entries@ == before.entries@.update(
                i,
                Entry { peer_id: before.entries@[i].peer_id, value },
            ),
        ensures
            after.inv(),
            after@ == before@.insert(before.entries@[i].peer_id@, value),
    {
        let peer = before.entries@[i].peer_id@;
        assert forall|j: int| 0 <= j < after.entries@.len() implies (
        #[trigger] after.entries@[j]).peer_id@ == before.entries@[j].peer_id@ by {}
        assert forall|p: Seq<u8>| before.has(p) || after.has(p) implies before.has(p) && after.has(p)
            && before.index_of(p) == after.index_of(p) by {
            if before.has(p) {
                assert(after.entries@[before.index_of(p)].peer_id@ == p);
            } else {
                assert(before.entries@[after.index_of(p)].peer_id@ == p);
            }
        }
        assert(after.entries@[i].peer_id@ == peer);
        assert(after@ =~= before@.insert(peer, value));
    }

    /// Gives the peer a value, in place of the one that it had.
    pub fn insert(&mut self, peer_id: PeerId, value: V) -> (previous: Option<V>)
        requires
            old(self).inv(),
        ensures
            final(self).inv(),
            final(self)@ == old(self)@.insert(peer_id@, value),
            previous == if old(self)@.contains_key(peer_id@) {
                Some(old(self)@[peer_id@])
            } else {
                None
            },
    {
        let previous = self.remove(&peer_id);
        let ghost before = *self;
        let ghost peer = peer_id@;
        self.entries.push(Entry { peer_id, value });
        proof {
            let n = before.entries@.len() as int;
            assert(!before@.contains_key(peer));
            assert(!before.has(peer));
            assert(self.entries@[n].peer_id@ == peer);
            assert(self.index_of(peer) == n);
            assert forall|p: Seq<u8>| p != peer implies self.has(p) == before.has(p) && (before.has(p)
                ==> self.index_of(p) == before.index_of(p)) by {
                if before.has(p) {
                    assert(self.entries@[before.index_of(p)].peer_id@ == p);
                }
                if self.has(p) {
                    assert(before.entries@[self.index_of(p)].peer_id@ == p);
                }
            }
            assert(self@ =~= before@.insert(peer, value));
            assert(self@ =~= old(self)@.insert(peer, value));
        }
        previous
    }

    /// Takes the peer's value out.
    pub fn remove(&mut self, peer_id: &PeerId) -> (value: Option<V>)
        requires
            old(self).inv(),
        ensures
            final(self).inv(),
            final(self)@ == old(self)@.remove(peer_id@),
            value == if old(self)@.contains_key(peer_id@) {
                Some(old(self)@[peer_id@])
            } else {
                None
            },
    {
        match self.position(peer_id) {
            None => {
                assert(self@ =~= old(self)@.remove(peer_id@));
                None
            },
            Some(i) => {
                let entry = self.entries.remove(i);
                proof {
                    let before = *old(self);
                    assert forall|j: int| 0 <= j < self.entries@.len() implies (
                    #[trigger] self.entries@[j]) == before.entries@[if j < i { j } else { j + 1 }] by {}
                    assert(!self.has(peer_id@));
                    assert forall|p: Seq<u8>| p != peer_id@ implies self.has(p) == before.has(p) && (
                    before.has(p) ==> self.entries@[self.index_of(p)]
                        == before.entries@[before.index_of(p)]) by {
                        if before.has(p) {
                            let k = before.index_of(p);
                            assert(self.entries@[if k < i { k } else { k - 1 }].peer_id@ == p);
                        }
                        if self.has(p) {
                            let k = self.index_of(p);
                            assert(before.entries@[if k < i { k } else { k + 1 }].peer_id@ == p);
                        }
                    }
                    assert(self@ =~= before@.remove(peer_id@));
                }
                Some(entry.value)
            },
        }
    }

    /// The peers that the map has a value for.
    pub fn peers(&self) -> (peers: Vec<PeerId>)
        requires
            self.inv(),
        ensures
            runs_through(identities(peers@), self@.dom()),
    {
        let mut peers: Vec<PeerId> = Vec::new();
        let mut i: usize = 0;
        while i < self.entries.len()
            invariant
                i <= self.entries@.len(),
                peers@.len() == i,
                forall|j: int| 0 <= j < i ==> (#[trigger] peers@[j])@ == self.entries@[j].peer_id@,
            decreases self.entries@.len() - i,
        {
            peers.push(self.entries[i].peer_id.clone());
            i += 1;
        }
        proof {
            let order = identities(peers@);
            assert forall|p: Seq<u8>| #[trigger] order.contains(p) <==> self@.dom().contains(p) by {
                if order.contains(p) {
                    let j = choose|j: int| 0 <= j < order.len() && order[j] == p;
                    assert(peers@[j]@ == p);
                    assert(self.entries@[j].peer_id@ == p);
                }
                if self.has(p) {
                    assert(order[self.index_of(p)] == p);
                }
            }
            assert forall|j: int, k: int| 0 <= j < order.len() && 0 <= k < order.len() && j != k implies
                order[j] != order[k] by {
                assert(peers@[j]@ == self.entries@[j].peer_id@);
                assert(peers@[k]@ == self.entries@[k].peer_id@);
            }
        }
        peers
    }
}

} // verus!
