//! What holds of the tables of peers, [`crate::peer_map`] and [`crate::peer_queues`], and of
//! the lists that the contracts speak of.

use vstd::prelude::*;

use crate::peer::{addresses, Multiaddr, PeerId};
use crate::peer_map::{identities, runs_through};
use crate::peer_queues::{all_waiting, waiting, with_last, without_first};
use crate::queue::{viewed, views};

verus! {

/// Who waits for a peer is what its queue holds, and nobody where there is no queue.
pub proof fn law_who_waits<T>(queues: Map<Seq<u8>, Seq<T>>, peer: Seq<u8>)
    ensures
        queues.contains_key(peer) ==> waiting(queues, peer) == queues[peer],
        !queues.contains_key(peer) ==> waiting(queues, peer).len() == 0,
        all_waiting(queues) ==> (queues.contains_key(peer) <==> waiting(queues, peer).len() > 0),
{
}

/// One that comes to wait for a peer waits last, however many wait already, and nobody else
/// is touched.
pub proof fn law_one_more_waits_last<T>(
    queues: Map<Seq<u8>, Seq<T>>,
    peer: Seq<u8>,
    item: T,
    other: Seq<u8>,
)
    requires
        other != peer,
    ensures
        ({
            let after = with_last(queues, peer, item);
            let before: Seq<T> = if queues.contains_key(peer) {
                queues[peer]
            } else {
                Seq::empty()
            };
            &&& after.contains_key(peer)
            &&& after[peer].len() == before.len() + 1
            &&& after[peer].last() == item
            &&& after[peer].drop_last() == before
            &&& after.contains_key(other) <==> queues.contains_key(other)
            &&& after.contains_key(other) ==> after[other] == queues[other]
        }),
{
    let before: Seq<T> = if queues.contains_key(peer) {
        queues[peer]
    } else {
        Seq::empty()
    };
    assert(with_last(queues, peer, item)[peer].drop_last() =~= before);
}

/// The one that waited longest for a peer goes first, and the others wait on in their order.
/// Nobody else is touched.
pub proof fn law_first_goes_first<T>(
    queues: Map<Seq<u8>, Seq<T>>,
    peer: Seq<u8>,
    other: Seq<u8>,
)
    requires
        other != peer,
        queues.contains_key(peer) ==> queues[peer].len() > 0,
    ensures
        ({
            let after = without_first(queues, peer);
            &&& queues.contains_key(peer) && queues[peer].len() > 1 ==> {
                &&& after.contains_key(peer)
                &&& queues[peer] == seq![queues[peer][0]] + after[peer]
            }
            &&& !(queues.contains_key(peer) && queues[peer].len() > 1) ==> !after.contains_key(peer)
            &&& after.contains_key(other) <==> queues.contains_key(other)
            &&& after.contains_key(other) ==> after[other] == queues[other]
        }),
{
    if queues.contains_key(peer) && queues[peer].len() > 1 {
        assert(queues[peer] =~= seq![queues[peer][0]] + without_first(queues, peer)[peer]);
    }
}

/// There are queues only where someone waits just if none is empty.
pub proof fn law_no_queue_is_empty<T>(queues: Map<Seq<u8>, Seq<T>>)
    ensures
        all_waiting(queues) <==> forall|peer: Seq<u8>| #[trigger]
            queues.contains_key(peer) ==> queues[peer].len() > 0,
{
}

/// A sequence runs through a set just if it has each member once, and nothing else.
pub proof fn law_runs_through(order: Seq<Seq<u8>>, peers: Set<Seq<u8>>)
    ensures
        runs_through(order, peers) <==> {
            &&& forall|i: int, j: int|
                0 <= i < j < order.len() ==> #[trigger] order[i] != #[trigger] order[j]
            &&& forall|peer: Seq<u8>| #[trigger] order.contains(peer) <==> peers.contains(peer)
        },
{
}

/// A list of peers, of addresses or of events stands for what each of them is, in the same
/// order.
pub proof fn law_lists_keep_their_order<T: View>(
    peers: Seq<PeerId>,
    addrs: Seq<Multiaddr>,
    items: Seq<T>,
    item: T,
)
    ensures
        identities(peers).len() == peers.len(),
        forall|i: int| 0 <= i < peers.len() ==> #[trigger] identities(peers)[i] == peers[i]@,
        addresses(addrs).len() == addrs.len(),
        forall|i: int|
            0 <= i < addrs.len() ==> #[trigger] addresses(addrs)[i] == addrs[i].bytes@,
        views(items).len() == items.len(),
        forall|i: int| 0 <= i < items.len() ==> #[trigger] views(items)[i] == items[i]@,
        viewed(Some(item)) == Some(item@),
        viewed(None::<T>) is None,
{
}

} // verus!
