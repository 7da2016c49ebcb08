//! What each operation of [`crate::manager`] does.

use vstd::prelude::*;

use crate::manager::{
    dial_event, received_of, result_of, Error, ManagerView, Route,
};
use crate::stream::StreamOrigin;
use crate::swarm::PeerCondition;

verus! {

/// A manager that was just made knows no connection and nobody waits.
pub proof fn law_new_manager_is_empty<D, O, A>()
    ensures
        forall|peer: Seq<u8>|
            !(#[trigger] ManagerView::<D, O, A>::initial().conn_dial.contains_key(peer)),
        forall|peer: Seq<u8>|
            !(#[trigger] ManagerView::<D, O, A>::initial().conn_stream_outbound.contains_key(peer)),
        forall|peer: Seq<u8>|
            !(#[trigger] ManagerView::<D, O, A>::initial().conn_stream_inbound.contains_key(peer)),
{
}

/// For a request for a connection the peer is dialed under exactly the addresses that were
/// given, in their order, however many there are, unless it is being dialed already.
pub proof fn law_dial_goes_to_the_given_addresses(peer: Seq<u8>, addrs: Seq<Seq<u8>>)
    ensures
        ({
            let event = dial_event(peer, addrs);
            &&& event is Dial
            &&& event->Dial_0.peer_id == peer
            &&& event->Dial_0.condition == PeerCondition::NotDialing
            &&& event->Dial_0.addresses is Some
            &&& event->Dial_0.addresses->0.len() == addrs.len()
            &&& forall|i: int|
                0 <= i < addrs.len() ==> #[trigger] event->Dial_0.addresses->0[i] == addrs[i]
        }),
{
}

/// One that asks for a connection waits for it, in place of an earlier one that asked for a
/// connection to the same peer. Nothing else changes.
pub proof fn law_dial_request_waits<D, O, A>(
    state: ManagerView<D, O, A>,
    peer: Seq<u8>,
    reply: D,
)
    ensures
        state.with_dial(peer, reply).conn_dial == state.conn_dial.insert(peer, reply),
        state.with_dial(peer, reply).conn_stream_outbound == state.conn_stream_outbound,
        state.with_dial(peer, reply).conn_stream_inbound == state.conn_stream_inbound,
{
}

/// One that asks for a stream waits last for it. Nothing else changes.
pub proof fn law_open_request_waits<D, O, A>(
    state: ManagerView<D, O, A>,
    peer: Seq<u8>,
    reply: O,
)
    ensures
        ({
            let after = state.with_open(peer, reply);
            let before: Seq<O> = if state.conn_stream_outbound.contains_key(peer) {
                state.conn_stream_outbound[peer]
            } else {
                Seq::empty()
            };
            &&& after.conn_stream_outbound == state.conn_stream_outbound.insert(
                peer,
                before.push(reply),
            )
            &&& after.conn_dial == state.conn_dial
            &&& after.conn_stream_inbound == state.conn_stream_inbound
        }),
{
}

/// A stream that the peer opened goes to the connection to the peer, and makes a new one, for
/// the endpoint, if there is none. From then on the streams that the peer opens go to it.
pub proof fn law_where_an_accepted_stream_goes<D, O, A>(
    state: ManagerView<D, O, A>,
    peer: Seq<u8>,
    accept_tx: A,
)
    ensures
        ({
            let route = state.route(peer, StreamOrigin::Inbound);
            let after = state.handled(peer, StreamOrigin::Inbound, accept_tx);
            &&& route is Accept <==> state.conn_stream_inbound.contains_key(peer)
            &&& route is Incoming <==> !state.conn_stream_inbound.contains_key(peer)
            &&& state.needs_connection(peer, StreamOrigin::Inbound)
                <==> !state.conn_stream_inbound.contains_key(peer)
            &&& state.conn_stream_inbound.contains_key(peer) ==> after.conn_stream_inbound
                == state.conn_stream_inbound
            &&& !state.conn_stream_inbound.contains_key(peer) ==> after.conn_stream_inbound
                == state.conn_stream_inbound.insert(peer, accept_tx)
            &&& after.conn_dial == state.conn_dial
            &&& after.conn_stream_outbound == state.conn_stream_outbound
        }),
{
}

/// A stream that was opened from here goes to the one that waited longest for a stream to its
/// peer. If nobody did, it makes the connection that someone waits for. Who gets it waits no
/// more. If nobody waits at all, it goes nowhere and nothing changes.
pub proof fn law_where_an_opened_stream_goes<D, O, A>(
    state: ManagerView<D, O, A>,
    peer: Seq<u8>,
    accept_tx: A,
)
    requires
        state.inv(),
    ensures
        ({
            let route = state.route(peer, StreamOrigin::Outbound);
            let after = state.handled(peer, StreamOrigin::Outbound, accept_tx);
            let opened = state.conn_stream_outbound.contains_key(peer);
            let dialed = !opened && state.conn_dial.contains_key(peer);
            &&& opened ==> {
                let queue = state.conn_stream_outbound[peer];
                &&& route == Route::<D, O>::Opened { reply: queue[0] }
                &&& queue.len() == 1 ==> after.conn_stream_outbound
                    == state.conn_stream_outbound.remove(peer)
                &&& queue.len() > 1 ==> after.conn_stream_outbound
                    == state.conn_stream_outbound.insert(peer, queue.skip(1))
                &&& after.conn_dial == state.conn_dial
                &&& after.conn_stream_inbound == state.conn_stream_inbound
            }
            &&& dialed ==> {
                &&& route == Route::<D, O>::Dialed { reply: state.conn_dial[peer] }
                &&& after.conn_dial == state.conn_dial.remove(peer)
                &&& after.conn_stream_inbound == state.conn_stream_inbound.insert(peer, accept_tx)
                &&& after.conn_stream_outbound == state.conn_stream_outbound
            }
            &&& !opened && !dialed ==> route is Unrequested && after == state
            &&& state.needs_connection(peer, StreamOrigin::Outbound) <==> dialed
        }),
{
    if state.conn_stream_outbound.contains_key(peer) {
        let queue = state.conn_stream_outbound[peer];
        assert(queue.skip(1) =~= queue.drop_first());
    }
}

/// A connection that a peer makes takes in the streams that the peer opens. Nothing else
/// changes.
pub proof fn law_incoming_connection<D, O, A>(
    state: ManagerView<D, O, A>,
    peer: Seq<u8>,
    accept_tx: A,
)
    ensures
        state.with_connection(peer, accept_tx).conn_stream_inbound
            == state.conn_stream_inbound.insert(peer, accept_tx),
        state.with_connection(peer, accept_tx).conn_dial == state.conn_dial,
        state.with_connection(peer, accept_tx).conn_stream_outbound == state.conn_stream_outbound,
{
}

/// Once the connection to a peer is gone, streams that the peer opens no longer go to it, and
/// those that waited for a stream to the peer wait no more. Nothing else changes.
pub proof fn law_disconnected_peer_is_forgotten<D, O, A>(
    state: ManagerView<D, O, A>,
    peer: Seq<u8>,
)
    ensures
        state.disconnected(peer).conn_stream_inbound == state.conn_stream_inbound.remove(peer),
        state.disconnected(peer).conn_stream_outbound == state.conn_stream_outbound.remove(peer),
        state.disconnected(peer).conn_dial == state.conn_dial,
{
}

/// Once the one that waited for a connection got an answer, it waits no more. Nothing else
/// changes.
pub proof fn law_answered_dial_is_forgotten<D, O, A>(state: ManagerView<D, O, A>, peer: Seq<u8>)
    ensures
        state.without_dial(peer).conn_dial == state.conn_dial.remove(peer),
        state.without_dial(peer).conn_stream_outbound == state.conn_stream_outbound,
        state.without_dial(peer).conn_stream_inbound == state.conn_stream_inbound,
{
}

/// A request that was sent and answered comes to its answer, whatever that is. One that was
/// not sent, or never answered, finds the channel closed.
pub proof fn law_requests_come_to_their_answers<T>(answer: Result<T, Error>, sent: bool)
    ensures
        result_of(true, Some(answer)) == answer,
        result_of(false, Some(answer)) == Err::<T, Error>(Error::ChannelClosed),
        result_of(sent, None::<Result<T, Error>>) == Err::<T, Error>(Error::ChannelClosed),
{
}

/// What is received from a channel is handed on, whatever it is. A channel whose other side is
/// gone is closed, and one without an item gives nothing yet.
pub proof fn law_channels_hand_on<T>(item: T)
    ensures
        received_of(Some(Some(item))) == Some(Ok::<T, Error>(item)),
        received_of(Some(None::<T>)) == Some(Err::<T, Error>(Error::ChannelClosed)),
        received_of(None::<Option<T>>) is None,
{
}

/// What is kept of those that wait is in order just if no queue is empty.
pub proof fn law_what_is_kept_in_order<D, O, A>(state: ManagerView<D, O, A>)
    ensures
        state.inv() <==> forall|peer: Seq<u8>| #[trigger]
            state.conn_stream_outbound.contains_key(peer)
                ==> state.conn_stream_outbound[peer].len() > 0,
{
}

} // verus!
