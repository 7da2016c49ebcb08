//! What each operation of [`crate::behaviour::bistream::Behaviour`] does.

use vstd::prelude::*;

use crate::behaviour::bistream::{
    answers, refused, ActionView, BehaviourView, Delivery, EventView, FailedOpen, HandlerView,
    InEventView, OutEvent,
};
use crate::stream::BiStream;
use crate::swarm::{
    ConnectionClosed, ConnectionEstablished, DialFailure, DialOptsView, FromSwarm, PeerCondition,
};

verus! {

/// A behaviour that was just made knows no connection, nobody waits, and it has nothing to
/// hand out. New connections are handled by the protocol that was named, or else by the usual
/// one.
pub proof fn law_new_behaviour_is_empty<S, R>(name: Seq<char>)
    ensures
        ({
            let state = BehaviourView::<S, R>::initial(Some(name));
            &&& state.protocol_name == Some(name)
            &&& state.events.len() == 0
            &&& forall|peer: Seq<u8>| !(#[trigger] state.conns.contains_key(peer))
            &&& forall|peer: Seq<u8>| !(#[trigger] state.pending_open.contains_key(peer))
            &&& forall|peer: Seq<u8>| !(#[trigger] state.pending_accept.contains_key(peer))
            &&& state.handler() == HandlerView::<S>::initial(name)
        }),
        BehaviourView::<S, R>::initial(None) == (BehaviourView::<S, R> {
            protocol_name: None,
            ..BehaviourView::<S, R>::initial(Some(name))
        }),
        BehaviourView::<S, R>::initial(None).handler() == HandlerView::<S>::initial(
            "/p2pstream/bistream/0.0.1"@,
        ),
{
}

/// One that asks for a stream that a peer opens waits last for it, and nothing else changes.
pub proof fn law_accept_request_waits<S, R>(state: BehaviourView<S, R>, peer: Seq<u8>, reply: R)
    ensures
        ({
            let after = state.accept(peer, reply);
            let before: Seq<R> = if state.pending_accept.contains_key(peer) {
                state.pending_accept[peer]
            } else {
                Seq::empty()
            };
            &&& after.pending_accept == state.pending_accept.insert(peer, before.push(reply))
            &&& after.pending_open == state.pending_open
            &&& after.conns == state.conns
            &&& after.events == state.events
            &&& after.protocol_name == state.protocol_name
        }),
{
}

/// One that asks for a stream to be opened waits last for it. The stream is asked of the
/// connection to the peer, if there is one, and else the peer is dialed: under the addresses
/// that the swarm knows, whatever is going on with it.
pub proof fn law_open_request_waits<S, R>(state: BehaviourView<S, R>, peer: Seq<u8>, reply: R)
    ensures
        ({
            let after = state.open(peer, reply);
            let before: Seq<R> = if state.pending_open.contains_key(peer) {
                state.pending_open[peer]
            } else {
                Seq::empty()
            };
            &&& after.pending_open == state.pending_open.insert(peer, before.push(reply))
            &&& after.pending_accept == state.pending_accept
            &&& after.conns == state.conns
            &&& after.protocol_name == state.protocol_name
            &&& after.events.len() == state.events.len() + 1
            &&& after.events.drop_last() == state.events
            &&& state.conns.contains_key(peer) ==> after.events.last() == ActionView::<
                S,
            >::NotifyHandler {
                peer_id: peer,
                connection_id: state.conns[peer],
                event: InEventView::OpenOutbound,
            }
            &&& !state.conns.contains_key(peer) ==> after.events.last() == ActionView::<S>::Dial {
                opts: DialOptsView {
                    peer_id: peer,
                    addresses: None,
                    condition: PeerCondition::Always,
                },
                handler: HandlerView::initial(
                    match state.protocol_name {
                        Some(name) => name,
                        None => "/p2pstream/bistream/0.0.1"@,
                    },
                ),
            }
        }),
{
    assert(state.open(peer, reply).events.drop_last() =~= state.events);
}

/// Every stream that is opened from here goes to the one that waited longest for a stream to
/// its peer, who then waits no more. If nobody waited, nobody gets it and nothing changes.
pub proof fn law_opened_stream_is_delivered<S, R>(state: BehaviourView<S, R>, stream: BiStream<S>)
    requires
        state.inv(),
    ensures
        ({
            let peer = stream.peer_id@;
            let event = OutEvent::OutboundStream(stream);
            let after = state.heard(event@);
            &&& state.pending_open.contains_key(peer) ==> {
                &&& state.delivery(event) == Delivery::<S, R>::Reply {
                    reply: state.pending_open[peer][0],
                    stream,
                }
                &&& state.pending_open[peer].len() == 1 ==> after.pending_open
                    == state.pending_open.remove(peer)
                &&& state.pending_open[peer].len() > 1 ==> after.pending_open
                    == state.pending_open.insert(peer, state.pending_open[peer].skip(1))
            }
            &&& !state.pending_open.contains_key(peer) ==> {
                &&& state.delivery(event) == Delivery::<S, R>::Unrequested(stream)
                &&& after.pending_open == state.pending_open
            }
            &&& after.pending_accept == state.pending_accept
            &&& after.conns == state.conns
            &&& after.events == state.events
            &&& after.protocol_name == state.protocol_name
        }),
{
    let peer = stream.peer_id@;
    if state.pending_open.contains_key(peer) {
        assert(state.pending_open[peer].skip(1) =~= state.pending_open[peer].drop_first());
    } else {
        assert(state.pending_open.remove(peer) =~= state.pending_open);
    }
}

/// Every stream that a peer opens goes to the one that waited longest for a stream from that
/// peer, who then waits no more. If nobody waited, it is reported, and nobody gets it.
pub proof fn law_accepted_stream_is_delivered<S, R>(
    state: BehaviourView<S, R>,
    stream: BiStream<S>,
)
    requires
        state.inv(),
    ensures
        ({
            let peer = stream.peer_id@;
            let event = OutEvent::InboundStream(stream);
            let after = state.heard(event@);
            &&& state.pending_accept.contains_key(peer) ==> {
                &&& state.delivery(event) == Delivery::<S, R>::Reply {
                    reply: state.pending_accept[peer][0],
                    stream,
                }
                &&& state.pending_accept[peer].len() == 1 ==> after.pending_accept
                    == state.pending_accept.remove(peer)
                &&& state.pending_accept[peer].len() > 1 ==> after.pending_accept
                    == state.pending_accept.insert(peer, state.pending_accept[peer].skip(1))
                &&& after.events == state.events
            }
            &&& !state.pending_accept.contains_key(peer) ==> {
                &&& state.delivery(event) == Delivery::<S, R>::Reported
                &&& after.pending_accept == state.pending_accept
                &&& after.events.len() == state.events.len() + 1
                &&& after.events.drop_last() == state.events
                &&& after.events.last() == ActionView::<S>::GenerateEvent(
                    EventView::IncomingStream(stream@),
                )
            }
            &&& after.pending_open == state.pending_open
            &&& after.conns == state.conns
            &&& after.protocol_name == state.protocol_name
        }),
{
    let peer = stream.peer_id@;
    if state.pending_accept.contains_key(peer) {
        assert(state.pending_accept[peer].skip(1) =~= state.pending_accept[peer].drop_first());
    } else {
        assert(state.heard(OutEvent::InboundStream(stream)@).events.drop_last() =~= state.events);
    }
}

/// Every connection that comes about, whichever side dialed, becomes the one that streams to
/// its peer are asked of, and its handler is told the peer. Nobody is refused.
pub proof fn law_every_connection_is_taken_up<S, R>(
    state: BehaviourView<S, R>,
    conn: ConnectionEstablished,
)
    ensures
        ({
            let peer = conn.peer_id@;
            let event = FromSwarm::ConnectionEstablished(conn);
            let after = state.told(event);
            &&& after.conns == state.conns.insert(peer, conn.connection_id)
            &&& after.events.len() == state.events.len() + 1
            &&& after.events.drop_last() == state.events
            &&& after.events.last() == ActionView::<S>::NotifyHandler {
                peer_id: peer,
                connection_id: conn.connection_id,
                event: InEventView::ConnectionEstablished { peer_id: peer },
            }
            &&& after.pending_open == state.pending_open
            &&& after.pending_accept == state.pending_accept
            &&& after.protocol_name == state.protocol_name
            &&& state.refusals(event).len() == 0
        }),
{
    assert(state.told(FromSwarm::ConnectionEstablished(conn)).events.drop_last()
        =~= state.events);
}

/// A failure to dial a peer refuses each that waits for a stream to it, in order, with what
/// the swarm says of the failure, and they wait no more. Nothing else changes. A failure to
/// dial nobody in particular, and whatever else the swarm tells, refuses nobody and changes
/// nothing.
pub proof fn law_failed_dial_refuses<S, R>(
    state: BehaviourView<S, R>,
    failure: DialFailure,
    closed: ConnectionClosed,
)
    ensures
        ({
            let event = FromSwarm::DialFailure(failure);
            let after = state.told(event);
            &&& failure.peer_id matches Some(peer_id) ==> {
                let before: Seq<R> = if state.pending_open.contains_key(peer_id@) {
                    state.pending_open[peer_id@]
                } else {
                    Seq::empty()
                };
                &&& after.pending_open == state.pending_open.remove(peer_id@)
                &&& state.refusals(event).len() == before.len()
                &&& forall|i: int|
                    0 <= i < before.len() ==> #[trigger] state.refusals(event)[i] == (
                        before[i],
                        "Failed to dial peer: "@ + failure.error@,
                    )
            }
            &&& failure.peer_id is None ==> {
                &&& after.pending_open == state.pending_open
                &&& state.refusals(event).len() == 0
            }
            &&& after.pending_accept == state.pending_accept
            &&& after.conns == state.conns
            &&& after.events == state.events
            &&& after.protocol_name == state.protocol_name
        }),
        state.told(FromSwarm::ConnectionClosed(closed)) == state,
        state.refusals(FromSwarm::ConnectionClosed(closed)).len() == 0,
        state.told(FromSwarm::Other) == state,
        state.refusals(FromSwarm::Other).len() == 0,
{
}

/// The answers to failed requests are, one for one, the handles and the errors in the list.
pub proof fn law_answers_are_the_list<R>(
    failed: Seq<FailedOpen<R>>,
    replies: Seq<R>,
    error: Seq<char>,
)
    ensures
        answers(failed).len() == failed.len(),
        forall|i: int|
            0 <= i < failed.len() ==> #[trigger] answers(failed)[i] == (
                failed[i].reply,
                failed[i].error@,
            ),
        refused(replies, error).len() == replies.len(),
        forall|i: int|
            0 <= i < replies.len() ==> #[trigger] refused(replies, error)[i] == (
                replies[i],
                error,
            ),
{
}

/// The swarm collects what has waited longest, and nothing else changes.
pub proof fn law_first_event_is_collected<S, R>(state: BehaviourView<S, R>)
    ensures
        state.events.len() == 0 ==> state.collect().0 is None && state.collect().1 == state,
        state.events.len() > 0 ==> {
            &&& state.collect().0 == Some(state.events[0])
            &&& state.events == seq![state.events[0]] + state.collect().1.events
            &&& state.collect().1.pending_open == state.pending_open
            &&& state.collect().1.pending_accept == state.pending_accept
            &&& state.collect().1.conns == state.conns
            &&& state.collect().1.protocol_name == state.protocol_name
        },
{
    if state.events.len() > 0 {
        assert(state.events =~= seq![state.events[0]] + state.collect().1.events);
    }
}

/// What is kept of those that wait is in order just if no queue is empty.
pub proof fn law_what_is_kept_in_order<S, R>(state: BehaviourView<S, R>)
    ensures
        state.inv() <==> {
            &&& forall|peer: Seq<u8>| #[trigger]
                state.pending_open.contains_key(peer) ==> state.pending_open[peer].len() > 0
            &&& forall|peer: Seq<u8>| #[trigger]
                state.pending_accept.contains_key(peer) ==> state.pending_accept[peer].len() > 0
        },
{
}

} // verus!
