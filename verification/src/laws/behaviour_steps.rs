//! What each operation of [`crate::behaviour::Behaviour`] does.

use vstd::prelude::*;

use crate::behaviour::{
    ActionView, BehaviourView, EventView, HandlerPrototypeView, InEvent, OutEvent, DIAL_TIMEOUT,
};
use crate::peer_map::runs_through;
use crate::stream::BiStreamView;
use crate::swarm::{
    ConnectionClosed, ConnectionEstablished, DialFailure, DialOptsView, FromSwarm,
    NetworkBehaviourActionView,
};

verus! {

/// Whether two states know the same of every peer but one.
pub open spec fn same_but_for<S>(a: BehaviourView<S>, b: BehaviourView<S>, peer: Seq<u8>) -> bool {
    &&& a.protocol_name == b.protocol_name
    &&& forall|other: Seq<u8>|
        other != peer ==> (#[trigger] a.dialing.contains_key(other) <==> b.dialing.contains_key(
            other,
        ))
    &&& forall|other: Seq<u8>|
        other != peer && #[trigger] a.dialing.contains_key(other) ==> a.dialing[other]
            == b.dialing[other]
    &&& forall|other: Seq<u8>|
        other != peer ==> (#[trigger] a.connected.contains_key(other)
            <==> b.connected.contains_key(other))
    &&& forall|other: Seq<u8>|
        other != peer && #[trigger] a.connected.contains_key(other) ==> a.connected[other]
            == b.connected[other]
}

/// A behaviour that was just made knows no peer and has nothing to hand out.
pub proof fn law_new_behaviour_is_empty<S>(name: Option<Seq<char>>)
    ensures
        BehaviourView::<S>::initial(name).events.len() == 0,
        forall|peer: Seq<u8>|
            !(#[trigger] BehaviourView::<S>::initial(name).dialing.contains_key(peer)),
        forall|peer: Seq<u8>|
            !(#[trigger] BehaviourView::<S>::initial(name).connected.contains_key(peer)),
        BehaviourView::<S>::initial(name).protocol_name == name,
        BehaviourView::<S>::initial(name).inv(),
{
}

/// Connections are handled by the protocol that was named, or else by the usual one.
pub proof fn law_prototype_names_the_protocol<S>(state: BehaviourView<S>)
    ensures
        state.protocol_name is Some ==> state.prototype().protocol_name == state.protocol_name->0,
        state.protocol_name is None ==> state.prototype().protocol_name == "/bistream/0.1.0"@,
{
}

/// Streams are numbered one after the other: from where a connection stands, after those
/// that were asked of a peer that is dialed, or from 1. A stream can be asked for as long as
/// there are numbers.
pub proof fn law_next_number<S>(state: BehaviourView<S>, peer: Seq<u8>)
    ensures
        state.connected.contains_key(peer) ==> {
            &&& state.next_stream_id(peer) == state.connected[peer].next_outbound_id
            &&& state.can_open(peer) <==> state.connected[peer].next_outbound_id < u64::MAX
        },
        !state.connected.contains_key(peer) && state.dialing.contains_key(peer) ==> {
            &&& state.next_stream_id(peer) == state.dialing[peer].requested_outbound_streams + 1
            &&& state.can_open(peer) <==> state.dialing[peer].requested_outbound_streams < u64::MAX
        },
        !state.connected.contains_key(peer) && !state.dialing.contains_key(peer) ==> {
            &&& state.next_stream_id(peer) == 1
            &&& state.can_open(peer)
        },
{
}

/// A stream that is asked of a connected peer is opened on its connection, under the next
/// number, and the peer is not dialed.
pub proof fn law_stream_is_opened_on_the_connection<S>(
    state: BehaviourView<S>,
    opts: DialOptsView,
    now: u64,
)
    requires
        state.connected.contains_key(opts.peer_id),
        state.connected[opts.peer_id].next_outbound_id < u64::MAX,
    ensures
        ({
            let peer = opts.peer_id;
            let known = state.connected[peer];
            let after = state.open(opts, now);
            &&& after.events.len() == state.events.len() + 1
            &&& after.events.drop_last() == state.events
            &&& after.events.last() == ActionView::<S>::NotifyHandler {
                peer_id: peer,
                connection_id: known.connection_id,
                event: InEvent::OpenOutbound(known.next_outbound_id),
            }
            &&& after.connected.contains_key(peer)
            &&& after.connected[peer].connection_id == known.connection_id
            &&& after.connected[peer].next_outbound_id == known.next_outbound_id + 1
            &&& after.dialing == state.dialing
            &&& same_but_for(after, state, peer)
        }),
{
    assert(state.open(opts, now).events.drop_last() =~= state.events);
}

/// A stream that is asked of a peer that is dialed is counted, and nothing else happens.
pub proof fn law_stream_waits_for_the_dial<S>(state: BehaviourView<S>, opts: DialOptsView, now: u64)
    requires
        !state.connected.contains_key(opts.peer_id),
        state.dialing.contains_key(opts.peer_id),
        state.dialing[opts.peer_id].requested_outbound_streams < u64::MAX,
    ensures
        ({
            let peer = opts.peer_id;
            let after = state.open(opts, now);
            &&& after.events == state.events
            &&& after.dialing.contains_key(peer)
            &&& after.dialing[peer].timeout == state.dialing[peer].timeout
            &&& after.dialing[peer].requested_outbound_streams
                == state.dialing[peer].requested_outbound_streams + 1
            &&& after.connected == state.connected
            &&& same_but_for(after, state, peer)
        }),
{
}

/// The first stream that is asked of a peer has it dialed, as the request says. The attempt
/// is given up when the time limit has passed since then.
pub proof fn law_first_stream_dials<S>(state: BehaviourView<S>, opts: DialOptsView, now: u64)
    requires
        !state.connected.contains_key(opts.peer_id),
        !state.dialing.contains_key(opts.peer_id),
    ensures
        ({
            let peer = opts.peer_id;
            let after = state.open(opts, now);
            &&& after.events.len() == state.events.len() + 1
            &&& after.events.drop_last() == state.events
            &&& after.events.last() == ActionView::<S>::Dial {
                opts,
                handler: HandlerPrototypeView {
                    protocol_name: match state.protocol_name {
                        Some(name) => name,
                        None => "/bistream/0.1.0"@,
                    },
                },
            }
            &&& after.dialing.contains_key(peer)
            &&& now + DIAL_TIMEOUT <= u64::MAX ==> after.dialing[peer].timeout == now + DIAL_TIMEOUT
            &&& now + DIAL_TIMEOUT > u64::MAX ==> after.dialing[peer].timeout == u64::MAX
            &&& after.dialing[peer].requested_outbound_streams == 1
            &&& after.connected == state.connected
            &&& same_but_for(after, state, peer)
        }),
{
    assert(state.open(opts, now).events.drop_last() =~= state.events);
}

/// Every connection that comes about is taken up, whichever side dialed: the peer is then
/// connected, on this connection unless there was one already, and no longer dialed. The
/// streams that were asked of it meanwhile are opened on this connection, each once, in order,
/// and the next stream that is asked of it goes to its connection.
pub proof fn law_every_connection_is_taken_up<S>(
    state: BehaviourView<S>,
    conn: ConnectionEstablished,
    opts: DialOptsView,
    now: u64,
)
    requires
        !(state.dialing.contains_key(conn.peer_id@) && state.connected.contains_key(conn.peer_id@)),
        state.dialing.contains_key(conn.peer_id@)
            ==> state.dialing[conn.peer_id@].requested_outbound_streams + 2 <= u64::MAX,
        opts.peer_id == conn.peer_id@,
    ensures
        ({
            let peer = conn.peer_id@;
            let after = state.told(FromSwarm::ConnectionEstablished(conn));
            let requested: int = if state.dialing.contains_key(peer) {
                state.dialing[peer].requested_outbound_streams as int
            } else {
                0
            };
            &&& state.can_establish(peer, conn.connection_id)
            &&& after.connected.contains_key(peer)
            &&& state.connected.contains_key(peer) ==> after.connected[peer]
                == state.connected[peer]
            &&& !state.connected.contains_key(peer) ==> after.connected[peer].connection_id
                == conn.connection_id
            &&& !state.connected.contains_key(peer) && state.dialing.contains_key(peer)
                ==> after.connected[peer].next_outbound_id == requested + 2
            &&& !state.connected.contains_key(peer) && !state.dialing.contains_key(peer)
                ==> after.connected[peer].next_outbound_id == 1
            &&& !after.dialing.contains_key(peer)
            &&& same_but_for(after, state, peer)
            &&& after.events.len() == state.events.len() + requested
            &&& forall|i: int|
                0 <= i < state.events.len() ==> #[trigger] after.events[i] == state.events[i]
            &&& forall|i: int|
                state.events.len() <= i < after.events.len() ==> #[trigger] after.events[i]
                    == ActionView::<S>::NotifyHandler {
                    peer_id: peer,
                    connection_id: conn.connection_id,
                    event: InEvent::OpenOutbound((i - state.events.len() + 1) as u64),
                }
            &&& after.open(opts, now).events == after.events.push(
                NetworkBehaviourActionView::NotifyHandler {
                    peer_id: peer,
                    connection_id: if state.connected.contains_key(peer) {
                        state.connected[peer].connection_id
                    } else {
                        conn.connection_id
                    },
                    event: InEvent::OpenOutbound(after.connected[peer].next_outbound_id),
                },
            )
        }),
{
}

/// There are numbers for the streams that were asked of a peer unless they run out. A further
/// connection needs none.
pub proof fn law_connections_are_taken_up_while_numbers_last<S>(
    state: BehaviourView<S>,
    conn: ConnectionEstablished,
)
    requires
        !(state.dialing.contains_key(conn.peer_id@) && state.connected.contains_key(conn.peer_id@)),
    ensures
        state.can_establish(conn.peer_id@, conn.connection_id) <==> (state.dialing.contains_key(
            conn.peer_id@,
        ) ==> state.dialing[conn.peer_id@].requested_outbound_streams + 2 <= u64::MAX),
{
}

/// The end of the connection that streams to a peer are opened on makes the peer unknown. The
/// end of any other connection changes nothing.
pub proof fn law_closed_connection_is_forgotten<S>(state: BehaviourView<S>, conn: ConnectionClosed)
    ensures
        ({
            let peer = conn.peer_id@;
            let after = state.told(FromSwarm::ConnectionClosed(conn));
            let used = state.connected.contains_key(peer) && state.connected[peer].connection_id
                == conn.connection_id;
            &&& after.events == state.events
            &&& after.dialing == state.dialing
            &&& same_but_for(after, state, peer)
            &&& after.connected.contains_key(peer) <==> state.connected.contains_key(peer) && !used
            &&& after.connected.contains_key(peer) ==> after.connected[peer]
                == state.connected[peer]
        }),
{
}

/// Neither a failed attempt to dial nor anything else that the swarm tells changes anything.
pub proof fn law_other_events_are_ignored<S>(state: BehaviourView<S>, failure: DialFailure)
    ensures
        state.told(FromSwarm::DialFailure(failure)) == state,
        state.told(FromSwarm::Other) == state,
{
}

/// Every stream is reported as ready, whichever side opened it and whatever its number: the
/// report is added as the last of what waits for the swarm, and nothing else changes.
pub proof fn law_every_stream_is_reported<S>(state: BehaviourView<S>, event: OutEvent<S>)
    ensures
        ({
            let stream: BiStreamView<S> = match event {
                OutEvent::InboundStream(stream) => stream@,
                OutEvent::OutboundStream(stream) => stream@,
            };
            let after = state.ready(event@.stream());
            &&& after.events.len() == state.events.len() + 1
            &&& after.events.drop_last() == state.events
            &&& after.events.last() == ActionView::<S>::GenerateEvent(
                EventView::StreamReady(stream),
            )
            &&& after.dialing == state.dialing
            &&& after.connected == state.connected
            &&& after.protocol_name == state.protocol_name
        }),
{
    assert(state.ready(event@.stream()).events.drop_last() =~= state.events);
}

/// The peers that were dialed for too long are those that are dialed and whose time limit is
/// reached. To give them up is to dial exactly the others on.
pub proof fn law_who_is_given_up<S>(
    state: BehaviourView<S>,
    order: Seq<Seq<u8>>,
    now: u64,
    peer: Seq<u8>,
)
    requires
        runs_through(order, state.expired(now)),
    ensures
        order.no_duplicates(),
        order.contains(peer) <==> state.dialing.contains_key(peer) && state.dialing[peer].timeout
            <= now,
        state.give_up(order).dialing.contains_key(peer) <==> state.dialing.contains_key(peer)
            && state.dialing[peer].timeout > now,
        state.give_up(order).dialing.contains_key(peer) ==> state.give_up(order).dialing[peer]
            == state.dialing[peer],
        state.give_up(order).connected == state.connected,
        state.give_up(order).protocol_name == state.protocol_name,
        state.events.is_prefix_of(state.give_up(order).events),
        order.len() == 0 ==> state.give_up(order).events == state.events,
{
    assert(order.contains(peer) <==> state.expired(now).contains(peer));
    assert(order.to_set().contains(peer) <==> order.contains(peer));
    assert(state.events =~= state.give_up(order).events.take(state.events.len() as int));
}

/// The swarm collects what has waited longest, and nothing else changes.
pub proof fn law_first_event_is_collected<S>(state: BehaviourView<S>)
    ensures
        state.events.len() == 0 ==> state.collect().0 is None && state.collect().1 == state,
        state.events.len() > 0 ==> {
            &&& state.collect().0 == Some(state.events[0])
            &&& state.events == seq![state.events[0]] + state.collect().1.events
            &&& state.collect().1.dialing == state.dialing
            &&& state.collect().1.connected == state.connected
            &&& state.collect().1.protocol_name == state.protocol_name
        },
{
    if state.events.len() > 0 {
        assert(state.events =~= seq![state.events[0]] + state.collect().1.events);
    }
}

/// What is kept of the peers is in order just if no peer is both dialed and connected, each
/// peer that is dialed was asked for a stream, and streams are numbered from 1 on.
pub proof fn law_what_is_kept_in_order<S>(state: BehaviourView<S>)
    ensures
        state.inv() <==> {
            &&& forall|peer: Seq<u8>| #[trigger]
                state.dialing.contains_key(peer) ==> !state.connected.contains_key(peer)
                    && state.dialing[peer].requested_outbound_streams >= 1
            &&& forall|peer: Seq<u8>| #[trigger]
                state.connected.contains_key(peer) ==> state.connected[peer].next_outbound_id >= 1
        },
{
    if state.inv() {
        assert forall|peer: Seq<u8>| #[trigger] state.dialing.contains_key(peer) implies !state.connected.contains_key(
            peer,
        ) by {
            assert(state.dialing.dom().contains(peer));
        }
    }
}

} // verus!
