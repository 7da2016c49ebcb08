//! What each operation of the handlers of connections does, in [`crate::behaviour`] and in
//! [`crate::behaviour::bistream`].

use vstd::prelude::*;

use crate::behaviour::bistream;
use crate::behaviour::{
    chosen_name, HandlerEventView, HandlerView, InEvent, OpenInfo, OutEventView,
};
use crate::stream::{BiStreamView, StreamOrigin};
use crate::swarm::ConnectionEvent;

verus! {

/// The name that is chosen is used, and the usual one if none is chosen.
pub proof fn law_chosen_name(name: Seq<char>)
    ensures
        chosen_name(Some(name)) == name,
        chosen_name(None) == "/bistream/0.1.0"@,
        bistream::chosen_name(Some(name)) == name,
        bistream::chosen_name(None) == "/p2pstream/bistream/0.0.1"@,
{
}

/// The handler of a new connection knows its protocol and its peer. The first stream that the
/// peer opens gets the number 1.
pub proof fn law_new_handler<S>(name: Seq<char>, peer: Seq<u8>)
    ensures
        HandlerView::<S>::initial(name, peer).protocol_name == name,
        HandlerView::<S>::initial(name, peer).peer_id == peer,
        HandlerView::<S>::initial(name, peer).events.len() == 0,
        HandlerView::<S>::initial(name, peer).next_inbound_stream_id == 1,
{
}

/// The number of an inbound stream is remembered with the protocol of the handler, and the
/// next stream gets the number after it, or 0 after the last number.
pub proof fn law_listening_counts<S>(handler: HandlerView<S>, stream_id: u64)
    ensures
        handler.protocol(stream_id).protocol_name == handler.protocol_name,
        handler.protocol(stream_id).info.stream_id == stream_id,
        handler.next_inbound_stream_id < u64::MAX ==> handler.listened().next_inbound_stream_id
            == handler.next_inbound_stream_id + 1,
        handler.next_inbound_stream_id == u64::MAX ==> handler.listened().next_inbound_stream_id
            == 0,
        handler.listened().events == handler.events,
        handler.listened().protocol_name == handler.protocol_name,
        handler.listened().peer_id == handler.peer_id,
{
}

/// For every stream that the behaviour asks for, whatever its number, a substream is asked
/// for that remembers the number. It is added as the last of what waits, and nothing else
/// changes.
pub proof fn law_every_request_asks_for_a_substream<S>(handler: HandlerView<S>, stream_id: u64)
    ensures
        ({
            let after = handler.asked(InEvent::OpenOutbound(stream_id));
            &&& after.events.len() == handler.events.len() + 1
            &&& after.events.drop_last() == handler.events
            &&& after.events.last() is OutboundSubstreamRequest
            &&& after.events.last()->protocol.protocol_name == handler.protocol_name
            &&& after.events.last()->protocol.info.stream_id == stream_id
            &&& after.protocol_name == handler.protocol_name
            &&& after.peer_id == handler.peer_id
            &&& after.next_inbound_stream_id == handler.next_inbound_stream_id
        }),
{
    assert(handler.asked(InEvent::OpenOutbound(stream_id)).events.drop_last() =~= handler.events);
}

/// Every substream that is negotiated is handed on, as a stream to the peer of the handler,
/// over that substream, under the number that was remembered, and as opened by the side that
/// opened it. It is added as the last of what waits, and nothing else changes.
pub proof fn law_every_negotiated_stream_is_handed_on<S>(
    handler: HandlerView<S>,
    protocol: S,
    info: OpenInfo,
)
    ensures
        ({
            let after = handler.happened(
                ConnectionEvent::FullyNegotiatedInbound { protocol, info },
            );
            &&& after.events.len() == handler.events.len() + 1
            &&& after.events.drop_last() == handler.events
            &&& after.events.last() == HandlerEventView::<S>::Custom(
                OutEventView::InboundStream(
                    BiStreamView {
                        peer_id: handler.peer_id,
                        origin: StreamOrigin::Inbound,
                        stream_id: info.stream_id,
                        inner: protocol,
                    },
                ),
            )
            &&& after.protocol_name == handler.protocol_name
            &&& after.peer_id == handler.peer_id
            &&& after.next_inbound_stream_id == handler.next_inbound_stream_id
        }),
        ({
            let after = handler.happened(
                ConnectionEvent::FullyNegotiatedOutbound { protocol, info },
            );
            &&& after.events.len() == handler.events.len() + 1
            &&& after.events.drop_last() == handler.events
            &&& after.events.last() == HandlerEventView::<S>::Custom(
                OutEventView::OutboundStream(
                    BiStreamView {
                        peer_id: handler.peer_id,
                        origin: StreamOrigin::Outbound,
                        stream_id: info.stream_id,
                        inner: protocol,
                    },
                ),
            )
            &&& after.protocol_name == handler.protocol_name
            &&& after.peer_id == handler.peer_id
            &&& after.next_inbound_stream_id == handler.next_inbound_stream_id
        }),
{
    assert(handler.happened(
        ConnectionEvent::FullyNegotiatedInbound { protocol, info },
    ).events.drop_last() =~= handler.events);
    assert(handler.happened(
        ConnectionEvent::FullyNegotiatedOutbound { protocol, info },
    ).events.drop_last() =~= handler.events);
}

/// Whatever else happens on a connection changes nothing.
pub proof fn law_other_events_change_nothing<S>(handler: HandlerView<S>)
    ensures
        handler.happened(ConnectionEvent::DialUpgradeError) == handler,
        handler.happened(ConnectionEvent::AddressChange) == handler,
        handler.happened(ConnectionEvent::ListenUpgradeError) == handler,
{
}

/// What has waited longest is collected, and nothing else changes.
pub proof fn law_first_event_is_collected<S>(handler: HandlerView<S>)
    ensures
        handler.events.len() == 0 ==> handler.collect().0 is None && handler.collect().1
            == handler,
        handler.events.len() > 0 ==> {
            &&& handler.collect().0 == Some(handler.events[0])
            &&& handler.events == seq![handler.events[0]] + handler.collect().1.events
            &&& handler.collect().1.protocol_name == handler.protocol_name
            &&& handler.collect().1.peer_id == handler.peer_id
            &&& handler.collect().1.next_inbound_stream_id == handler.next_inbound_stream_id
        },
{
    if handler.events.len() > 0 {
        assert(handler.events =~= seq![handler.events[0]] + handler.collect().1.events);
    }
}

/// The replying handler of a new connection knows its protocol, but not its peer.
pub proof fn law_new_replying_handler<S>(name: Seq<char>)
    ensures
        bistream::HandlerView::<S>::initial(name).protocol_name == name,
        bistream::HandlerView::<S>::initial(name).peer_id is None,
        bistream::HandlerView::<S>::initial(name).events.len() == 0,
        bistream::HandlerView::<S>::initial(name).inbound_stream_id == 0,
        bistream::HandlerView::<S>::initial(name).outbound_stream_id == 0,
{
}

/// The number of an inbound stream is remembered with the protocol of the replying handler,
/// and the next stream gets the number after it, or 0 after the last number.
pub proof fn law_listening_counts_when_replying<S>(
    handler: bistream::HandlerView<S>,
    stream_id: u64,
)
    ensures
        handler.protocol(stream_id).protocol_name == handler.protocol_name,
        handler.protocol(stream_id).info.stream_id == stream_id,
        handler.inbound_stream_id < u64::MAX ==> handler.listened().inbound_stream_id
            == handler.inbound_stream_id + 1,
        handler.inbound_stream_id == u64::MAX ==> handler.listened().inbound_stream_id == 0,
        handler.listened().outbound_stream_id == handler.outbound_stream_id,
        handler.listened().events == handler.events,
        handler.listened().protocol_name == handler.protocol_name,
        handler.listened().peer_id == handler.peer_id,
{
}

/// The replying handler takes note of its peer, whichever it is and whenever it is told, and
/// nothing else changes.
pub proof fn law_peer_is_noted<S>(handler: bistream::HandlerView<S>, peer: Seq<u8>)
    ensures
        ({
            let after = handler.asked(
                bistream::InEventView::ConnectionEstablished { peer_id: peer },
            );
            &&& after.peer_id == Some(peer)
            &&& after.events == handler.events
            &&& after.protocol_name == handler.protocol_name
            &&& after.inbound_stream_id == handler.inbound_stream_id
            &&& after.outbound_stream_id == handler.outbound_stream_id
        }),
{
}

/// For every stream that the behaviour asks for, the replying handler asks for a substream
/// that remembers the number after the last one. It is added as the last of what waits.
pub proof fn law_every_request_asks_for_a_substream_when_replying<S>(
    handler: bistream::HandlerView<S>,
)
    requires
        handler.outbound_stream_id < u64::MAX,
    ensures
        ({
            let after = handler.asked(bistream::InEventView::OpenOutbound);
            &&& after.outbound_stream_id == handler.outbound_stream_id + 1
            &&& after.events.len() == handler.events.len() + 1
            &&& after.events.drop_last() == handler.events
            &&& after.events.last() is OutboundSubstreamRequest
            &&& after.events.last()->protocol.protocol_name == handler.protocol_name
            &&& after.events.last()->protocol.info.stream_id == handler.outbound_stream_id + 1
            &&& after.protocol_name == handler.protocol_name
            &&& after.peer_id == handler.peer_id
            &&& after.inbound_stream_id == handler.inbound_stream_id
        }),
{
    assert(handler.asked(bistream::InEventView::OpenOutbound).events.drop_last()
        =~= handler.events);
}

/// Once the replying handler knows its peer, every substream that is negotiated is handed on,
/// as a stream to that peer, over that substream, under the number that was remembered, and as
/// opened by the side that opened it.
pub proof fn law_every_negotiated_stream_is_handed_on_when_replying<S>(
    handler: bistream::HandlerView<S>,
    protocol: S,
    info: bistream::OpenInfo,
)
    requires
        handler.peer_id is Some,
    ensures
        ({
            let event = ConnectionEvent::FullyNegotiatedInbound { protocol, info };
            let after = handler.happened(event);
            &&& handler.can_happen(event)
            &&& after.events.len() == handler.events.len() + 1
            &&& after.events.drop_last() == handler.events
            &&& after.events.last() == bistream::HandlerEventView::<S>::Custom(
                bistream::OutEventView::InboundStream(
                    BiStreamView {
                        peer_id: handler.peer_id->0,
                        origin: StreamOrigin::Inbound,
                        stream_id: info.stream_id,
                        inner: protocol,
                    },
                ),
            )
            &&& after.protocol_name == handler.protocol_name
            &&& after.peer_id == handler.peer_id
            &&& after.inbound_stream_id == handler.inbound_stream_id
            &&& after.outbound_stream_id == handler.outbound_stream_id
        }),
        ({
            let event = ConnectionEvent::FullyNegotiatedOutbound { protocol, info };
            let after = handler.happened(event);
            &&& handler.can_happen(event)
            &&& after.events.len() == handler.events.len() + 1
            &&& after.events.drop_last() == handler.events
            &&& after.events.last() == bistream::HandlerEventView::<S>::Custom(
                bistream::OutEventView::OutboundStream(
                    BiStreamView {
                        peer_id: handler.peer_id->0,
                        origin: StreamOrigin::Outbound,
                        stream_id: info.stream_id,
                        inner: protocol,
                    },
                ),
            )
            &&& after.protocol_name == handler.protocol_name
            &&& after.peer_id == handler.peer_id
            &&& after.inbound_stream_id == handler.inbound_stream_id
            &&& after.outbound_stream_id == handler.outbound_stream_id
        }),
{
    assert(handler.happened(
        ConnectionEvent::FullyNegotiatedInbound { protocol, info },
    ).events.drop_last() =~= handler.events);
    assert(handler.happened(
        ConnectionEvent::FullyNegotiatedOutbound { protocol, info },
    ).events.drop_last() =~= handler.events);
}

/// Whatever else happens on a connection changes nothing in the replying handler, and can
/// happen at any time.
pub proof fn law_other_events_change_nothing_when_replying<S>(handler: bistream::HandlerView<S>)
    ensures
        handler.happened(ConnectionEvent::DialUpgradeError) == handler,
        handler.happened(ConnectionEvent::AddressChange) == handler,
        handler.happened(ConnectionEvent::ListenUpgradeError) == handler,
        handler.can_happen(ConnectionEvent::DialUpgradeError),
        handler.can_happen(ConnectionEvent::AddressChange),
        handler.can_happen(ConnectionEvent::ListenUpgradeError),
{
}

/// What has waited longest is collected from the replying handler, and nothing else changes.
pub proof fn law_first_event_is_collected_when_replying<S>(handler: bistream::HandlerView<S>)
    ensures
        handler.events.len() == 0 ==> handler.collect().0 is None && handler.collect().1
            == handler,
        handler.events.len() > 0 ==> {
            &&& handler.collect().0 == Some(handler.events[0])
            &&& handler.events == seq![handler.events[0]] + handler.collect().1.events
            &&& handler.collect().1.protocol_name == handler.protocol_name
            &&& handler.collect().1.peer_id == handler.peer_id
            &&& handler.collect().1.inbound_stream_id == handler.inbound_stream_id
            &&& handler.collect().1.outbound_stream_id == handler.outbound_stream_id
        },
{
    if handler.events.len() > 0 {
        assert(handler.events =~= seq![handler.events[0]] + handler.collect().1.events);
    }
}

} // verus!
