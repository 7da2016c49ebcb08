//! What holds of how things are shown, and of what the contracts say that they are.

use vstd::prelude::*;
use vstd::std_specs::convert::FromSpec;

use crate::base58::base58;
use crate::behaviour::{self, bistream};
use crate::cli::Command;
use crate::manager::{Error, ManagerEvent, ManagerEventView};
use crate::peer::{addresses, is_peer_id, lemma_peer_id_base58_length};
use crate::reporter::Report;
use crate::stream::{BiStream, BiStreamView, StreamOrigin};
use crate::swarm::{
    ConnectedPoint, ConnectionEstablished, ConnectionHandlerEvent, ConnectionHandlerEventView,
    DialOpts, NetworkBehaviourAction, NetworkBehaviourActionView, SubstreamProtocol,
};
use crate::text::{decimal, digit};

verus! {

/// The number that a text of decimal digits stands for.
pub open spec fn decimal_value(text: Seq<char>) -> int
    decreases text.len(),
{
    if text.len() == 0 {
        0
    } else {
        10 * decimal_value(text.drop_last()) + (text.last() as int - '0' as int)
    }
}

/// A number in decimal is made of digits, stands for the number, and does not start with a
/// zero unless it is one.
pub proof fn law_decimal(n: nat)
    ensures
        decimal_value(decimal(n)) == n,
        decimal(n).len() > 0,
        forall|i: int| 0 <= i < decimal(n).len() ==> '0' <= #[trigger] decimal(n)[i] <= '9',
        decimal(n)[0] == '0' ==> n == 0 && decimal(n).len() == 1,
    decreases n,
{
    reveal_strlit("0123456789");
    assert(forall|d: nat| d < 10 ==> #[trigger] digit(d) as int == '0' as int + d);
    if n < 10 {
        assert(decimal(n) =~= seq![digit(n)]);
        assert(decimal(n).drop_last() =~= Seq::empty());
        assert(decimal_value(Seq::empty()) == 0);
    } else {
        law_decimal(n / 10);
        assert(decimal(n).drop_last() =~= decimal(n / 10));
        assert(decimal(n).last() == digit(n % 10));
        assert(decimal(n)[0] == decimal(n / 10)[0]);
    }
}

/// A stream is shown by the side that opened it, the first two and the last three characters
/// of the peer's text, and its number, whatever these are.
pub proof fn law_label<S>(stream: BiStreamView<S>)
    requires
        is_peer_id(stream.peer_id),
        stream.peer_id != seq![0u8, 0u8],
    ensures
        ({
            let label = stream.label();
            let peer = base58(stream.peer_id);
            let side: int = if stream.origin is Inbound {
                6
            } else {
                4
            };
            &&& label.len() > side + 8
            &&& stream.origin is Inbound ==> label.take(side) == seq!['a', 'c', 'c', 'e', 'p', 't']
            &&& stream.origin is Outbound ==> label.take(side) == seq!['d', 'i', 'a', 'l']
            &&& label[side] == ':'
            &&& label[side + 1] == peer[0]
            &&& label[side + 2] == peer[1]
            &&& label[side + 3] == '…'
            &&& label[side + 4] == peer[peer.len() - 3]
            &&& label[side + 5] == peer[peer.len() - 2]
            &&& label[side + 6] == peer[peer.len() - 1]
            &&& label[side + 7] == ':'
            &&& decimal_value(label.skip(side + 8)) == stream.stream_id
            &&& forall|i: int|
                side + 8 <= i < label.len() ==> '0' <= #[trigger] label[i] <= '9'
            &&& label[side + 8] == '0' ==> stream.stream_id == 0 && label.len() == side + 9
        }),
{
    lemma_peer_id_base58_length(stream.peer_id);
    law_decimal(stream.stream_id as nat);
    reveal_strlit("accept");
    reveal_strlit("dial");
    reveal_strlit(":");
    reveal_strlit("…");
    let label = stream.label();
    let number = decimal(stream.stream_id as nat);
    let side: int = if stream.origin is Inbound {
        6
    } else {
        4
    };
    assert(label.skip(side + 8) =~= number);
    assert forall|i: int| side + 8 <= i < label.len() implies '0' <= #[trigger] label[i] <= '9' by {
        assert(label[i] == number[i - side - 8]);
    }
    if stream.origin is Inbound {
        assert(label.take(side) =~= seq!['a', 'c', 'c', 'e', 'p', 't']);
    } else {
        assert(label.take(side) =~= seq!['d', 'i', 'a', 'l']);
    }
}

/// Errors are shown by their words, and by every reason that came with them.
pub proof fn law_errors_in_words(reason: Seq<char>)
    ensures
        behaviour::OpenErrorView::DialFailed(reason).message() == "Failed to dial peer: "@ + reason,
        behaviour::OpenErrorView::Timeout.message() == "Request for stream timed out"@,
        Error::ChannelClosed.message() == "Channel closed"@,
        Error::DialFailed.message() == "Failed to dial peer"@,
        bistream::dial_error(reason) == "Failed to dial peer: "@ + reason,
{
}

/// On the side that dialed, a connection stands for streams opened from here, and on the other
/// side for streams opened by the peer.
pub proof fn law_origin_of_a_connection(conn: ConnectionEstablished)
    ensures
        <StreamOrigin as FromSpec<ConnectionEstablished>>::obeys_from_spec(),
        <StreamOrigin as FromSpec<ConnectionEstablished>>::from_spec(conn) == StreamOrigin::Outbound
            <==> conn.endpoint == ConnectedPoint::Dialer,
        <StreamOrigin as FromSpec<ConnectionEstablished>>::from_spec(conn) == StreamOrigin::Inbound
            <==> conn.endpoint == ConnectedPoint::Listener,
{
}

/// A stream, and a report of one, are what their fields say.
pub proof fn law_streams_are_what_they_say<S>(stream: BiStream<S>, report: Report)
    ensures
        stream@.peer_id == stream.peer_id@,
        stream@.origin == stream.origin,
        stream@.stream_id == stream.stream_id,
        stream@.inner == stream.inner,
        report@.name == report.name@,
        report@.elapsed == report.elapsed,
        report@.since_last == report.since_last,
        report@.total == report.total,
        report@.current == report.current,
{
}

/// What a behaviour asks of the swarm is what its fields say.
pub proof fn law_actions_are_what_they_say<E: View, H: View, I: View>(
    action: NetworkBehaviourAction<E, H, I>,
)
    ensures
        match action {
            NetworkBehaviourAction::GenerateEvent(event) => action@
                == NetworkBehaviourActionView::<E::V, H::V, I::V>::GenerateEvent(event@),
            NetworkBehaviourAction::NotifyHandler { peer_id, connection_id, event } => action@
                == NetworkBehaviourActionView::<E::V, H::V, I::V>::NotifyHandler {
                peer_id: peer_id@,
                connection_id,
                event: event@,
            },
            NetworkBehaviourAction::Dial { opts, handler } => action@
                == NetworkBehaviourActionView::<E::V, H::V, I::V>::Dial {
                opts: opts@,
                handler: handler@,
            },
        },
{
}

/// A request to dial is what its fields say: the peer, all its addresses in their order, and
/// the condition.
pub proof fn law_dial_requests_are_what_they_say(opts: DialOpts)
    ensures
        opts@.peer_id == opts.peer_id@,
        opts@.condition == opts.condition,
        opts@.addresses is Some <==> opts.addresses is Some,
        opts.addresses matches Some(addrs) ==> {
            &&& opts@.addresses->0.len() == addrs@.len()
            &&& forall|i: int|
                0 <= i < addrs@.len() ==> #[trigger] opts@.addresses->0[i] == addrs@[i].bytes@
        },
{
}

/// What a handler asks for is what its fields say.
pub proof fn law_handler_events_are_what_they_say<I, E: View>(
    event: ConnectionHandlerEvent<I, E>,
    protocol: SubstreamProtocol<I>,
)
    ensures
        protocol@.protocol_name == protocol.protocol_name@,
        protocol@.info == protocol.info,
        match event {
            ConnectionHandlerEvent::OutboundSubstreamRequest { protocol } => event@
                == ConnectionHandlerEventView::<I, E::V>::OutboundSubstreamRequest {
                protocol: protocol@,
            },
            ConnectionHandlerEvent::Custom(inner) => event@ == ConnectionHandlerEventView::<
                I,
                E::V,
            >::Custom(inner@),
        },
{
}

/// What the behaviour that reports by events tells, and is told, is what its fields say.
pub proof fn law_events_are_what_they_say<S>(
    event: behaviour::Event<S>,
    out: behaviour::OutEvent<S>,
    asked: behaviour::InEvent,
    error: behaviour::OpenError,
    prototype: behaviour::HandlerPrototype,
)
    ensures
        match event {
            behaviour::Event::StreamReady(stream) => event@ == behaviour::EventView::<
                S,
            >::StreamReady(stream@),
            behaviour::Event::OpeningFailed { peer_id, stream_id, reason } => event@
                == behaviour::EventView::<S>::OpeningFailed {
                peer_id: peer_id@,
                stream_id,
                reason: reason@,
            },
        },
        match out {
            behaviour::OutEvent::InboundStream(stream) => out@ == behaviour::OutEventView::<
                S,
            >::InboundStream(stream@) && out@.stream() == stream@,
            behaviour::OutEvent::OutboundStream(stream) => out@ == behaviour::OutEventView::<
                S,
            >::OutboundStream(stream@) && out@.stream() == stream@,
        },
        asked@ == asked,
        match error {
            behaviour::OpenError::DialFailed(reason) => error@
                == behaviour::OpenErrorView::DialFailed(reason@),
            behaviour::OpenError::Timeout => error@ == behaviour::OpenErrorView::Timeout,
        },
        prototype@.protocol_name == prototype.protocol_name@,
{
}

/// What the replying behaviour tells, and is told, is what its fields say.
pub proof fn law_replying_events_are_what_they_say<S>(
    event: bistream::Event<S>,
    out: bistream::OutEvent<S>,
    asked: bistream::InEvent,
)
    ensures
        event matches bistream::Event::IncomingStream(stream) && event@ == bistream::EventView::<
            S,
        >::IncomingStream(stream@),
        match out {
            bistream::OutEvent::InboundStream(stream) => out@ == bistream::OutEventView::<
                S,
            >::InboundStream(stream@),
            bistream::OutEvent::OutboundStream(stream) => out@ == bistream::OutEventView::<
                S,
            >::OutboundStream(stream@),
        },
        match asked {
            bistream::InEvent::ConnectionEstablished { peer_id } => asked@
                == bistream::InEventView::ConnectionEstablished { peer_id: peer_id@ },
            bistream::InEvent::OpenOutbound => asked@ == bistream::InEventView::OpenOutbound,
        },
{
}

/// What the manager asks of the swarm, and what the node is told, is what its fields say.
pub proof fn law_commands_are_what_they_say(event: ManagerEvent, command: Command)
    ensures
        match event {
            ManagerEvent::Open(peer_id) => event@ == ManagerEventView::Open(peer_id@),
            ManagerEvent::Dial(opts) => event@ == ManagerEventView::Dial(opts@),
        },
        match command {
            Command::Listen { relays } => {
                &&& command@ is Listen
                &&& command@->relays is Some <==> relays is Some
                &&& relays matches Some(list) ==> command@->relays == Some(addresses(list@))
            },
            Command::DialTicket { ticket } => command@ is DialTicket && command@->ticket == ticket@,
            Command::DialAddrs { addrs, open } => {
                &&& command@ is DialAddrs
                &&& command@->addrs == addresses(addrs@)
                &&& command@->open is Some <==> open is Some
                &&& open matches Some(peer_id) ==> command@->open == Some(peer_id@)
            },
        },
{
}

} // verus!
