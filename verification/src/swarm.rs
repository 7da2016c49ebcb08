//! What a network behaviour and its connection handlers exchange with the swarm that
//! drives them.

use std::time::Instant;

use vstd::prelude::*;

use crate::peer::{addresses, Multiaddr, PeerId};

verus! {

/// A connection, by the number under which the swarm keeps it.
#[derive(Clone, Copy, Debug, PartialEq, Eq, Structural, Hash)]
pub struct ConnectionId(pub u64);

/// The side of a connection that the local node is on.
#[derive(Clone, Copy, Debug, PartialEq, Eq, Structural)]
pub enum ConnectedPoint {
    /// The local node dialed the peer.
    Dialer,
    /// The local node was dialed by the peer.
    Listener,
}

/// A connection to a peer came about.
#[derive(Debug)]
pub struct ConnectionEstablished {
    pub peer_id: PeerId,
    pub connection_id: ConnectionId,
    pub endpoint: ConnectedPoint,
}

/// A connection to a peer was closed.
#[derive(Debug)]
pub struct ConnectionClosed {
    pub peer_id: PeerId,
    pub connection_id: ConnectionId,
}

/// An attempt to dial failed. The peer is not always known.
#[derive(Debug)]
pub struct DialFailure {
    pub peer_id: Option<PeerId>,
    /// What the swarm says of the failure.
    pub error: String,
}

/// What the swarm tells a behaviour.
#[derive(Debug)]
pub enum FromSwarm {
    ConnectionEstablished(ConnectionEstablished),
    ConnectionClosed(ConnectionClosed),
    DialFailure(DialFailure),
    /// Anything else.
    Other,
}

/// When the swarm is to follow a request to dial.
#[derive(Clone, Copy, Debug, PartialEq, Eq, Structural)]
pub enum PeerCondition {
    /// Whatever is going on with the peer.
    Always,
    /// Unless the peer is being dialed already.
    NotDialing,
}

/// A request to dial a peer.
#[derive(Debug)]
pub struct DialOpts {
    pub peer_id: PeerId,
    /// The addresses to try. Without a list the swarm collects what its behaviours know.
    pub addresses: Option<Vec<Multiaddr>>,
    pub condition: PeerCondition,
}

/// What a [`DialOpts`] says.
#[verifier::ext_equal]
pub struct DialOptsView {
    pub peer_id: Seq<u8>,
    pub addresses: Option<Seq<Seq<u8>>>,
    pub condition: PeerCondition,
}

impl View for DialOpts {
    type V = DialOptsView;

    open spec fn view(&self) -> DialOptsView {
        DialOptsView {
            peer_id: self.peer_id@,
            addresses: match self.addresses {
                Some(list) => Some(addresses(list@)),
                None => None,
            },
            condition: self.condition,
        }
    }
}

/// What a behaviour asks of the swarm: to hand out an event `E`, to pass `I` to the
/// handler of one connection, or to dial a peer and handle the connection by `H`.
#[derive(Debug)]
pub enum NetworkBehaviourAction<E, H, I> {
    GenerateEvent(E),
    NotifyHandler { peer_id: PeerId, connection_id: ConnectionId, event: I },
    Dial { opts: DialOpts, handler: H },
}

/// What a [`NetworkBehaviourAction`] says.
pub enum NetworkBehaviourActionView<E, H, I> {
    GenerateEvent(E),
    NotifyHandler { peer_id: Seq<u8>, connection_id: ConnectionId, event: I },
    Dial { opts: DialOptsView, handler: H },
}

impl<E: View, H: View, I: View> View for NetworkBehaviourAction<E, H, I> {
    type V = NetworkBehaviourActionView<E::V, H::V, I::V>;

    open spec fn view(&self) -> Self::V {
        match *self {
            NetworkBehaviourAction::GenerateEvent(event) =>
                NetworkBehaviourActionView::GenerateEvent(event@),
            NetworkBehaviourAction::NotifyHandler { peer_id, connection_id, event } =>
                NetworkBehaviourActionView::NotifyHandler {
                    peer_id: peer_id@,
                    connection_id,
                    event: event@,
                },
            NetworkBehaviourAction::Dial { opts, handler } => NetworkBehaviourActionView::Dial {
                opts: opts@,
                handler: handler@,
            },
        }
    }
}

/// A protocol to negotiate on a substream, and what to remember of it meanwhile.
#[derive(Debug)]
pub struct SubstreamProtocol<I> {
    pub protocol_name: String,
    pub info: I,
}

/// What a [`SubstreamProtocol`] says.
pub struct SubstreamProtocolView<I> {
    pub protocol_name: Seq<char>,
    pub info: I,
}

impl<I> View for SubstreamProtocol<I> {
    type V = SubstreamProtocolView<I>;

    open spec fn view(&self) -> SubstreamProtocolView<I> {
        SubstreamProtocolView { protocol_name: self.protocol_name@, info: self.info }
    }
}

/// What a connection handler asks for: a new substream, or to pass `E` to the behaviour.
#[derive(Debug)]
pub enum ConnectionHandlerEvent<I, E> {
    OutboundSubstreamRequest { protocol: SubstreamProtocol<I> },
    Custom(E),
}

/// What a [`ConnectionHandlerEvent`] says.
pub enum ConnectionHandlerEventView<I, E> {
    OutboundSubstreamRequest { protocol: SubstreamProtocolView<I> },
    Custom(E),
}

impl<I, E: View> View for ConnectionHandlerEvent<I, E> {
    type V = ConnectionHandlerEventView<I, E::V>;

    open spec fn view(&self) -> Self::V {
        match *self {
            ConnectionHandlerEvent::OutboundSubstreamRequest { protocol } =>
                ConnectionHandlerEventView::OutboundSubstreamRequest { protocol: protocol@ },
            ConnectionHandlerEvent::Custom(event) => ConnectionHandlerEventView::Custom(event@),
        }
    }
}

/// What happens on a connection. A substream `S` on which the protocol was negotiated
/// comes with what was remembered of it.
#[derive(Debug)]
pub enum ConnectionEvent<S, I> {
    FullyNegotiatedInbound { protocol: S, info: I },
    FullyNegotiatedOutbound { protocol: S, info: I },
    DialUpgradeError,
    AddressChange,
    ListenUpgradeError,
}

/// Whether a handler still needs its connection.
#[derive(Clone, Copy, Debug, PartialEq, Eq)]
pub enum KeepAlive {
    /// Until a point in time, unless something new happens.
    Until(Instant),
    Yes,
    /// The connection may be closed.
    No,
}

} // verus!
