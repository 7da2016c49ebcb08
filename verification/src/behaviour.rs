//! The network behaviour that opens and accepts bidirectional streams.

pub mod bistream;

use vstd::prelude::*;
use vstd::string::*;

use crate::peer::{addresses, Multiaddr, PeerId};
use crate::peer_map::{identities, runs_through, PeerMap};
use crate::queue::{viewed, EventQueue};
use crate::stream::{BiStream, BiStreamView, StreamOrigin};
use crate::swarm::{
    ConnectedPoint, ConnectionEvent, ConnectionHandlerEvent, ConnectionHandlerEventView,
    ConnectionId, DialOpts, DialOptsView, FromSwarm, KeepAlive, NetworkBehaviourAction,
    NetworkBehaviourActionView, PeerCondition, SubstreamProtocol, SubstreamProtocolView,
};

verus! {

/// The protocol that is negotiated where no other name was chosen.
pub const PROTOCOL_NAME: &'static str = "/bistream/0.1.0";

/// How long a peer may be dialed before the streams asked of it are given up, in
/// nanoseconds.
pub const DIAL_TIMEOUT: u64 = 10_000_000_000;

/// The number of a stream on its connection.
pub type StreamId = u64;

/// What the behaviour reports.
#[derive(Debug)]
pub enum Event<S> {
    /// A stream was opened, by either side.
    StreamReady(BiStream<S>),
    /// A stream that was asked for will not be opened.
    OpeningFailed { peer_id: PeerId, stream_id: StreamId, reason: OpenError },
}

/// What an [`Event`] says.
pub enum EventView<S> {
    StreamReady(BiStreamView<S>),
    OpeningFailed { peer_id: Seq<u8>, stream_id: StreamId, reason: OpenErrorView },
}

impl<S> View for Event<S> {
    type V = EventView<S>;

    open spec fn view(&self) -> EventView<S> {
        match *self {
            Event::StreamReady(stream) => EventView::StreamReady(stream@),
            Event::OpeningFailed { peer_id, stream_id, reason } => EventView::OpeningFailed {
                peer_id: peer_id@,
                stream_id,
                reason: reason@,
            },
        }
    }
}

/// Why a stream was not opened.
#[derive(Debug)]
pub enum OpenError {
    DialFailed(String),
    Timeout,
}

/// What an [`OpenError`] says.
pub enum OpenErrorView {
    DialFailed(Seq<char>),
    Timeout,
}

impl View for OpenError {
    type V = OpenErrorView;

    open spec fn view(&self) -> OpenErrorView {
        match *self {
            OpenError::DialFailed(reason) => OpenErrorView::DialFailed(reason@),
            OpenError::Timeout => OpenErrorView::Timeout,
        }
    }
}

impl OpenErrorView {
    /// The error in words.
    pub open spec fn message(self) -> Seq<char> {
        match self {
            OpenErrorView::DialFailed(reason) => "Failed to dial peer: "@ + reason,
            OpenErrorView::Timeout => "Request for stream timed out"@,
        }
    }
}

impl OpenError {
    /// The text by which the error is shown.
    pub fn to_string(&self) -> (text: String)
        ensures
            text@ == self@.message(),
    {
        match self {
            OpenError::DialFailed(reason) => "Failed to dial peer: ".to_owned().concat(
                reason.as_str(),
            ),
            OpenError::Timeout => "Request for stream timed out".to_owned(),
        }
    }
}

/// A peer that is being dialed.
#[derive(Clone, Copy, Debug)]
pub struct PeerDialing {
    /// When the attempt is given up, in nanoseconds on the clock of the caller.
    pub timeout: u64,
    /// How many streams were asked of the peer so far.
    pub requested_outbound_streams: u64,
}

/// A peer that there is a connection to.
#[derive(Clone, Copy, Debug)]
pub struct PeerConnected {
    /// The connection that streams are opened on.
    pub connection_id: ConnectionId,
    /// The number of the next stream to be opened.
    pub next_outbound_id: u64,
}

/// The event that a handler receives from the behaviour.
#[derive(Clone, Copy, Debug)]
pub enum InEvent {
    /// Open a stream and give it this number.
    OpenOutbound(u64),
}

impl View for InEvent {
    type V = InEvent;

    open spec fn view(&self) -> InEvent {
        *self
    }
}

/// The event that the behaviour receives from a handler.
#[derive(Debug)]
pub enum OutEvent<S> {
    InboundStream(BiStream<S>),
    OutboundStream(BiStream<S>),
}

/// What an [`OutEvent`] says.
pub enum OutEventView<S> {
    InboundStream(BiStreamView<S>),
    OutboundStream(BiStreamView<S>),
}

impl<S> View for OutEvent<S> {
    type V = OutEventView<S>;

    open spec fn view(&self) -> OutEventView<S> {
        match *self {
            OutEvent::InboundStream(stream) => OutEventView::InboundStream(stream@),
            OutEvent::OutboundStream(stream) => OutEventView::OutboundStream(stream@),
        }
    }
}

impl<S> OutEventView<S> {
    /// The stream that the event brings.
    pub open spec fn stream(self) -> BiStreamView<S> {
        match self {
            OutEventView::InboundStream(stream) => stream,
            OutEventView::OutboundStream(stream) => stream,
        }
    }
}

/// What becomes the handler of a connection once its peer is known.
#[derive(Debug)]
pub struct HandlerPrototype {
    pub protocol_name: String,
}

/// What a [`HandlerPrototype`] is.
pub struct HandlerPrototypeView {
    pub protocol_name: Seq<char>,
}

impl View for HandlerPrototype {
    type V = HandlerPrototypeView;

    open spec fn view(&self) -> HandlerPrototypeView {
        HandlerPrototypeView { protocol_name: self.protocol_name@ }
    }
}

/// The name that was chosen for the protocol, or else the usual one.
pub open spec fn chosen_name(protocol_name: Option<Seq<char>>) -> Seq<char> {
    match protocol_name {
        Some(name) => name,
        None => PROTOCOL_NAME@,
    }
}

impl HandlerPrototype {
    pub fn new(protocol_name: Option<String>) -> (prototype: HandlerPrototype)
        ensures
            prototype@.protocol_name == chosen_name(
                match protocol_name {
                    Some(name) => Some(name@),
                    None => None,
                },
            ),
    {
        HandlerPrototype {
            protocol_name: match protocol_name {
                Some(name) => name,
                None => PROTOCOL_NAME.to_owned(),
            },
        }
    }
}

/// What the behaviour asks of the swarm.
pub type Action<S> = NetworkBehaviourAction<Event<S>, HandlerPrototype, InEvent>;

/// What an [`Action`] says.
pub type ActionView<S> = NetworkBehaviourActionView<EventView<S>, HandlerPrototypeView, InEvent>;

/// The state of a [`Behaviour`].
#[verifier::ext_equal]
pub struct BehaviourView<S> {
    pub protocol_name: Option<Seq<char>>,
    /// What the swarm has not collected yet.
    pub events: Seq<ActionView<S>>,
    pub dialing: Map<Seq<u8>, PeerDialing>,
    pub connected: Map<Seq<u8>, PeerConnected>,
}

/// The requests to open the streams 1 to `n` on a connection.
pub open spec fn open_requests<S>(peer: Seq<u8>, connection_id: ConnectionId, n: u64) -> Seq<
    ActionView<S>,
> {
    Seq::new(
        n as nat,
        |i: int|
            NetworkBehaviourActionView::NotifyHandler {
                peer_id: peer,
                connection_id,
                event: InEvent::OpenOutbound((i + 1) as u64),
            },
    )
}

/// The reports that the streams 1 to `n` were not opened, as the peer was dialed in vain.
pub open spec fn failures<S>(peer: Seq<u8>, n: u64) -> Seq<ActionView<S>> {
    Seq::new(
        n as nat,
        |i: int|
            NetworkBehaviourActionView::GenerateEvent(
                EventView::OpeningFailed {
                    peer_id: peer,
                    stream_id: (i + 1) as u64,
                    reason: OpenErrorView::DialFailed("Dialing timeout reached"@),
                },
            ),
    )
}

/// The reports for several peers, one peer after the other.
pub open spec fn all_failures<S>(
    order: Seq<Seq<u8>>,
    dialing: Map<Seq<u8>, PeerDialing>,
) -> Seq<ActionView<S>>
    decreases order.len(),
{
    if order.len() == 0 {
        Seq::empty()
    } else {
        all_failures(order.drop_last(), dialing) + failures(
            order.last(),
            dialing[order.last()].requested_outbound_streams,
        )
    }
}

/// When an attempt to dial that starts now is given up.
pub open spec fn deadline(now: u64) -> u64 {
    if now + DIAL_TIMEOUT <= u64::MAX {
        (now + DIAL_TIMEOUT) as u64
    } else {
        u64::MAX
    }
}

impl<S> BehaviourView<S> {
    /// No peer is both dialed and connected, a peer is dialed only for streams that were
    /// asked of it, and streams are numbered from 1 on.
    pub open spec fn inv(self) -> bool {
        &&& self.dialing.dom().disjoint(self.connected.dom())
        &&& forall|peer: Seq<u8>| #[trigger]
            self.dialing.contains_key(peer) ==> self.dialing[peer].requested_outbound_streams >= 1
        &&& forall|peer: Seq<u8>| #[trigger]
            self.connected.contains_key(peer) ==> self.connected[peer].next_outbound_id >= 1
    }

    /// What the behaviour is when it is made.
    pub open spec fn initial(protocol_name: Option<Seq<char>>) -> BehaviourView<S> {
        BehaviourView {
            protocol_name,
            events: Seq::empty(),
            dialing: Map::empty(),
            connected: Map::empty(),
        }
    }

    pub open spec fn prototype(self) -> HandlerPrototypeView {
        HandlerPrototypeView { protocol_name: chosen_name(self.protocol_name) }
    }

    /// The number of the next stream that is asked of the peer.
    pub open spec fn next_stream_id(self, peer: Seq<u8>) -> int {
        if self.connected.contains_key(peer) {
            self.connected[peer].next_outbound_id as int
        } else if self.dialing.contains_key(peer) {
            self.dialing[peer].requested_outbound_streams + 1
        } else {
            1
        }
    }

    /// Whether the numbers suffice for one more stream.
    pub open spec fn can_open(self, peer: Seq<u8>) -> bool {
        if self.connected.contains_key(peer) {
            self.next_stream_id(peer) < u64::MAX
        } else {
            self.next_stream_id(peer) <= u64::MAX
        }
    }

    /// The state once a stream was asked for.
    ///
    /// If the peer is connected, its handler is told to open the stream. Otherwise the
    /// request is counted, and the first one starts to dial the peer.
    pub open spec fn open(self, opts: DialOptsView, now: u64) -> BehaviourView<S> {
        let peer = opts.peer_id;
        if self.connected.contains_key(peer) {
            let connected = self.connected[peer];
            BehaviourView {
                events: self.events.push(
                    NetworkBehaviourActionView::NotifyHandler {
                        peer_id: peer,
                        connection_id: connected.connection_id,
                        event: InEvent::OpenOutbound(connected.next_outbound_id),
                    },
                ),
                connected: self.connected.insert(
                    peer,
                    PeerConnected {
                        next_outbound_id: (connected.next_outbound_id + 1) as u64,
                        ..connected
                    },
                ),
                ..self
            }
        } else if self.dialing.contains_key(peer) {
            let dialing = self.dialing[peer];
            BehaviourView {
                dialing: self.dialing.insert(
                    peer,
                    PeerDialing {
                        requested_outbound_streams: (dialing.requested_outbound_streams + 1) as u64,
                        ..dialing
                    },
                ),
                ..self
            }
        } else {
            BehaviourView {
                events: self.events.push(
                    NetworkBehaviourActionView::Dial { opts, handler: self.prototype() },
                ),
                dialing: self.dialing.insert(
                    peer,
                    PeerDialing { timeout: deadline(now), requested_outbound_streams: 1 },
                ),
                ..self
            }
        }
    }

    /// What is known of a peer when a connection to it comes about: the first connection
    /// is the one that streams are opened on.
    pub open spec fn known(self, peer: Seq<u8>, connection_id: ConnectionId) -> PeerConnected {
        if self.connected.contains_key(peer) {
            self.connected[peer]
        } else {
            PeerConnected { connection_id, next_outbound_id: 1 }
        }
    }

    /// Whether the numbers suffice for the streams that were asked of the peer.
    pub open spec fn can_establish(self, peer: Seq<u8>, connection_id: ConnectionId) -> bool {
        self.dialing.contains_key(peer) ==> self.known(peer, connection_id).next_outbound_id
            + self.dialing[peer].requested_outbound_streams + 1 <= u64::MAX
    }

    /// The state once a connection came about. The streams that were asked for meanwhile
    /// are opened on it, and the numbers after theirs are left for later ones.
    pub open spec fn established(
        self,
        peer: Seq<u8>,
        connection_id: ConnectionId,
    ) -> BehaviourView<S> {
        let known = self.known(peer, connection_id);
        if self.dialing.contains_key(peer) {
            let requested = self.dialing[peer].requested_outbound_streams;
            BehaviourView {
                events: self.events + open_requests(peer, connection_id, requested),
                dialing: self.dialing.remove(peer),
                connected: self.connected.insert(
                    peer,
                    PeerConnected {
                        next_outbound_id: (known.next_outbound_id + requested + 1) as u64,
                        ..known
                    },
                ),
                ..self
            }
        } else {
            BehaviourView { connected: self.connected.insert(peer, known), ..self }
        }
    }

    /// The state once a connection was closed. Only the connection that streams are
    /// opened on matters.
    pub open spec fn closed(self, peer: Seq<u8>, connection_id: ConnectionId) -> BehaviourView<S> {
        if self.connected.contains_key(peer) && self.connected[peer].connection_id
            == connection_id {
            BehaviourView { connected: self.connected.remove(peer), ..self }
        } else {
            self
        }
    }

    /// The state once the swarm told something. Failed attempts to dial do not matter: of
    /// several attempts to dial one peer some may fail and others succeed.
    pub open spec fn told(self, event: FromSwarm) -> BehaviourView<S> {
        match event {
            FromSwarm::ConnectionEstablished(conn) => self.established(
                conn.peer_id@,
                conn.connection_id,
            ),
            FromSwarm::ConnectionClosed(conn) => self.closed(conn.peer_id@, conn.connection_id),
            FromSwarm::DialFailure(_) => self,
            FromSwarm::Other => self,
        }
    }

    /// The state once a stream was opened.
    pub open spec fn ready(self, stream: BiStreamView<S>) -> BehaviourView<S> {
        BehaviourView {
            events: self.events.push(
                NetworkBehaviourActionView::GenerateEvent(EventView::StreamReady(stream)),
            ),
            ..self
        }
    }

    /// The peers that were dialed for too long.
    pub open spec fn expired(self, now: u64) -> Set<Seq<u8>> {
        Set::new(|peer: Seq<u8>| self.dialing.contains_key(peer) && self.dialing[peer].timeout <= now)
    }

    /// The state once the streams asked of the peers `order` were given up.
    pub open spec fn give_up(self, order: Seq<Seq<u8>>) -> BehaviourView<S> {
        BehaviourView {
            events: self.events + all_failures(order, self.dialing),
            dialing: self.dialing.remove_keys(order.to_set()),
            ..self
        }
    }

    /// What the swarm gets, and the state that is left, once it collects the first event.
    pub open spec fn collect(self) -> (Option<ActionView<S>>, BehaviourView<S>) {
        if self.events.len() > 0 {
            (
                Some(self.events.first()),
                BehaviourView { events: self.events.drop_first(), ..self },
            )
        } else {
            (None, self)
        }
    }
}

/// A network behaviour for bidirectional streams on substreams `S`.
#[derive(Debug)]
pub struct Behaviour<S> {
    protocol_name: Option<String>,
    events: EventQueue<Action<S>>,
    peers_dialing: PeerMap<PeerDialing>,
    peers_connected: PeerMap<PeerConnected>,
}

impl<S> View for Behaviour<S> {
    type V = BehaviourView<S>;

    closed spec fn view(&self) -> BehaviourView<S> {
        BehaviourView {
            protocol_name: match self.protocol_name {
                Some(name) => Some(name@),
                None => None,
            },
            events: self.events@,
            dialing: self.peers_dialing@,
            connected: self.peers_connected@,
        }
    }
}

impl PeerDialing {
    /// A peer that is dialed from now on.
    pub fn new(timeout: u64, now: u64) -> (peer: PeerDialing)
        ensures
            peer.timeout == if now + timeout <= u64::MAX {
                now + timeout
            } else {
                u64::MAX as int
            },
            peer.requested_outbound_streams == 0,
    {
        PeerDialing { timeout: now.saturating_add(timeout), requested_outbound_streams: 0 }
    }
}

impl PeerConnected {
    pub fn new(connection_id: ConnectionId) -> (peer: PeerConnected)
        ensures
            peer == (PeerConnected { connection_id, next_outbound_id: 1 }),
    {
        PeerConnected { connection_id, next_outbound_id: 1 }
    }
}

impl<S> Default for Behaviour<S> {
    fn default() -> (behaviour: Behaviour<S>)
        ensures
            behaviour.inv(),
            behaviour@ == BehaviourView::<S>::initial(None),
    {
        Behaviour {
            protocol_name: None,
            events: EventQueue::new(),
            peers_dialing: PeerMap::new(),
            peers_connected: PeerMap::new(),
        }
    }
}

impl<S> Behaviour<S> {
    /// The tables of peers are in order.
    pub closed spec fn well_formed(&self) -> bool {
        &&& self.peers_dialing.inv()
        &&& self.peers_connected.inv()
    }

    pub open spec fn inv(&self) -> bool {
        &&& self.well_formed()
        &&& self@.inv()
    }

    /// A behaviour for the usual protocol.
    pub fn new() -> (behaviour: Behaviour<S>)
        ensures
            behaviour.inv(),
            behaviour@ == BehaviourView::<S>::initial(None),
    {
        Self::default()
    }

    /// A behaviour for a protocol of another name.
    pub fn with_protocol_name(name: String) -> (behaviour: Behaviour<S>)
        ensures
            behaviour.inv(),
            behaviour@ == BehaviourView::<S>::initial(Some(name@)),
    {
        Behaviour {
            protocol_name: Some(name),
            events: EventQueue::new(),
            peers_dialing: PeerMap::new(),
            peers_connected: PeerMap::new(),
        }
    }

    /// How many streams were asked of a peer that is being dialed.
    pub fn dialing_requests(&self, peer_id: &PeerId) -> (requests: Option<u64>)
        requires
            self.inv(),
        ensures
            requests == if self@.dialing.contains_key(peer_id@) {
                Some(self@.dialing[peer_id@].requested_outbound_streams)
            } else {
                None
            },
    {
        match self.peers_dialing.get(peer_id) {
            Some(peer) => Some(peer.requested_outbound_streams),
            None => None,
        }
    }

    /// The number of the next stream that is opened to a connected peer.
    pub fn next_outbound_id(&self, peer_id: &PeerId) -> (next: Option<u64>)
        requires
            self.inv(),
        ensures
            next == if self@.connected.contains_key(peer_id@) {
                Some(self@.connected[peer_id@].next_outbound_id)
            } else {
                None
            },
    {
        match self.peers_connected.get(peer_id) {
            Some(peer) => Some(peer.next_outbound_id),
            None => None,
        }
    }

    /// Asks for a stream to a peer, which may be found under the given addresses.
    /// Returns the number of the stream.
    pub fn open_bi_with_addrs(&mut self, peer_id: &PeerId, addrs: Vec<Multiaddr>, now: u64) -> (id: u64)
        requires
            old(self).inv(),
            old(self)@.can_open(peer_id@),
        ensures
            final(self).inv(),
            id == old(self)@.next_stream_id(peer_id@),
            final(self)@ == old(self)@.open(
                (DialOptsView {
                    peer_id: peer_id@,
                    addresses: Some(addresses(addrs@)),
                    condition: PeerCondition::Always,
                }),
                now,
            ),
    {
        let dial_opts = DialOpts {
            peer_id: peer_id.clone(),
            addresses: Some(addrs),
            condition: PeerCondition::Always,
        };
        self.open_bi_with_dial_opts(dial_opts, now)
    }

    /// Asks for a stream to a peer. Returns the number of the stream.
    pub fn open_bi(&mut self, peer_id: &PeerId, now: u64) -> (id: u64)
        requires
            old(self).inv(),
            old(self)@.can_open(peer_id@),
        ensures
            final(self).inv(),
            id == old(self)@.next_stream_id(peer_id@),
            final(self)@ == old(self)@.open(
                (DialOptsView {
                    peer_id: peer_id@,
                    addresses: None,
                    condition: PeerCondition::Always,
                }),
                now,
            ),
    {
        let dial_opts = DialOpts {
            peer_id: peer_id.clone(),
            addresses: None,
            condition: PeerCondition::Always,
        };
        self.open_bi_with_dial_opts(dial_opts, now)
    }

    fn open_bi_with_dial_opts(&mut self, dial_opts: DialOpts, now: u64) -> (id: u64)
        requires
            old(self).inv(),
            old(self)@.can_open(dial_opts.peer_id@),
        ensures
            final(self).inv(),
            id == old(self)@.next_stream_id(dial_opts.peer_id@),
            final(self)@ == old(self)@.open(dial_opts@, now),
    {
        let peer_id = dial_opts.peer_id.clone();
        // For connected peers: open a new stream on the existing handler.
        if let Some(peer) = self.peers_connected.get_mut(&peer_id) {
            let stream_id: u64 = peer.next_outbound_id;
            let connection_id = peer.connection_id;
            peer.next_outbound_id = stream_id + 1;
            self.events.push_back(
                NetworkBehaviourAction::NotifyHandler {
                    peer_id,
                    connection_id,
                    event: InEvent::OpenOutbound(stream_id),
                },
            );
            return stream_id;
        }
        // For unconnected peers: start to dial the peer if that is not going on yet.
        if !self.peers_dialing.contains(&peer_id) {
            self.peers_dialing.insert(peer_id.clone(), PeerDialing::new(DIAL_TIMEOUT, now));
            let handler = self.new_handler();
            self.events.push_back(NetworkBehaviourAction::Dial { opts: dial_opts, handler });
        }
        let stream_id: u64 = match self.peers_dialing.get_mut(&peer_id) {
            Some(peer) => {
                peer.requested_outbound_streams = peer.requested_outbound_streams + 1;
                peer.requested_outbound_streams
            },
            None => 0,
        };
        assert(self@ =~= old(self)@.open(dial_opts@, now));
        stream_id
    }

    /// The handler for a new connection.
    pub fn new_handler(&self) -> (handler: HandlerPrototype)
        ensures
            handler@ == self@.prototype(),
    {
        HandlerPrototype::new(
            match &self.protocol_name {
                Some(name) => Some(name.clone()),
                None => None,
            },
        )
    }

    /// Has the streams 1 to `requested` opened on a connection.
    fn request_streams(&mut self, peer_id: &PeerId, connection_id: ConnectionId, requested: u64)
        ensures
            *final(self) == (Behaviour { events: final(self).events, ..*old(self) }),
            final(self).events@ == old(self).events@ + open_requests(
                peer_id@,
                connection_id,
                requested,
            ),
    {
        let mut stream_id: u64 = 0;
        assert(self.events@ =~= old(self).events@ + open_requests(peer_id@, connection_id, 0));
        while stream_id < requested
            invariant
                stream_id <= requested,
                *self == (Behaviour { events: self.events, ..*old(self) }),
                self.events@ == old(self).events@ + open_requests(
                    peer_id@,
                    connection_id,
                    stream_id,
                ),
            decreases requested - stream_id,
        {
            stream_id += 1;
            self.events.push_back(
                NetworkBehaviourAction::NotifyHandler {
                    peer_id: peer_id.clone(),
                    connection_id,
                    event: InEvent::OpenOutbound(stream_id),
                },
            );
            assert(self.events@ =~= old(self).events@ + open_requests(
                peer_id@,
                connection_id,
                stream_id,
            ));
        }
    }

    /// Reports that the streams 1 to `requested` were not opened.
    fn report_failures(&mut self, peer_id: &PeerId, requested: u64)
        ensures
            *final(self) == (Behaviour { events: final(self).events, ..*old(self) }),
            final(self).events@ == old(self).events@ + failures(peer_id@, requested),
    {
        let mut stream_id: u64 = 0;
        assert(self.events@ =~= old(self).events@ + failures(peer_id@, 0));
        while stream_id < requested
            invariant
                stream_id <= requested,
                *self == (Behaviour { events: self.events, ..*old(self) }),
                self.events@ == old(self).events@ + failures(peer_id@, stream_id),
            decreases requested - stream_id,
        {
            stream_id += 1;
            self.events.push_back(
                NetworkBehaviourAction::GenerateEvent(
                    Event::OpeningFailed {
                        peer_id: peer_id.clone(),
                        stream_id,
                        reason: OpenError::DialFailed("Dialing timeout reached".to_owned()),
                    },
                ),
            );
            assert(self.events@ =~= old(self).events@ + failures(peer_id@, stream_id));
        }
    }

    /// Takes note of what the swarm tells.
    pub fn on_swarm_event(&mut self, event: FromSwarm)
        requires
            old(self).inv(),
            event matches FromSwarm::ConnectionEstablished(conn) ==> old(self)@.can_establish(
                conn.peer_id@,
                conn.connection_id,
            ),
        ensures
            final(self).inv(),
            final(self)@ == old(self)@.told(event),
    {
        match event {
            FromSwarm::ConnectionEstablished(conn) => {
                let mut peer = match self.peers_connected.get(&conn.peer_id) {
                    Some(known) => *known,
                    None => PeerConnected::new(conn.connection_id),
                };
                if let Some(dialing_peer) = self.peers_dialing.remove(&conn.peer_id) {
                    let requested: u64 = dialing_peer.requested_outbound_streams;
                    self.request_streams(&conn.peer_id, conn.connection_id, requested);
                    peer.next_outbound_id = peer.next_outbound_id + requested + 1;
                }
                self.peers_connected.insert(conn.peer_id, peer);
                assert(self@ =~= old(self)@.told(event));
            },
            FromSwarm::ConnectionClosed(conn) => {
                let remove = match self.peers_connected.get(&conn.peer_id) {
                    Some(peer) => peer.connection_id == conn.connection_id,
                    None => false,
                };
                if remove {
                    self.peers_connected.remove(&conn.peer_id);
                }
            },
            FromSwarm::DialFailure(_) => {
                // Of several attempts to dial a peer some may fail while others succeed.
                // The time limit on the dialing decides instead.
            },
            FromSwarm::Other => {},
        }
    }

    /// Takes note of what the handler of a connection tells.
    pub fn on_connection_handler_event(
        &mut self,
        peer_id: PeerId,
        connection: ConnectionId,
        event: OutEvent<S>,
    )
        requires
            old(self).inv(),
        ensures
            final(self).inv(),
            final(self)@ == old(self)@.ready(event@.stream()),
    {
        match event {
            OutEvent::OutboundStream(stream) => {
                self.events.push_back(
                    NetworkBehaviourAction::GenerateEvent(Event::StreamReady(stream)),
                );
            },
            OutEvent::InboundStream(stream) => {
                self.events.push_back(
                    NetworkBehaviourAction::GenerateEvent(Event::StreamReady(stream)),
                );
            },
        }
    }

    /// Gives up the streams that were asked of peers dialed for too long. Returns those
    /// peers, in the order in which the failures are reported.
    fn expire(&mut self, now: u64) -> (order: Ghost<Seq<Seq<u8>>>)
        requires
            old(self).inv(),
        ensures
            final(self).inv(),
            runs_through(order@, old(self)@.expired(now)),
            final(self)@ == old(self)@.give_up(order@),
    {
        let peers = self.peers_dialing.peers();
        let ghost ids = identities(peers@);
        let ghost mut order: Seq<Seq<u8>> = Seq::empty();
        assert(self@ =~= old(self)@.give_up(order));
        let mut i: usize = 0;
        while i < peers.len()
            invariant
                i <= peers@.len(),
                ids == identities(peers@),
                runs_through(ids, old(self)@.dialing.dom()),
                old(self).inv(),
                self.inv(),
                order.no_duplicates(),
                forall|peer: Seq<u8>| #[trigger]
                    order.contains(peer) <==> old(self)@.expired(now).contains(peer) && ids.take(
                        i as int,
                    ).contains(peer),
                self@ == old(self)@.give_up(order),
            decreases peers@.len() - i,
        {
            let peer_id = &peers[i];
            let ghost peer = peer_id@;
            let ghost seen = ids.take(i as int);
            proof {
                assert(ids[i as int] == peer);
                assert(ids.contains(peer));
                assert(!seen.contains(peer)) by {
                    if seen.contains(peer) {
                        let j = choose|j: int| 0 <= j < seen.len() && seen[j] == peer;
                        assert(ids[j] == peer);
                    }
                }
                assert(ids.take(i + 1) =~= seen.push(peer));
                assert forall|p: Seq<u8>| #[trigger]
                    ids.take(i + 1).contains(p) <==> seen.contains(p) || p == peer by {
                    if seen.contains(p) {
                        let j = choose|j: int| 0 <= j < seen.len() && seen[j] == p;
                        assert(ids.take(i + 1)[j] == p);
                    }
                    if p == peer {
                        assert(ids.take(i + 1)[i as int] == p);
                    }
                }
            }
            let expired: Option<u64> = match self.peers_dialing.get(peer_id) {
                Some(dialing) => {
                    if dialing.timeout <= now {
                        Some(dialing.requested_outbound_streams)
                    } else {
                        None
                    }
                },
                None => None,
            };
            if let Some(requested) = expired {
                self.peers_dialing.remove(peer_id);
                self.report_failures(peer_id, requested);
                proof {
                    let longer = order.push(peer);
                    assert(longer.drop_last() =~= order);
                    assert(self@.events =~= old(self)@.events + all_failures(
                        longer,
                        old(self)@.dialing,
                    ));
                    assert forall|p: Seq<u8>| #[trigger]
                        longer.contains(p) <==> order.contains(p) || p == peer by {
                        if order.contains(p) {
                            let j = choose|j: int| 0 <= j < order.len() && order[j] == p;
                            assert(longer[j] == p);
                        }
                        if p == peer {
                            assert(longer[order.len() as int] == p);
                        }
                    }
                    assert(self@ =~= old(self)@.give_up(longer));
                    order = longer;
                }
            }
            i += 1;
        }
        assert(ids.take(i as int) =~= ids);
        Ghost(order)
    }

    /// Hands out the next thing that the behaviour asks of the swarm. If there is none,
    /// looks for peers that were dialed for too long.
    pub fn poll(&mut self, now: u64) -> (action: Option<Action<S>>)
        requires
            old(self).inv(),
        ensures
            final(self).inv(),
            old(self)@.events.len() > 0 ==> (viewed(action), final(self)@) == old(self)@.collect(),
            old(self)@.events.len() == 0 ==> exists|order: Seq<Seq<u8>>| #[trigger]
                runs_through(order, old(self)@.expired(now)) && (viewed(action), final(self)@)
                    == old(self)@.give_up(order).collect(),
    {
        if let Some(event) = self.events.pop_front() {
            return Some(event);
        }
        let Ghost(order) = self.expire(now);
        let action = self.events.pop_front();
        assert(runs_through(order, old(self)@.expired(now)));
        action
    }

    /// When the next attempt to dial is given up.
    pub fn next_timeout(&self) -> (timeout: Option<u64>)
        requires
            self.inv(),
        ensures
            timeout is None <==> self@.dialing.dom() == Set::<Seq<u8>>::empty(),
            timeout matches Some(t) ==> {
                &&& exists|peer: Seq<u8>| #[trigger]
                    self@.dialing.contains_key(peer) && self@.dialing[peer].timeout == t
                &&& forall|peer: Seq<u8>| #[trigger]
                    self@.dialing.contains_key(peer) ==> t <= self@.dialing[peer].timeout
            },
    {
        let peers = self.peers_dialing.peers();
        let ghost ids = identities(peers@);
        let mut next: Option<u64> = None;
        let mut i: usize = 0;
        while i < peers.len()
            invariant
                i <= peers@.len(),
                ids == identities(peers@),
                runs_through(ids, self@.dialing.dom()),
                self.inv(),
                next is None <==> i == 0,
                next matches Some(t) ==> {
                    &&& exists|j: int|
                        0 <= j < i && self@.dialing[#[trigger] ids[j]].timeout == t
                    &&& forall|j: int|
                        0 <= j < i ==> t <= self@.dialing[#[trigger] ids[j]].timeout
                },
            decreases peers@.len() - i,
        {
            assert(ids[i as int] == peers@[i as int]@);
            assert(ids.contains(ids[i as int]));
            if let Some(dialing) = self.peers_dialing.get(&peers[i]) {
                let sooner = match next {
                    Some(t) => dialing.timeout < t,
                    None => true,
                };
                if sooner {
                    next = Some(dialing.timeout);
                }
            }
            i += 1;
        }
        proof {
            if i == 0 {
                assert forall|peer: Seq<u8>| !self@.dialing.dom().contains(peer) by {
                    assert(!ids.contains(peer));
                }
                assert(self@.dialing.dom() =~= Set::<Seq<u8>>::empty());
            } else {
                let j = choose|j: int| 0 <= j < i && self@.dialing[#[trigger] ids[j]].timeout == next->0;
                assert(ids.contains(ids[j]));
                assert(self@.dialing.contains_key(ids[j]));
                assert forall|peer: Seq<u8>| #[trigger] self@.dialing.contains_key(peer) implies next->0
                    <= self@.dialing[peer].timeout by {
                    assert(ids.contains(peer));
                    let k = choose|k: int| 0 <= k < ids.len() && ids[k] == peer;
                    assert(next->0 <= self@.dialing[ids[k]].timeout);
                }
            }
        }
        next
    }
}

/// What is remembered of a substream until its protocol is negotiated.
#[derive(Clone, Copy, Debug, Default)]
pub struct OpenInfo {
    pub stream_id: StreamId,
}

/// What a handler asks for.
pub type HandlerEvent<S> = ConnectionHandlerEvent<OpenInfo, OutEvent<S>>;

/// What a [`HandlerEvent`] says.
pub type HandlerEventView<S> = ConnectionHandlerEventView<OpenInfo, OutEventView<S>>;

/// The state of a [`Handler`].
#[verifier::ext_equal]
pub struct HandlerView<S> {
    pub protocol_name: Seq<char>,
    /// What was not collected yet.
    pub events: Seq<HandlerEventView<S>>,
    pub peer_id: Seq<u8>,
    pub next_inbound_stream_id: u64,
}

impl<S> HandlerView<S> {
    /// What the handler is when its connection comes about.
    pub open spec fn initial(protocol_name: Seq<char>, peer: Seq<u8>) -> HandlerView<S> {
        HandlerView {
            protocol_name,
            events: Seq::empty(),
            peer_id: peer,
            next_inbound_stream_id: 1,
        }
    }

    /// How to negotiate a stream of the given number.
    pub open spec fn protocol(self, stream_id: u64) -> SubstreamProtocolView<OpenInfo> {
        SubstreamProtocolView { protocol_name: self.protocol_name, info: OpenInfo { stream_id } }
    }

    /// The state once the number of one more inbound stream was given out. After the
    /// last number comes zero.
    pub open spec fn listened(self) -> HandlerView<S> {
        HandlerView {
            next_inbound_stream_id: if self.next_inbound_stream_id == u64::MAX {
                0
            } else {
                (self.next_inbound_stream_id + 1) as u64
            },
            ..self
        }
    }

    /// The state once the behaviour asked for a stream.
    pub open spec fn asked(self, event: InEvent) -> HandlerView<S> {
        match event {
            InEvent::OpenOutbound(stream_id) => HandlerView {
                events: self.events.push(
                    ConnectionHandlerEventView::OutboundSubstreamRequest {
                        protocol: self.protocol(stream_id),
                    },
                ),
                ..self
            },
        }
    }

    /// The stream that a substream becomes.
    pub open spec fn stream(self, inner: S, origin: StreamOrigin, info: OpenInfo) -> BiStreamView<S> {
        BiStreamView { peer_id: self.peer_id, origin, stream_id: info.stream_id, inner }
    }

    /// The state once the protocol was negotiated on a substream.
    pub open spec fn emit(self, inner: S, origin: StreamOrigin, info: OpenInfo) -> HandlerView<S> {
        let stream = self.stream(inner, origin, info);
        HandlerView {
            events: self.events.push(
                ConnectionHandlerEventView::Custom(
                    match origin {
                        StreamOrigin::Outbound => OutEventView::OutboundStream(stream),
                        StreamOrigin::Inbound => OutEventView::InboundStream(stream),
                    },
                ),
            ),
            ..self
        }
    }

    /// The state once something happened on the connection.
    pub open spec fn happened(self, event: ConnectionEvent<S, OpenInfo>) -> HandlerView<S> {
        match event {
            ConnectionEvent::FullyNegotiatedInbound { protocol, info } => self.emit(
                protocol,
                StreamOrigin::Inbound,
                info,
            ),
            ConnectionEvent::FullyNegotiatedOutbound { protocol, info } => self.emit(
                protocol,
                StreamOrigin::Outbound,
                info,
            ),
            ConnectionEvent::DialUpgradeError => self,
            ConnectionEvent::AddressChange => self,
            ConnectionEvent::ListenUpgradeError => self,
        }
    }

    /// What is handed out, and the state that is left, once the first event is collected.
    pub open spec fn collect(self) -> (Option<HandlerEventView<S>>, HandlerView<S>) {
        if self.events.len() > 0 {
            (Some(self.events.first()), HandlerView { events: self.events.drop_first(), ..self })
        } else {
            (None, self)
        }
    }
}

/// The handler of one connection.
#[derive(Debug)]
pub struct Handler<S> {
    protocol_name: String,
    events: EventQueue<HandlerEvent<S>>,
    peer_id: PeerId,
    next_inbound_stream_id: u64,
}

impl<S> View for Handler<S> {
    type V = HandlerView<S>;

    closed spec fn view(&self) -> HandlerView<S> {
        HandlerView {
            protocol_name: self.protocol_name@,
            events: self.events@,
            peer_id: self.peer_id@,
            next_inbound_stream_id: self.next_inbound_stream_id,
        }
    }
}

impl HandlerPrototype {
    /// The handler of the connection to a peer.
    pub fn into_handler<S>(self, remote_peer_id: &PeerId, connected_point: &ConnectedPoint) -> (handler:
        Handler<S>)
        ensures
            handler@ == HandlerView::<S>::initial(self@.protocol_name, remote_peer_id@),
    {
        Handler {
            protocol_name: self.protocol_name,
            events: EventQueue::new(),
            peer_id: remote_peer_id.clone(),
            next_inbound_stream_id: 1,
        }
    }

    /// The protocol that a peer may open streams by.
    pub fn inbound_protocol(&self) -> (protocol_name: String)
        ensures
            protocol_name@ == self@.protocol_name,
    {
        self.protocol_name.clone()
    }
}

impl<S> Handler<S> {
    /// Hands a negotiated substream on as a stream.
    fn emit_stream(&mut self, proto: S, origin: StreamOrigin, info: OpenInfo)
        ensures
            final(self)@ == old(self)@.emit(proto, origin, info),
    {
        let stream = BiStream {
            stream_id: info.stream_id,
            peer_id: self.peer_id.clone(),
            inner: proto,
            origin,
        };
        let event = match stream.origin() {
            StreamOrigin::Outbound => OutEvent::OutboundStream(stream),
            StreamOrigin::Inbound => OutEvent::InboundStream(stream),
        };
        self.events.push_back(ConnectionHandlerEvent::Custom(event));
    }

    /// How to negotiate the next stream that the peer opens.
    pub fn listen_protocol(&mut self) -> (protocol: SubstreamProtocol<OpenInfo>)
        ensures
            protocol@ == old(self)@.protocol(old(self)@.next_inbound_stream_id),
            final(self)@ == old(self)@.listened(),
    {
        let stream_id: u64 = self.next_inbound_stream_id;
        self.next_inbound_stream_id = stream_id.wrapping_add(1);
        SubstreamProtocol { protocol_name: self.protocol_name.clone(), info: OpenInfo { stream_id } }
    }

    /// Takes note of what the behaviour tells.
    pub fn on_behaviour_event(&mut self, event: InEvent)
        ensures
            final(self)@ == old(self)@.asked(event),
    {
        match event {
            InEvent::OpenOutbound(stream_id) => {
                let protocol = SubstreamProtocol {
                    protocol_name: self.protocol_name.clone(),
                    info: OpenInfo { stream_id },
                };
                self.events.push_back(ConnectionHandlerEvent::OutboundSubstreamRequest { protocol });
            },
        }
    }

    /// The connection is kept open, whether or not there are streams on it.
    pub fn connection_keep_alive(&self) -> (keep_alive: KeepAlive)
        ensures
            keep_alive == KeepAlive::Yes,
    {
        KeepAlive::Yes
    }

    /// Hands out the next thing that the handler asks for.
    pub fn poll(&mut self) -> (event: Option<HandlerEvent<S>>)
        ensures
            (viewed(event), final(self)@) == old(self)@.collect(),
    {
        self.events.pop_front()
    }

    /// Takes note of what happens on the connection.
    pub fn on_connection_event(&mut self, event: ConnectionEvent<S, OpenInfo>)
        ensures
            final(self)@ == old(self)@.happened(event),
    {
        match event {
            ConnectionEvent::FullyNegotiatedInbound { protocol, info } => {
                self.emit_stream(protocol, StreamOrigin::Inbound, info);
            },
            ConnectionEvent::FullyNegotiatedOutbound { protocol, info } => {
                self.emit_stream(protocol, StreamOrigin::Outbound, info);
            },
            ConnectionEvent::DialUpgradeError => {},
            ConnectionEvent::AddressChange => {},
            ConnectionEvent::ListenUpgradeError => {},
        }
    }
}

} // verus!
