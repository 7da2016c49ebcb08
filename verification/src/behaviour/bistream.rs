//! A behaviour that answers each request for a stream through the handle `R` that came
//! with the request, rather than by an event.

use std::collections::VecDeque;

use vstd::prelude::*;
use vstd::string::*;

use crate::peer::PeerId;
use crate::peer_map::PeerMap;
use crate::peer_queues::{all_waiting, waiting, with_last, without_first, PeerQueues};
use crate::queue::{viewed, EventQueue};
use crate::stream::{BiStream, BiStreamView, StreamOrigin};
use crate::swarm::{
    ConnectionEvent, ConnectionHandlerEvent, ConnectionHandlerEventView, ConnectionId, DialOpts,
    DialOptsView, FromSwarm, KeepAlive, NetworkBehaviourAction, NetworkBehaviourActionView,
    PeerCondition, SubstreamProtocol, SubstreamProtocolView,
};

verus! {

/// The protocol that is negotiated where no other name was chosen.
pub const PROTOCOL_NAME: &'static str = "/p2pstream/bistream/0.0.1";

/// The number of a stream on its connection.
pub type StreamId = u64;

/// What the behaviour reports.
#[derive(Debug)]
pub enum Event<S> {
    /// The peer opened a stream, and nobody had asked for one.
    IncomingStream(BiStream<S>),
}

/// What an [`Event`] says.
pub enum EventView<S> {
    IncomingStream(BiStreamView<S>),
}

impl<S> View for Event<S> {
    type V = EventView<S>;

    open spec fn view(&self) -> EventView<S> {
        match *self {
            Event::IncomingStream(stream) => EventView::IncomingStream(stream@),
        }
    }
}

/// The event that the behaviour receives from a handler.
#[derive(Debug)]
pub enum OutEvent<S> {
    InboundStream(BiStream<S>),
    OutboundStream(BiStream<S>),
}

/// What an [`OutEvent`] says.
pub enum OutEventView<S> {
    InboundStream(BiStreamView<S>),
    OutboundStream(BiStreamView<S>),
}

impl<S> View for OutEvent<S> {
    type V = OutEventView<S>;

    open spec fn view(&self) -> OutEventView<S> {
        match *self {
            OutEvent::InboundStream(stream) => OutEventView::InboundStream(stream@),
            OutEvent::OutboundStream(stream) => OutEventView::OutboundStream(stream@),
        }
    }
}

/// The event that a handler receives from the behaviour.
#[derive(Debug)]
pub enum InEvent {
    /// The connection is one to this peer.
    ConnectionEstablished { peer_id: PeerId },
    /// Open a stream.
    OpenOutbound,
}

/// What an [`InEvent`] says.
pub enum InEventView {
    ConnectionEstablished { peer_id: Seq<u8> },
    OpenOutbound,
}

impl View for InEvent {
    type V = InEventView;

    open spec fn view(&self) -> InEventView {
        match *self {
            InEvent::ConnectionEstablished { peer_id } => InEventView::ConnectionEstablished {
                peer_id: peer_id@,
            },
            InEvent::OpenOutbound => InEventView::OpenOutbound,
        }
    }
}

/// What is remembered of a substream until its protocol is negotiated.
#[derive(Clone, Copy, Debug, Default)]
pub struct OpenInfo {
    pub stream_id: StreamId,
}

/// What a handler asks for.
pub type HandlerEvent<S> = ConnectionHandlerEvent<OpenInfo, OutEvent<S>>;

/// What a [`HandlerEvent`] says.
pub type HandlerEventView<S> = ConnectionHandlerEventView<OpenInfo, OutEventView<S>>;

/// The state of a [`Handler`].
#[verifier::ext_equal]
pub struct HandlerView<S> {
    pub protocol_name: Seq<char>,
    /// What was not collected yet.
    pub events: Seq<HandlerEventView<S>>,
    /// The peer, once the behaviour has named it.
    pub peer_id: Option<Seq<u8>>,
    /// The number of the next stream that the peer opens.
    pub inbound_stream_id: u64,
    /// The number of the last stream that was asked for.
    pub outbound_stream_id: u64,
}

/// The name that was chosen for the protocol, or else the usual one.
pub open spec fn chosen_name(protocol_name: Option<Seq<char>>) -> Seq<char> {
    match protocol_name {
        Some(name) => name,
        None => PROTOCOL_NAME@,
    }
}

impl<S> HandlerView<S> {
    /// What the handler is when it is made.
    pub open spec fn initial(protocol_name: Seq<char>) -> HandlerView<S> {
        HandlerView {
            protocol_name,
            events: Seq::empty(),
            peer_id: None,
            inbound_stream_id: 0,
            outbound_stream_id: 0,
        }
    }

    /// How to negotiate a stream of the given number.
    pub open spec fn protocol(self, stream_id: u64) -> SubstreamProtocolView<OpenInfo> {
        SubstreamProtocolView { protocol_name: self.protocol_name, info: OpenInfo { stream_id } }
    }

    /// The state once the number of one more inbound stream was given out. After the
    /// last number comes zero.
    pub open spec fn listened(self) -> HandlerView<S> {
        HandlerView {
            inbound_stream_id: if self.inbound_stream_id == u64::MAX {
                0
            } else {
                (self.inbound_stream_id + 1) as u64
            },
            ..self
        }
    }

    /// The state once the behaviour told something.
    pub open spec fn asked(self, event: InEventView) -> HandlerView<S> {
        match event {
            InEventView::ConnectionEstablished { peer_id } => HandlerView {
                peer_id: Some(peer_id),
                ..self
            },
            InEventView::OpenOutbound => {
                let stream_id = (self.outbound_stream_id + 1) as u64;
                HandlerView {
                    outbound_stream_id: stream_id,
                    events: self.events.push(
                        ConnectionHandlerEventView::OutboundSubstreamRequest {
                            protocol: self.protocol(stream_id),
                        },
                    ),
                    ..self
                }
            },
        }
    }

    /// The stream that a substream becomes.
    pub open spec fn stream(self, inner: S, origin: StreamOrigin, info: OpenInfo) -> BiStreamView<S> {
        BiStreamView { peer_id: self.peer_id->0, origin, stream_id: info.stream_id, inner }
    }

    /// The state once the protocol was negotiated on a substream.
    pub open spec fn emit(self, inner: S, origin: StreamOrigin, info: OpenInfo) -> HandlerView<S> {
        let stream = self.stream(inner, origin, info);
        HandlerView {
            events: self.events.push(
                ConnectionHandlerEventView::Custom(
                    match origin {
                        StreamOrigin::Outbound => OutEventView::OutboundStream(stream),
                        StreamOrigin::Inbound => OutEventView::InboundStream(stream),
                    },
                ),
            ),
            ..self
        }
    }

    /// Streams come only once the peer was named.
    pub open spec fn can_happen(self, event: ConnectionEvent<S, OpenInfo>) -> bool {
        match event {
            ConnectionEvent::FullyNegotiatedInbound { .. } => self.peer_id is Some,
            ConnectionEvent::FullyNegotiatedOutbound { .. } => self.peer_id is Some,
            _ => true,
        }
    }

    /// The state once something happened on the connection.
    pub open spec fn happened(self, event: ConnectionEvent<S, OpenInfo>) -> HandlerView<S> {
        match event {
            ConnectionEvent::FullyNegotiatedInbound { protocol, info } => self.emit(
                protocol,
                StreamOrigin::Inbound,
                info,
            ),
            ConnectionEvent::FullyNegotiatedOutbound { protocol, info } => self.emit(
                protocol,
                StreamOrigin::Outbound,
                info,
            ),
            ConnectionEvent::DialUpgradeError => self,
            ConnectionEvent::AddressChange => self,
            ConnectionEvent::ListenUpgradeError => self,
        }
    }

    /// What is handed out, and the state that is left, once the first event is collected.
    pub open spec fn collect(self) -> (Option<HandlerEventView<S>>, HandlerView<S>) {
        if self.events.len() > 0 {
            (Some(self.events.first()), HandlerView { events: self.events.drop_first(), ..self })
        } else {
            (None, self)
        }
    }
}

/// The handler of one connection.
#[derive(Debug)]
pub struct Handler<S> {
    protocol_name: String,
    events: EventQueue<HandlerEvent<S>>,
    peer_id: Option<PeerId>,
    inbound_stream_id: u64,
    outbound_stream_id: u64,
}

impl<S> View for Handler<S> {
    type V = HandlerView<S>;

    closed spec fn view(&self) -> HandlerView<S> {
        HandlerView {
            protocol_name: self.protocol_name@,
            events: self.events@,
            peer_id: viewed(self.peer_id),
            inbound_stream_id: self.inbound_stream_id,
            outbound_stream_id: self.outbound_stream_id,
        }
    }
}

impl<S> Default for Handler<S> {
    fn default() -> (handler: Handler<S>)
        ensures
            handler@ == HandlerView::<S>::initial(Seq::empty()),
    {
        Handler {
            protocol_name: String::new(),
            events: EventQueue::new(),
            peer_id: None,
            inbound_stream_id: 0,
            outbound_stream_id: 0,
        }
    }
}

impl<S> Handler<S> {
    pub fn new(protocol_name: Option<String>) -> (handler: Handler<S>)
        ensures
            handler@ == HandlerView::<S>::initial(chosen_name(viewed(protocol_name))),
    {
        let protocol_name = match protocol_name {
            Some(name) => name,
            None => PROTOCOL_NAME.to_owned(),
        };
        Handler {
            protocol_name,
            events: EventQueue::new(),
            peer_id: None,
            inbound_stream_id: 0,
            outbound_stream_id: 0,
        }
    }

    /// The peer, once the behaviour has named it.
    pub fn peer_id(&self) -> (peer_id: Option<&PeerId>)
        ensures
            match peer_id {
                Some(peer_id) => self@.peer_id == Some(peer_id@),
                None => self@.peer_id is None,
            },
    {
        match &self.peer_id {
            Some(peer_id) => Some(peer_id),
            None => None,
        }
    }

    /// The number of the last stream that was asked for.
    pub fn outbound_stream_id(&self) -> (stream_id: u64)
        ensures
            stream_id == self@.outbound_stream_id,
    {
        self.outbound_stream_id
    }

    /// Hands a negotiated substream on as a stream.
    fn emit_stream(&mut self, proto: S, origin: StreamOrigin, info: OpenInfo)
        requires
            old(self)@.peer_id is Some,
        ensures
            final(self)@ == old(self)@.emit(proto, origin, info),
    {
        if let Some(peer_id) = &self.peer_id {
            let stream = BiStream {
                stream_id: info.stream_id,
                peer_id: peer_id.clone(),
                inner: proto,
                origin,
            };
            let event = match stream.origin() {
                StreamOrigin::Outbound => OutEvent::OutboundStream(stream),
                StreamOrigin::Inbound => OutEvent::InboundStream(stream),
            };
            self.events.push_back(ConnectionHandlerEvent::Custom(event));
        }
    }

    /// How to negotiate the next stream that the peer opens.
    pub fn listen_protocol(&mut self) -> (protocol: SubstreamProtocol<OpenInfo>)
        ensures
            protocol@ == old(self)@.protocol(old(self)@.inbound_stream_id),
            final(self)@ == old(self)@.listened(),
    {
        let stream_id: u64 = self.inbound_stream_id;
        self.inbound_stream_id = stream_id.wrapping_add(1);
        SubstreamProtocol { protocol_name: self.protocol_name.clone(), info: OpenInfo { stream_id } }
    }

    /// Takes note of what the behaviour tells.
    pub fn on_behaviour_event(&mut self, event: InEvent)
        requires
            event is OpenOutbound ==> old(self)@.outbound_stream_id < u64::MAX,
        ensures
            final(self)@ == old(self)@.asked(event@),
    {
        match event {
            InEvent::ConnectionEstablished { peer_id } => {
                self.peer_id = Some(peer_id);
            },
            InEvent::OpenOutbound => {
                self.outbound_stream_id = self.outbound_stream_id + 1;
                let protocol = SubstreamProtocol {
                    protocol_name: self.protocol_name.clone(),
                    info: OpenInfo { stream_id: self.outbound_stream_id },
                };
                self.events.push_back(ConnectionHandlerEvent::OutboundSubstreamRequest { protocol });
            },
        }
    }

    /// The connection is kept open, whether or not there are streams on it.
    pub fn connection_keep_alive(&self) -> (keep_alive: KeepAlive)
        ensures
            keep_alive == KeepAlive::Yes,
    {
        KeepAlive::Yes
    }

    /// Hands out the next thing that the handler asks for.
    pub fn poll(&mut self) -> (event: Option<HandlerEvent<S>>)
        ensures
            (viewed(event), final(self)@) == old(self)@.collect(),
    {
        self.events.pop_front()
    }

    /// Takes note of what happens on the connection.
    pub fn on_connection_event(&mut self, event: ConnectionEvent<S, OpenInfo>)
        requires
            old(self)@.can_happen(event),
        ensures
            final(self)@ == old(self)@.happened(event),
    {
        match event {
            ConnectionEvent::FullyNegotiatedInbound { protocol, info } => {
                self.emit_stream(protocol, StreamOrigin::Inbound, info);
            },
            ConnectionEvent::FullyNegotiatedOutbound { protocol, info } => {
                self.emit_stream(protocol, StreamOrigin::Outbound, info);
            },
            ConnectionEvent::DialUpgradeError => {},
            ConnectionEvent::AddressChange => {},
            ConnectionEvent::ListenUpgradeError => {},
        }
    }
}

/// What the behaviour asks of the swarm.
pub type Action<S> = NetworkBehaviourAction<Event<S>, Handler<S>, InEvent>;

/// What an [`Action`] says.
pub type ActionView<S> = NetworkBehaviourActionView<EventView<S>, HandlerView<S>, InEventView>;

/// What is to be done with a stream.
#[derive(Debug)]
pub enum Delivery<S, R> {
    /// It answers the request that the handle came with.
    Reply { reply: R, stream: BiStream<S> },
    /// It is reported as an event.
    Reported,
    /// It is dropped: it was opened from here, yet nobody had asked for it.
    Unrequested(BiStream<S>),
}

/// A request for a stream that is to be answered with an error.
#[derive(Debug)]
pub struct FailedOpen<R> {
    pub reply: R,
    pub error: String,
}

/// The handles and the errors in a list of failed requests.
pub open spec fn answers<R>(failed: Seq<FailedOpen<R>>) -> Seq<(R, Seq<char>)> {
    failed.map_values(|f: FailedOpen<R>| (f.reply, f.error@))
}

/// The same error for each of several requests.
pub open spec fn refused<R>(replies: Seq<R>, error: Seq<char>) -> Seq<(R, Seq<char>)> {
    replies.map_values(|reply: R| (reply, error))
}

/// The error that is given where a peer could not be dialed.
pub open spec fn dial_error(error: Seq<char>) -> Seq<char> {
    "Failed to dial peer: "@ + error
}

/// Answers each of several requests with the same error.
fn fail_all<R>(replies: VecDeque<R>, error: &String) -> (failed: Vec<FailedOpen<R>>)
    ensures
        answers(failed@) == refused(replies@, error@),
{
    let mut replies = replies;
    let mut failed: Vec<FailedOpen<R>> = Vec::new();
    let ghost all = replies@;
    assert(answers(failed@) + refused(replies@, error@) =~= refused(all, error@));
    while replies.len() > 0
        invariant
            answers(failed@) + refused(replies@, error@) == refused(all, error@),
        decreases replies@.len(),
    {
        let ghost before = replies@;
        if let Some(reply) = replies.pop_front() {
            let ghost done = answers(failed@);
            failed.push(FailedOpen { reply, error: error.clone() });
            assert(answers(failed@) =~= done.push((reply, error@)));
            assert(refused(before, error@) =~= seq![(reply, error@)] + refused(replies@, error@));
            assert(answers(failed@) + refused(replies@, error@) =~= done + refused(before, error@));
        }
    }
    assert(answers(failed@) =~= refused(all, error@));
    failed
}

/// The state of a [`Behaviour`].
#[verifier::ext_equal]
pub struct BehaviourView<S, R> {
    pub protocol_name: Option<Seq<char>>,
    /// What the swarm has not collected yet.
    pub events: Seq<ActionView<S>>,
    /// The last connection that came about to each peer.
    pub conns: Map<Seq<u8>, ConnectionId>,
    /// Who asked for a stream that is to be opened from here.
    pub pending_open: Map<Seq<u8>, Seq<R>>,
    /// Who asked for a stream that the peer opens.
    pub pending_accept: Map<Seq<u8>, Seq<R>>,
}

impl<S, R> BehaviourView<S, R> {
    /// There are queues only for peers that someone asked a stream of.
    pub open spec fn inv(self) -> bool {
        &&& all_waiting(self.pending_open)
        &&& all_waiting(self.pending_accept)
    }

    /// What the behaviour is when it is made.
    pub open spec fn initial(protocol_name: Option<Seq<char>>) -> BehaviourView<S, R> {
        BehaviourView {
            protocol_name,
            events: Seq::empty(),
            conns: Map::empty(),
            pending_open: Map::empty(),
            pending_accept: Map::empty(),
        }
    }

    pub open spec fn handler(self) -> HandlerView<S> {
        HandlerView::initial(chosen_name(self.protocol_name))
    }

    /// The state once someone asked for a stream that the peer opens.
    pub open spec fn accept(self, peer: Seq<u8>, reply: R) -> BehaviourView<S, R> {
        BehaviourView { pending_accept: with_last(self.pending_accept, peer, reply), ..self }
    }

    /// The state once someone asked for a stream that is to be opened from here. If there
    /// is no connection to the peer, it is dialed.
    pub open spec fn open(self, peer: Seq<u8>, reply: R) -> BehaviourView<S, R> {
        BehaviourView {
            pending_open: with_last(self.pending_open, peer, reply),
            events: self.events.push(
                if self.conns.contains_key(peer) {
                    NetworkBehaviourActionView::NotifyHandler {
                        peer_id: peer,
                        connection_id: self.conns[peer],
                        event: InEventView::OpenOutbound,
                    }
                } else {
                    NetworkBehaviourActionView::Dial {
                        opts: DialOptsView {
                            peer_id: peer,
                            addresses: None,
                            condition: PeerCondition::Always,
                        },
                        handler: self.handler(),
                    }
                },
            ),
            ..self
        }
    }

    /// What is done with a stream: it answers the oldest request of its kind.
    pub open spec fn delivery(self, event: OutEvent<S>) -> Delivery<S, R> {
        match event {
            OutEvent::OutboundStream(stream) => {
                if self.pending_open.contains_key(stream.peer_id@) {
                    Delivery::Reply {
                        reply: self.pending_open[stream.peer_id@].first(),
                        stream,
                    }
                } else {
                    Delivery::Unrequested(stream)
                }
            },
            OutEvent::InboundStream(stream) => {
                if self.pending_accept.contains_key(stream.peer_id@) {
                    Delivery::Reply {
                        reply: self.pending_accept[stream.peer_id@].first(),
                        stream,
                    }
                } else {
                    Delivery::Reported
                }
            },
        }
    }

    /// The state once a handler told of a stream.
    pub open spec fn heard(self, event: OutEventView<S>) -> BehaviourView<S, R> {
        match event {
            OutEventView::OutboundStream(stream) => BehaviourView {
                pending_open: without_first(self.pending_open, stream.peer_id),
                ..self
            },
            OutEventView::InboundStream(stream) => {
                if self.pending_accept.contains_key(stream.peer_id) {
                    BehaviourView {
                        pending_accept: without_first(self.pending_accept, stream.peer_id),
                        ..self
                    }
                } else {
                    BehaviourView {
                        events: self.events.push(
                            NetworkBehaviourActionView::GenerateEvent(
                                EventView::IncomingStream(stream),
                            ),
                        ),
                        ..self
                    }
                }
            },
        }
    }

    /// The state once the swarm told something.
    pub open spec fn told(self, event: FromSwarm) -> BehaviourView<S, R> {
        match event {
            FromSwarm::ConnectionEstablished(conn) => BehaviourView {
                conns: self.conns.insert(conn.peer_id@, conn.connection_id),
                events: self.events.push(
                    NetworkBehaviourActionView::NotifyHandler {
                        peer_id: conn.peer_id@,
                        connection_id: conn.connection_id,
                        event: InEventView::ConnectionEstablished { peer_id: conn.peer_id@ },
                    },
                ),
                ..self
            },
            FromSwarm::DialFailure(failure) => match failure.peer_id {
                Some(peer_id) => BehaviourView {
                    pending_open: self.pending_open.remove(peer_id@),
                    ..self
                },
                None => self,
            },
            FromSwarm::ConnectionClosed(_) => self,
            FromSwarm::Other => self,
        }
    }

    /// Who is to hear of an error once the swarm told something: if a peer could not be
    /// dialed, all that asked for a stream to it, in the order in which they asked.
    pub open spec fn refusals(self, event: FromSwarm) -> Seq<(R, Seq<char>)> {
        match event {
            FromSwarm::DialFailure(failure) => match failure.peer_id {
                Some(peer_id) => refused(
                    waiting(self.pending_open, peer_id@),
                    dial_error(failure.error@),
                ),
                None => Seq::empty(),
            },
            _ => Seq::empty(),
        }
    }

    /// What the swarm gets, and the state that is left, once it collects the first event.
    pub open spec fn collect(self) -> (Option<ActionView<S>>, BehaviourView<S, R>) {
        if self.events.len() > 0 {
            (
                Some(self.events.first()),
                BehaviourView { events: self.events.drop_first(), ..self },
            )
        } else {
            (None, self)
        }
    }
}

/// A network behaviour for bidirectional streams on substreams `S`, asked for with
/// handles `R`.
#[derive(Debug)]
pub struct Behaviour<S, R> {
    protocol_name: Option<String>,
    events: EventQueue<Action<S>>,
    conns: PeerMap<ConnectionId>,
    pending_open: PeerQueues<R>,
    pending_accept: PeerQueues<R>,
}

impl<S, R> View for Behaviour<S, R> {
    type V = BehaviourView<S, R>;

    closed spec fn view(&self) -> BehaviourView<S, R> {
        BehaviourView {
            protocol_name: viewed(self.protocol_name),
            events: self.events@,
            conns: self.conns@,
            pending_open: self.pending_open@,
            pending_accept: self.pending_accept@,
        }
    }
}

impl<S, R> Default for Behaviour<S, R> {
    fn default() -> (behaviour: Behaviour<S, R>)
        ensures
            behaviour.inv(),
            behaviour@ == BehaviourView::<S, R>::initial(None),
    {
        Behaviour {
            protocol_name: None,
            events: EventQueue::new(),
            conns: PeerMap::new(),
            pending_open: PeerQueues::new(),
            pending_accept: PeerQueues::new(),
        }
    }
}

impl<S, R> Behaviour<S, R> {
    /// The tables of peers are in order.
    pub closed spec fn well_formed(&self) -> bool {
        &&& self.conns.inv()
        &&& self.pending_open.inv()
        &&& self.pending_accept.inv()
    }

    pub open spec fn inv(&self) -> bool {
        &&& self.well_formed()
        &&& self@.inv()
    }

    /// A behaviour for the usual protocol.
    pub fn new() -> (behaviour: Behaviour<S, R>)
        ensures
            behaviour.inv(),
            behaviour@ == BehaviourView::<S, R>::initial(None),
    {
        Self::default()
    }

    /// A behaviour for a protocol of another name.
    pub fn with_protocol_name(name: String) -> (behaviour: Behaviour<S, R>)
        ensures
            behaviour.inv(),
            behaviour@ == BehaviourView::<S, R>::initial(Some(name@)),
    {
        Behaviour {
            protocol_name: Some(name),
            events: EventQueue::new(),
            conns: PeerMap::new(),
            pending_open: PeerQueues::new(),
            pending_accept: PeerQueues::new(),
        }
    }

    /// Asks for the next stream that the peer opens.
    pub fn accept_bi_from_peer(&mut self, peer_id: &PeerId, reply: R)
        requires
            old(self).inv(),
        ensures
            final(self).inv(),
            final(self)@ == old(self)@.accept(peer_id@, reply),
    {
        self.pending_accept.push_back(peer_id, reply);
    }

    /// Asks for a stream to the peer.
    pub fn open_bi(&mut self, peer_id: &PeerId, reply: R)
        requires
            old(self).inv(),
        ensures
            final(self).inv(),
            final(self)@ == old(self)@.open(peer_id@, reply),
    {
        self.pending_open.push_back(peer_id, reply);
        if let Some(conn_id) = self.conns.get(peer_id) {
            self.events.push_back(
                NetworkBehaviourAction::NotifyHandler {
                    peer_id: peer_id.clone(),
                    connection_id: *conn_id,
                    event: InEvent::OpenOutbound,
                },
            );
        } else {
            let handler = self.new_handler();
            self.events.push_back(
                NetworkBehaviourAction::Dial {
                    opts: DialOpts {
                        peer_id: peer_id.clone(),
                        addresses: None,
                        condition: PeerCondition::Always,
                    },
                    handler,
                },
            );
        }
    }

    /// The handler for a new connection.
    pub fn new_handler(&self) -> (handler: Handler<S>)
        ensures
            handler@ == self@.handler(),
    {
        Handler::new(
            match &self.protocol_name {
                Some(name) => Some(name.clone()),
                None => None,
            },
        )
    }

    /// Takes note of a stream that the handler of a connection tells of, and says what is
    /// to be done with it.
    pub fn on_connection_handler_event(
        &mut self,
        peer_id: PeerId,
        connection: ConnectionId,
        event: OutEvent<S>,
    ) -> (delivery: Delivery<S, R>)
        requires
            old(self).inv(),
        ensures
            final(self).inv(),
            delivery == old(self)@.delivery(event),
            final(self)@ == old(self)@.heard(event@),
    {
        match event {
            OutEvent::OutboundStream(stream) => {
                match self.pending_open.pop_front(&stream.peer_id) {
                    Some(reply) => Delivery::Reply { reply, stream },
                    None => Delivery::Unrequested(stream),
                }
            },
            OutEvent::InboundStream(stream) => {
                match self.pending_accept.pop_front(&stream.peer_id) {
                    Some(reply) => Delivery::Reply { reply, stream },
                    None => {
                        self.events.push_back(
                            NetworkBehaviourAction::GenerateEvent(Event::IncomingStream(stream)),
                        );
                        Delivery::Reported
                    },
                }
            },
        }
    }

    /// Takes note of what the swarm tells. Returns the requests that are to be answered
    /// with an error.
    pub fn on_swarm_event(&mut self, event: FromSwarm) -> (failed: Vec<FailedOpen<R>>)
        requires
            old(self).inv(),
        ensures
            final(self).inv(),
            answers(failed@) == old(self)@.refusals(event),
            final(self)@ == old(self)@.told(event),
    {
        let mut failed: Vec<FailedOpen<R>> = Vec::new();
        match event {
            FromSwarm::ConnectionEstablished(conn) => {
                self.conns.insert(conn.peer_id.clone(), conn.connection_id);
                self.events.push_back(
                    NetworkBehaviourAction::NotifyHandler {
                        peer_id: conn.peer_id.clone(),
                        connection_id: conn.connection_id,
                        event: InEvent::ConnectionEstablished { peer_id: conn.peer_id },
                    },
                );
            },
            FromSwarm::DialFailure(failure) => {
                let error: String = "Failed to dial peer: ".to_owned().concat(
                    failure.error.as_str(),
                );
                if let Some(peer_id) = failure.peer_id {
                    let replies = self.pending_open.remove(&peer_id);
                    failed = fail_all(replies, &error);
                }
            },
            FromSwarm::ConnectionClosed(_) => {},
            FromSwarm::Other => {},
        }
        assert(answers(failed@) =~= old(self)@.refusals(event));
        failed
    }

    /// Hands out the next thing that the behaviour asks of the swarm.
    pub fn poll(&mut self) -> (action: Option<Action<S>>)
        requires
            old(self).inv(),
        ensures
            final(self).inv(),
            (viewed(action), final(self)@) == old(self)@.collect(),
    {
        self.events.pop_front()
    }
}

} // verus!
