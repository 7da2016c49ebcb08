//! Managed mode: streams are opened and accepted through connections, outside of the
//! loop that drives the swarm.

use smallvec::SmallVec;
use vstd::prelude::*;

use crate::peer::{addresses, Multiaddr, PeerId};
use crate::peer_map::PeerMap;
use crate::peer_queues::{all_waiting, with_last, without_first, PeerQueues};
use crate::stream::{BiStream, StreamOrigin};
use crate::swarm::{DialOpts, DialOptsView, PeerCondition};

verus! {

/// Why there is no connection or no stream.
#[derive(Clone, Copy, Debug, PartialEq, Eq, Structural)]
pub enum Error {
    ChannelClosed,
    DialFailed,
}

impl Error {
    /// The error in words.
    pub open spec fn message(self) -> Seq<char> {
        match self {
            Error::ChannelClosed => "Channel closed"@,
            Error::DialFailed => "Failed to dial peer"@,
        }
    }

    /// The text by which the error is shown.
    pub fn to_string(&self) -> (text: String)
        ensures
            text@ == self.message(),
    {
        match self {
            Error::ChannelClosed => "Channel closed".to_owned(),
            Error::DialFailed => "Failed to dial peer".to_owned(),
        }
    }
}

/// A list of addresses in a `smallvec::SmallVec`, so that the first few take no memory of
/// their own. Trusted: what it holds is known by [`addr_list`] alone.
#[verifier::external_body]
pub struct AddrList {
    inner: SmallVec<[Multiaddr; 8]>,
}

/// The addresses in a list of them.
pub uninterp spec fn addr_list(addrs: AddrList) -> Seq<Seq<u8>>;

/// Makes a list by `smallvec::SmallVec::new`. Trusted: it is empty.
#[verifier::external_body]
fn smallvec_new() -> (addrs: AddrList)
    ensures
        addr_list(addrs) == Seq::<Seq<u8>>::empty(),
{
    AddrList { inner: SmallVec::new() }
}

/// Makes a list by `smallvec::SmallVec::from_vec`. Trusted: it holds the same addresses,
/// in the same order.
#[verifier::external_body]
fn smallvec_from_vec(addrs: Vec<Multiaddr>) -> (list: AddrList)
    ensures
        addr_list(list) == addresses(addrs@),
{
    AddrList { inner: SmallVec::from_vec(addrs) }
}

/// Takes a list apart by `smallvec::SmallVec::into_vec`. Trusted: the result holds the
/// same addresses, in the same order.
#[verifier::external_body]
fn smallvec_into_vec(list: AddrList) -> (addrs: Vec<Multiaddr>)
    ensures
        addresses(addrs@) == addr_list(list),
{
    list.inner.into_vec()
}

impl AddrList {
    /// A list without addresses.
    pub fn new() -> (addrs: AddrList)
        ensures
            addr_list(addrs) == Seq::<Seq<u8>>::empty(),
    {
        smallvec_new()
    }

    /// A list of the given addresses.
    pub fn from_vec(addrs: Vec<Multiaddr>) -> (list: AddrList)
        ensures
            addr_list(list) == addresses(addrs@),
    {
        smallvec_from_vec(addrs)
    }

    /// The addresses in the list.
    pub fn to_vec(self) -> (addrs: Vec<Multiaddr>)
        ensures
            addresses(addrs@) == addr_list(self),
    {
        smallvec_into_vec(self)
    }
}

/// A request for a connection, to be answered through the handle `D`.
pub struct DialRequest<D> {
    pub peer_id: PeerId,
    pub addrs: AddrList,
    pub reply: D,
}

/// A request for a stream, to be answered through the handle `O`.
pub struct OpenRequest<O> {
    pub peer_id: PeerId,
    pub reply: O,
}

/// What the swarm is to do for the manager.
#[derive(Debug)]
pub enum ManagerEvent {
    /// Open a stream to the peer.
    Open(PeerId),
    /// Dial a peer.
    Dial(DialOpts),
}

/// What a [`ManagerEvent`] says.
pub enum ManagerEventView {
    Open(Seq<u8>),
    Dial(DialOptsView),
}

impl View for ManagerEvent {
    type V = ManagerEventView;

    open spec fn view(&self) -> ManagerEventView {
        match *self {
            ManagerEvent::Open(peer_id) => ManagerEventView::Open(peer_id@),
            ManagerEvent::Dial(opts) => ManagerEventView::Dial(opts@),
        }
    }
}

/// The result of a request: nobody answers if the manager is gone, or drops the request.
pub open spec fn result_of<T>(sent: bool, answer: Option<Result<T, Error>>) -> Result<T, Error> {
    match answer {
        Some(result) if sent => result,
        _ => Err(Error::ChannelClosed),
    }
}

/// What looking for an item on a channel comes to, if anything yet: the item, or an error
/// once the other side of the channel is gone.
pub open spec fn received_of<T>(received: Option<Option<T>>) -> Option<Result<T, Error>> {
    match received {
        Some(Some(item)) => Some(Ok(item)),
        Some(None) => Some(Err(Error::ChannelClosed)),
        None => None,
    }
}

/// Says what looking for an item on a channel comes to.
fn received_result<T>(received: Option<Option<T>>) -> (result: Option<Result<T, Error>>)
    ensures
        result == received_of(received),
{
    match received {
        Some(item) => Some(item.ok_or(Error::ChannelClosed)),
        None => None,
    }
}

/// Says what a request comes to.
fn request_result<T>(sent: bool, answer: Option<Result<T, Error>>) -> (result: Result<T, Error>)
    ensures
        result == result_of(sent, answer),
{
    if !sent {
        return Err(Error::ChannelClosed);
    }
    match answer {
        Some(result) => result,
        None => Err(Error::ChannelClosed),
    }
}

/// The end of the managed mode at which connections are made and accepted.
pub struct Endpoint;

impl Endpoint {
    /// The request for a connection to a peer.
    pub fn connect<D>(peer_id: PeerId, reply: D) -> (request: DialRequest<D>)
        ensures
            request.peer_id == peer_id,
            request.reply == reply,
            addr_list(request.addrs) == Seq::<Seq<u8>>::empty(),
    {
        Self::connect_with_addrs(peer_id, AddrList::new(), reply)
    }

    /// The request for a connection to a peer that may be found under the given addresses.
    pub fn connect_with_addrs<D>(peer_id: PeerId, addrs: AddrList, reply: D) -> (request: DialRequest<
        D,
    >)
        ensures
            request == (DialRequest { peer_id, addrs, reply }),
    {
        DialRequest { peer_id, addrs, reply }
    }

    /// What a request for a connection comes to: whether it was sent, and the answer.
    pub fn connected<T>(sent: bool, answer: Option<Result<T, Error>>) -> (result: Result<T, Error>)
        ensures
            result == result_of(sent, answer),
    {
        request_result(sent, answer)
    }

    /// What looking for a connection comes to. Nothing at all was received while the
    /// channel is empty, and no connection once its other side is gone.
    pub fn poll_accept<T>(received: Option<Option<T>>) -> (result: Option<Result<T, Error>>)
        ensures
            result == received_of(received),
    {
        received_result(received)
    }
}

/// A connection to a peer. Streams that the peer opens come out of `B`.
#[derive(Debug)]
pub struct Connection<B> {
    pub peer_id: PeerId,
    pub accept_rx: B,
}

impl<B: Clone> Clone for Connection<B> {
    /// Another hold on the same connection.
    fn clone(&self) -> (conn: Connection<B>)
        ensures
            conn.peer_id@ == self.peer_id@,
            cloned::<B>(self.accept_rx, conn.accept_rx),
    {
        Connection { peer_id: self.peer_id.clone(), accept_rx: self.accept_rx.clone() }
    }
}

impl<B> Connection<B> {
    pub fn peer_id(&self) -> (peer_id: &PeerId)
        ensures
            *peer_id == self.peer_id,
    {
        &self.peer_id
    }

    /// What looking for a stream that the peer opened comes to. Nothing at all was received
    /// while the channel is empty, and no stream once its other side is gone.
    pub fn poll_accept_stream<T>(received: Option<Option<T>>) -> (result: Option<Result<T, Error>>)
        ensures
            result == received_of(received),
    {
        received_result(received)
    }

    /// The request for a stream to the peer.
    pub fn open_stream<O>(&self, reply: O) -> (request: OpenRequest<O>)
        ensures
            request.peer_id@ == self.peer_id@,
            request.reply == reply,
    {
        OpenRequest { peer_id: self.peer_id.clone(), reply }
    }

    /// The answer to a request for a stream that could not be sent.
    pub fn unsent<O>(request: OpenRequest<O>) -> (answer: (O, Error))
        ensures
            answer == (request.reply, Error::ChannelClosed),
    {
        (request.reply, Error::ChannelClosed)
    }

    /// What a request for a stream comes to.
    pub fn opened<T>(answer: Option<Result<T, Error>>) -> (result: Result<T, Error>)
        ensures
            result == result_of(true, answer),
    {
        request_result(true, answer)
    }
}

/// The state of a [`Manager`].
#[verifier::ext_equal]
pub struct ManagerView<D, O, A> {
    /// Who waits for a connection to each peer.
    pub conn_dial: Map<Seq<u8>, D>,
    /// Who waits for a stream to each peer.
    pub conn_stream_outbound: Map<Seq<u8>, Seq<O>>,
    /// Where the streams go that each peer opens.
    pub conn_stream_inbound: Map<Seq<u8>, A>,
}

/// Where a stream goes.
pub enum Route<D, O> {
    /// To the connection that there is.
    Accept,
    /// To a new connection, which nobody asked for.
    Incoming,
    /// To the one that asked for it.
    Opened { reply: O },
    /// To a new connection, for the one that asked for it.
    Dialed { reply: D },
    /// Nowhere.
    Unrequested,
}

impl<D, O, A> ManagerView<D, O, A> {
    /// There are queues only for peers that someone asked a stream of.
    pub open spec fn inv(self) -> bool {
        all_waiting(self.conn_stream_outbound)
    }

    /// What the manager is when it is made.
    pub open spec fn initial() -> ManagerView<D, O, A> {
        ManagerView {
            conn_dial: Map::empty(),
            conn_stream_outbound: Map::empty(),
            conn_stream_inbound: Map::empty(),
        }
    }

    /// Where a stream goes. One that the peer opened goes to the connection to the peer.
    /// One that was opened from here goes to the first that asked for a stream, or else
    /// to the one that asked for a connection.
    pub open spec fn route(self, peer: Seq<u8>, origin: StreamOrigin) -> Route<D, O> {
        match origin {
            StreamOrigin::Inbound => {
                if self.conn_stream_inbound.contains_key(peer) {
                    Route::Accept
                } else {
                    Route::Incoming
                }
            },
            StreamOrigin::Outbound => {
                if self.conn_stream_outbound.contains_key(peer) {
                    Route::Opened { reply: self.conn_stream_outbound[peer].first() }
                } else if self.conn_dial.contains_key(peer) {
                    Route::Dialed { reply: self.conn_dial[peer] }
                } else {
                    Route::Unrequested
                }
            },
        }
    }

    /// Whether a stream goes to a new connection.
    pub open spec fn needs_connection(self, peer: Seq<u8>, origin: StreamOrigin) -> bool {
        self.route(peer, origin) is Incoming || self.route(peer, origin) is Dialed
    }

    /// The state once there is a new connection to a peer.
    pub open spec fn with_connection(self, peer: Seq<u8>, accept_tx: A) -> ManagerView<D, O, A> {
        ManagerView { conn_stream_inbound: self.conn_stream_inbound.insert(peer, accept_tx), ..self }
    }

    /// The state once the one that waited for a connection, if any, got an answer.
    pub open spec fn without_dial(self, peer: Seq<u8>) -> ManagerView<D, O, A> {
        ManagerView { conn_dial: self.conn_dial.remove(peer), ..self }
    }

    /// The state once the first that waited for a stream, if any, got one.
    pub open spec fn without_open(self, peer: Seq<u8>) -> ManagerView<D, O, A> {
        ManagerView { conn_stream_outbound: without_first(self.conn_stream_outbound, peer), ..self }
    }

    /// The state once the connection to a peer is gone.
    pub open spec fn disconnected(self, peer: Seq<u8>) -> ManagerView<D, O, A> {
        ManagerView {
            conn_stream_inbound: self.conn_stream_inbound.remove(peer),
            conn_stream_outbound: self.conn_stream_outbound.remove(peer),
            ..self
        }
    }

    /// The state once a stream was handed on. Where that makes a new connection, `accept_tx`
    /// is where the streams go that the peer opens.
    pub open spec fn handled(self, peer: Seq<u8>, origin: StreamOrigin, accept_tx: A) -> ManagerView<
        D,
        O,
        A,
    > {
        match self.route(peer, origin) {
            Route::Accept => self,
            Route::Incoming => self.with_connection(peer, accept_tx),
            Route::Opened { .. } => self.without_open(peer),
            Route::Dialed { .. } => self.without_dial(peer).with_connection(peer, accept_tx),
            Route::Unrequested => self,
        }
    }

    /// The state once someone asked for a connection. An earlier request for one to the
    /// same peer is dropped.
    pub open spec fn with_dial(self, peer: Seq<u8>, reply: D) -> ManagerView<D, O, A> {
        ManagerView { conn_dial: self.conn_dial.insert(peer, reply), ..self }
    }

    /// The state once someone asked for a stream.
    pub open spec fn with_open(self, peer: Seq<u8>, reply: O) -> ManagerView<D, O, A> {
        ManagerView {
            conn_stream_outbound: with_last(self.conn_stream_outbound, peer, reply),
            ..self
        }
    }
}

/// How a peer is dialed for the one that asked for a connection.
pub open spec fn dial_event(peer: Seq<u8>, addrs: Seq<Seq<u8>>) -> ManagerEventView {
    ManagerEventView::Dial(
        DialOptsView {
            peer_id: peer,
            addresses: Some(addrs),
            condition: PeerCondition::NotDialing,
        },
    )
}

/// What is to be done with a stream `S`.
pub enum StreamAction<S, D, O, B> {
    /// It goes to the channel of the connection to its peer.
    Accept { stream: BiStream<S> },
    /// It goes to the channel of a new connection, and the connection to the endpoint.
    Incoming { conn: Connection<B>, stream: BiStream<S> },
    /// It answers a request for a stream.
    Opened { reply: O, stream: BiStream<S> },
    /// It goes to the channel of a new connection, and the connection answers a request.
    Dialed { reply: D, conn: Connection<B>, stream: BiStream<S> },
    /// It is dropped.
    Unrequested { stream: BiStream<S> },
}

/// Brings together those that ask for connections and streams with what the swarm has
/// for them. Requests for connections are answered through `D`, requests for streams
/// through `O`, and the streams that a peer opens are sent over `A`.
#[derive(Debug)]
pub struct Manager<D, O, A> {
    conn_dial: PeerMap<D>,
    conn_stream_outbound: PeerQueues<O>,
    conn_stream_inbound: PeerMap<A>,
}

impl<D, O, A> View for Manager<D, O, A> {
    type V = ManagerView<D, O, A>;

    closed spec fn view(&self) -> ManagerView<D, O, A> {
        ManagerView {
            conn_dial: self.conn_dial@,
            conn_stream_outbound: self.conn_stream_outbound@,
            conn_stream_inbound: self.conn_stream_inbound@,
        }
    }
}

impl<D, O, A> Manager<D, O, A> {
    /// The tables of peers are in order.
    pub closed spec fn well_formed(&self) -> bool {
        &&& self.conn_dial.inv()
        &&& self.conn_stream_outbound.inv()
        &&& self.conn_stream_inbound.inv()
    }

    pub open spec fn inv(&self) -> bool {
        &&& self.well_formed()
        &&& self@.inv()
    }

    /// A manager that nobody has asked for anything.
    pub fn new() -> (manager: Manager<D, O, A>)
        ensures
            manager.inv(),
            manager@ == ManagerView::<D, O, A>::initial(),
    {
        Manager {
            conn_dial: PeerMap::new(),
            conn_stream_outbound: PeerQueues::new(),
            conn_stream_inbound: PeerMap::new(),
        }
    }

    /// Where the streams go that a peer opens.
    pub fn accept_channel(&self, peer_id: &PeerId) -> (accept_tx: Option<&A>)
        requires
            self.inv(),
        ensures
            accept_tx == if self@.conn_stream_inbound.contains_key(peer_id@) {
                Some(&self@.conn_stream_inbound[peer_id@])
            } else {
                None
            },
    {
        self.conn_stream_inbound.get(peer_id)
    }

    /// Makes a connection to a peer out of the two ends of a channel.
    fn create_conn<B>(&mut self, peer_id: PeerId, accept_tx: A, accept_rx: B) -> (conn: Connection<B>)
        requires
            old(self).inv(),
        ensures
            final(self).inv(),
            conn.peer_id@ == peer_id@,
            conn.accept_rx == accept_rx,
            final(self)@ == old(self)@.with_connection(peer_id@, accept_tx),
    {
        let conn = Connection { peer_id: peer_id.clone(), accept_rx };
        self.conn_stream_inbound.insert(peer_id, accept_tx);
        conn
    }

    /// Takes note that a peer made a connection. Returns the connection, which is for the
    /// endpoint. `channel` makes a channel for the streams that the peer opens.
    pub fn handle_connection_incoming<B, F: FnOnce() -> (A, B)>(
        &mut self,
        peer_id: PeerId,
        channel: F,
    ) -> (conn: Connection<B>)
        requires
            old(self).inv(),
            channel.requires(()),
        ensures
            final(self).inv(),
            conn.peer_id@ == peer_id@,
            channel.ensures((), (final(self)@.conn_stream_inbound[peer_id@], conn.accept_rx)),
            final(self)@ == old(self)@.with_connection(
                peer_id@,
                final(self)@.conn_stream_inbound[peer_id@],
            ),
    {
        let (accept_tx, accept_rx) = channel();
        self.create_conn(peer_id, accept_tx, accept_rx)
    }

    /// Takes note that the connection to a peer is gone. Those that wait for a stream to
    /// it will not get one.
    pub fn handle_disconnect(&mut self, peer_id: &PeerId)
        requires
            old(self).inv(),
        ensures
            final(self).inv(),
            final(self)@ == old(self)@.disconnected(peer_id@),
    {
        self.conn_stream_inbound.remove(peer_id);
        self.conn_stream_outbound.remove(peer_id);
    }

    /// Takes note that a peer could not be dialed. Returns the answer for the one that
    /// waits for a connection.
    pub fn handle_dial_failed(&mut self, peer_id: &PeerId) -> (answer: Option<(D, Error)>)
        requires
            old(self).inv(),
        ensures
            final(self).inv(),
            answer == if old(self)@.conn_dial.contains_key(peer_id@) {
                Some((old(self)@.conn_dial[peer_id@], Error::DialFailed))
            } else {
                None
            },
            final(self)@ == old(self)@.without_dial(peer_id@),
    {
        match self.conn_dial.remove(peer_id) {
            Some(reply) => Some((reply, Error::DialFailed)),
            None => None,
        }
    }

    /// Takes note of a stream, and says what is to be done with it. Only if there has to be a
    /// new connection, `channel` makes a channel for the streams that the peer opens.
    pub fn handle_stream<S, B, F: FnOnce() -> (A, B)>(&mut self, stream: BiStream<S>, channel: F) -> (action:
        StreamAction<S, D, O, B>)
        requires
            old(self).inv(),
            old(self)@.needs_connection(stream.peer_id@, stream.origin) ==> channel.requires(()),
        ensures
            final(self).inv(),
            ({
                let peer = stream.peer_id@;
                let accept_tx = final(self)@.conn_stream_inbound[peer];
                &&& final(self)@ == old(self)@.handled(peer, stream.origin, accept_tx)
                &&& match old(self)@.route(peer, stream.origin) {
                    Route::Accept => action == StreamAction::<S, D, O, B>::Accept { stream },
                    Route::Incoming => {
                        &&& action matches StreamAction::Incoming { conn, stream: first }
                        &&& first == stream
                        &&& conn.peer_id@ == peer
                        &&& channel.ensures((), (accept_tx, conn.accept_rx))
                    },
                    Route::Opened { reply } => action == StreamAction::<S, D, O, B>::Opened {
                        reply,
                        stream,
                    },
                    Route::Dialed { reply } => {
                        &&& action matches StreamAction::Dialed { reply: to, conn, stream: first }
                        &&& to == reply
                        &&& first == stream
                        &&& conn.peer_id@ == peer
                        &&& channel.ensures((), (accept_tx, conn.accept_rx))
                    },
                    Route::Unrequested => action == StreamAction::<S, D, O, B>::Unrequested {
                        stream,
                    },
                }
            }),
    {
        let peer_id = stream.peer_id();
        match stream.origin() {
            StreamOrigin::Inbound => {
                if self.conn_stream_inbound.contains(&peer_id) {
                    StreamAction::Accept { stream }
                } else {
                    let (accept_tx, accept_rx) = channel();
                    let conn = self.create_conn(peer_id, accept_tx, accept_rx);
                    StreamAction::Incoming { conn, stream }
                }
            },
            StreamOrigin::Outbound => {
                if let Some(reply) = self.conn_stream_outbound.pop_front(&peer_id) {
                    return StreamAction::Opened { reply, stream };
                }
                assert(self@ =~= old(self)@);
                if let Some(reply) = self.conn_dial.remove(&peer_id) {
                    let (accept_tx, accept_rx) = channel();
                    let conn = self.create_conn(peer_id, accept_tx, accept_rx);
                    StreamAction::Dialed { reply, conn, stream }
                } else {
                    assert(self@ =~= old(self)@);
                    StreamAction::Unrequested { stream }
                }
            },
        }
    }

    /// Takes note that someone asked for a connection, and has the peer dialed.
    pub fn on_dial_request(&mut self, request: DialRequest<D>) -> (event: ManagerEvent)
        requires
            old(self).inv(),
        ensures
            final(self).inv(),
            event@ == dial_event(request.peer_id@, addr_list(request.addrs)),
            final(self)@ == old(self)@.with_dial(request.peer_id@, request.reply),
    {
        self.conn_dial.insert(request.peer_id.clone(), request.reply);
        ManagerEvent::Dial(
            DialOpts {
                peer_id: request.peer_id,
                addresses: Some(request.addrs.to_vec()),
                condition: PeerCondition::NotDialing,
            },
        )
    }

    /// Takes note that someone asked for a stream, and has it opened.
    pub fn on_open_request(&mut self, request: OpenRequest<O>) -> (event: ManagerEvent)
        requires
            old(self).inv(),
        ensures
            final(self).inv(),
            event@ == ManagerEventView::Open(request.peer_id@),
            final(self)@ == old(self)@.with_open(request.peer_id@, request.reply),
    {
        self.conn_stream_outbound.push_back(&request.peer_id, request.reply);
        ManagerEvent::Open(request.peer_id)
    }

    /// Takes up the next request, one for a connection before one for a stream. The two
    /// functions look for a request without waiting for one. A request for a stream is looked
    /// for only if there is none for a connection, so that none is taken and lost.
    pub fn poll<P: FnOnce() -> Option<DialRequest<D>>, Q: FnOnce() -> Option<OpenRequest<O>>>(
        &mut self,
        next_dial: P,
        next_open: Q,
    ) -> (event: Option<ManagerEvent>)
        requires
            old(self).inv(),
            next_dial.requires(()),
            next_dial.ensures((), None::<DialRequest<D>>) ==> next_open.requires(()),
        ensures
            final(self).inv(),
            exists|dial: Option<DialRequest<D>>| #[trigger]
                next_dial.ensures((), dial) && match dial {
                    Some(request) => {
                        &&& event matches Some(e)
                        &&& e@ == dial_event(request.peer_id@, addr_list(request.addrs))
                        &&& final(self)@ == old(self)@.with_dial(request.peer_id@, request.reply)
                    },
                    None => exists|open: Option<OpenRequest<O>>| #[trigger]
                        next_open.ensures((), open) && match open {
                            Some(request) => {
                                &&& event matches Some(e)
                                &&& e@ == ManagerEventView::Open(request.peer_id@)
                                &&& final(self)@ == old(self)@.with_open(
                                    request.peer_id@,
                                    request.reply,
                                )
                            },
                            None => event is None && final(self)@ == old(self)@,
                        },
                },
    {
        if let Some(request) = next_dial() {
            return Some(self.on_dial_request(request));
        }
        if let Some(request) = next_open() {
            return Some(self.on_open_request(request));
        }
        None
    }
}

} // verus!
