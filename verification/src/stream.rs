//! Bidirectional streams.

use vstd::prelude::*;
use vstd::string::*;

use crate::base58::base58;
use crate::peer::{lemma_peer_id_base58_length, PeerId};
use crate::swarm::{ConnectedPoint, ConnectionEstablished};
use crate::text::{decimal, decimal_text};

verus! {

/// The side that opened a stream.
#[derive(Clone, Copy, Debug, PartialEq, Eq, Structural)]
pub enum StreamOrigin {
    /// The local node opened the stream.
    Outbound,
    /// The peer opened the stream.
    Inbound,
}

impl From<ConnectionEstablished> for StreamOrigin {
    fn from(e: ConnectionEstablished) -> (origin: StreamOrigin) {
        match e.endpoint {
            ConnectedPoint::Dialer => StreamOrigin::Outbound,
            ConnectedPoint::Listener => StreamOrigin::Inbound,
        }
    }
}

impl vstd::std_specs::convert::FromSpecImpl<ConnectionEstablished> for StreamOrigin {
    open spec fn obeys_from_spec() -> bool {
        true
    }

    open spec fn from_spec(e: ConnectionEstablished) -> StreamOrigin {
        match e.endpoint {
            ConnectedPoint::Dialer => StreamOrigin::Outbound,
            ConnectedPoint::Listener => StreamOrigin::Inbound,
        }
    }
}

/// A stream to a peer, on the substream `S` of a connection.
#[derive(Debug)]
pub struct BiStream<S> {
    pub peer_id: PeerId,
    pub origin: StreamOrigin,
    pub stream_id: u64,
    pub inner: S,
}

/// What a [`BiStream`] is.
pub struct BiStreamView<S> {
    pub peer_id: Seq<u8>,
    pub origin: StreamOrigin,
    pub stream_id: u64,
    pub inner: S,
}

impl<S> View for BiStream<S> {
    type V = BiStreamView<S>;

    open spec fn view(&self) -> BiStreamView<S> {
        BiStreamView {
            peer_id: self.peer_id@,
            origin: self.origin,
            stream_id: self.stream_id,
            inner: self.inner,
        }
    }
}

impl<S> BiStreamView<S> {
    /// A short text to show the stream by: the side that opened it, the start and the end of
    /// the peer's identity, and the number of the stream.
    pub open spec fn label(self) -> Seq<char> {
        let side = match self.origin {
            StreamOrigin::Inbound => "accept"@,
            StreamOrigin::Outbound => "dial"@,
        };
        let peer = base58(self.peer_id);
        side + ":"@ + peer.take(2) + "…"@ + peer.skip(peer.len() - 3) + ":"@ + decimal(
            self.stream_id as nat,
        )
    }
}

impl<S> BiStream<S> {
    /// The text by which the stream is shown.
    ///
    /// The identity multihash of no bytes at all has too short a text to be cut.
    pub fn to_string(&self) -> (text: String)
        requires
            self.peer_id@ != seq![0u8, 0u8],
        ensures
            text@ == self@.label(),
    {
        let side: &str = match self.origin {
            StreamOrigin::Inbound => "accept",
            StreamOrigin::Outbound => "dial",
        };
        let peer: String = self.peer_id.to_base58();
        proof {
            lemma_peer_id_base58_length(self.peer_id@);
        }
        let length: usize = peer.as_str().unicode_len();
        let head: &str = peer.as_str().substring_char(0, 2);
        let tail: &str = peer.as_str().substring_char(length - 3, length);
        let number: String = decimal_text(self.stream_id);
        side.to_owned().concat(":").concat(head).concat("…").concat(tail).concat(":").concat(
            number.as_str(),
        )
    }

    pub fn stream_id(&self) -> (stream_id: u64)
        ensures
            stream_id == self@.stream_id,
    {
        self.stream_id
    }

    pub fn peer_id(&self) -> (peer_id: PeerId)
        ensures
            peer_id@ == self@.peer_id,
    {
        self.peer_id.clone()
    }

    pub fn origin(&self) -> (origin: &StreamOrigin)
        ensures
            *origin == self@.origin,
    {
        &self.origin
    }

    /// Whether the peer opened the stream.
    pub fn is_accept(&self) -> (accept: bool)
        ensures
            accept == (self@.origin is Inbound),
    {
        matches!(&self.origin, StreamOrigin::Inbound)
    }

    /// Whether the local node opened the stream.
    pub fn is_dial(&self) -> (dial: bool)
        ensures
            dial == (self@.origin is Outbound),
    {
        matches!(&self.origin, StreamOrigin::Outbound)
    }
}

} // verus!
