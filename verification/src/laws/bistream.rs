//! What holds of [`crate::behaviour::bistream`], whatever happens.

use vstd::prelude::*;

use crate::behaviour::bistream::{
    chosen_name, dial_error, refused, ActionView, BehaviourView, Delivery, EventView,
    HandlerEventView, HandlerView, InEventView, OpenInfo, OutEvent, OutEventView,
};
use crate::peer::PeerId;
use crate::peer_queues::waiting;
use crate::stream::{BiStream, BiStreamView, StreamOrigin};
use crate::swarm::{
    ConnectionClosed, ConnectionEstablished, ConnectionEvent, ConnectionHandlerEventView,
    DialFailure, DialOptsView, FromSwarm, NetworkBehaviourActionView, PeerCondition,
    SubstreamProtocolView,
};

verus! {

/// Something that happens to a behaviour.
pub enum Occurrence<S, R> {
    /// Someone asks for a stream that is to be opened from here.
    Open { peer: Seq<u8>, reply: R },
    /// Someone asks for a stream that the peer opens.
    Accept { peer: Seq<u8>, reply: R },
    /// A handler tells of a stream.
    Heard { event: OutEvent<S> },
    /// The swarm tells something.
    Told { event: FromSwarm },
    /// The swarm collects an event.
    Collect,
}

/// What the one that asked for a stream gets.
pub enum Answer<S> {
    Stream(BiStreamView<S>),
    Refused(Seq<char>),
}

impl<S, R> Occurrence<S, R> {
    /// Whether it is about a peer.
    pub open spec fn concerns(self, peer: Seq<u8>) -> bool {
        match self {
            Occurrence::Open { peer: other, .. } => other == peer,
            Occurrence::Accept { peer: other, .. } => other == peer,
            Occurrence::Heard { event } => match event {
                OutEvent::OutboundStream(stream) => stream.peer_id@ == peer,
                OutEvent::InboundStream(stream) => stream.peer_id@ == peer,
            },
            Occurrence::Told { event } => match event {
                FromSwarm::ConnectionEstablished(conn) => conn.peer_id@ == peer,
                FromSwarm::DialFailure(failure) => match failure.peer_id {
                    Some(peer_id) => peer_id@ == peer,
                    None => false,
                },
                _ => false,
            },
            Occurrence::Collect => false,
        }
    }

    /// Whether it is a connection to a peer.
    pub open spec fn connects(self, peer: Seq<u8>) -> bool {
        match self {
            Occurrence::Told { event: FromSwarm::ConnectionEstablished(conn) } => conn.peer_id@
                == peer,
            _ => false,
        }
    }

    /// Who asks for a stream that is to be opened to a peer.
    pub open spec fn open_asked(self, peer: Seq<u8>) -> Seq<R> {
        match self {
            Occurrence::Open { peer: other, reply } => if other == peer {
                seq![reply]
            } else {
                Seq::empty()
            },
            _ => Seq::empty(),
        }
    }

    /// Who asks for a stream that a peer opens.
    pub open spec fn accept_asked(self, peer: Seq<u8>) -> Seq<R> {
        match self {
            Occurrence::Accept { peer: other, reply } => if other == peer {
                seq![reply]
            } else {
                Seq::empty()
            },
            _ => Seq::empty(),
        }
    }
}

/// Those that ask for streams to be opened to a peer, in the order in which they ask.
pub open spec fn open_asked_all<S, R>(
    occurrences: Seq<Occurrence<S, R>>,
    peer: Seq<u8>,
) -> Seq<R>
    decreases occurrences.len(),
{
    if occurrences.len() == 0 {
        Seq::empty()
    } else {
        open_asked_all(occurrences.drop_last(), peer) + occurrences.last().open_asked(peer)
    }
}

/// Those that ask for streams that a peer opens, in the order in which they ask.
pub open spec fn accept_asked_all<S, R>(
    occurrences: Seq<Occurrence<S, R>>,
    peer: Seq<u8>,
) -> Seq<R>
    decreases occurrences.len(),
{
    if occurrences.len() == 0 {
        Seq::empty()
    } else {
        accept_asked_all(occurrences.drop_last(), peer) + occurrences.last().accept_asked(peer)
    }
}

/// Those that get answers.
pub open spec fn answered<S, R>(answers: Seq<(R, Answer<S>)>) -> Seq<R> {
    answers.map_values(|answer: (R, Answer<S>)| answer.0)
}

impl<S, R> BehaviourView<S, R> {
    /// The state once something happened.
    pub open spec fn after(self, occurrence: Occurrence<S, R>) -> BehaviourView<S, R> {
        match occurrence {
            Occurrence::Open { peer, reply } => self.open(peer, reply),
            Occurrence::Accept { peer, reply } => self.accept(peer, reply),
            Occurrence::Heard { event } => self.heard(event@),
            Occurrence::Told { event } => self.told(event),
            Occurrence::Collect => self.collect().1,
        }
    }

    /// The state once several things happened, one after the other.
    pub open spec fn after_all(self, occurrences: Seq<Occurrence<S, R>>) -> BehaviourView<S, R>
        decreases occurrences.len(),
    {
        if occurrences.len() == 0 {
            self
        } else {
            self.after_all(occurrences.drop_last()).after(occurrences.last())
        }
    }

    /// What the swarm collects while several things happen.
    pub open spec fn handed_out(self, occurrences: Seq<Occurrence<S, R>>) -> Seq<ActionView<S>>
        decreases occurrences.len(),
    {
        if occurrences.len() == 0 {
            Seq::empty()
        } else {
            let earlier = self.handed_out(occurrences.drop_last());
            match (occurrences.last(), self.after_all(occurrences.drop_last()).collect().0) {
                (Occurrence::Collect, Some(action)) => earlier.push(action),
                _ => earlier,
            }
        }
    }

    /// The answers that requests for streams to a peer get when something happens.
    pub open spec fn open_answers(self, occurrence: Occurrence<S, R>, peer: Seq<u8>) -> Seq<
        (R, Answer<S>),
    > {
        match occurrence {
            Occurrence::Heard { event } => match (event, self.delivery(event)) {
                (OutEvent::OutboundStream(_), Delivery::Reply { reply, stream }) => {
                    if stream.peer_id@ == peer {
                        seq![(reply, Answer::Stream(stream@))]
                    } else {
                        Seq::empty()
                    }
                },
                _ => Seq::empty(),
            },
            Occurrence::Told { event } => {
                if occurrence.concerns(peer) {
                    self.refusals(event).map_values(
                        |refusal: (R, Seq<char>)| (refusal.0, Answer::Refused(refusal.1)),
                    )
                } else {
                    Seq::empty()
                }
            },
            _ => Seq::empty(),
        }
    }

    /// The answers that requests for streams to a peer get while several things happen.
    pub open spec fn open_answers_all(
        self,
        occurrences: Seq<Occurrence<S, R>>,
        peer: Seq<u8>,
    ) -> Seq<(R, Answer<S>)>
        decreases occurrences.len(),
    {
        if occurrences.len() == 0 {
            Seq::empty()
        } else {
            let fewer = occurrences.drop_last();
            self.open_answers_all(fewer, peer) + self.after_all(fewer).open_answers(
                occurrences.last(),
                peer,
            )
        }
    }

    /// The answers that requests for streams that a peer opens get when something happens.
    pub open spec fn accept_answers(self, occurrence: Occurrence<S, R>, peer: Seq<u8>) -> Seq<
        (R, Answer<S>),
    > {
        match occurrence {
            Occurrence::Heard { event } => match (event, self.delivery(event)) {
                (OutEvent::InboundStream(_), Delivery::Reply { reply, stream }) => {
                    if stream.peer_id@ == peer {
                        seq![(reply, Answer::Stream(stream@))]
                    } else {
                        Seq::empty()
                    }
                },
                _ => Seq::empty(),
            },
            _ => Seq::empty(),
        }
    }

    /// The answers that requests for streams that a peer opens get while several things
    /// happen.
    pub open spec fn accept_answers_all(
        self,
        occurrences: Seq<Occurrence<S, R>>,
        peer: Seq<u8>,
    ) -> Seq<(R, Answer<S>)>
        decreases occurrences.len(),
    {
        if occurrences.len() == 0 {
            Seq::empty()
        } else {
            let fewer = occurrences.drop_last();
            self.accept_answers_all(fewer, peer) + self.after_all(fewer).accept_answers(
                occurrences.last(),
                peer,
            )
        }
    }

    /// Whether what is known of a peer, and who waits for it, are the same in two states.
    pub open spec fn untouched(self, after: BehaviourView<S, R>, peer: Seq<u8>) -> bool {
        &&& after.conns.contains_key(peer) == self.conns.contains_key(peer)
        &&& self.conns.contains_key(peer) ==> after.conns[peer] == self.conns[peer]
        &&& waiting(after.pending_open, peer) == waiting(self.pending_open, peer)
        &&& waiting(after.pending_accept, peer) == waiting(self.pending_accept, peer)
    }
}

/// Whatever happens to a behaviour, there are queues only for peers that someone asked a
/// stream of.
pub proof fn law_invariant<S, R>(
    state: BehaviourView<S, R>,
    occurrences: Seq<Occurrence<S, R>>,
)
    requires
        state.inv(),
    ensures
        BehaviourView::<S, R>::initial(state.protocol_name).inv(),
        state.after_all(occurrences).inv(),
    decreases occurrences.len(),
{
    if occurrences.len() > 0 {
        law_invariant(state, occurrences.drop_last());
    }
}

/// Whatever happens to other peers leaves the connection to a peer, and those that wait for
/// it, alone.
pub proof fn law_other_peers_are_untouched<S, R>(
    state: BehaviourView<S, R>,
    occurrences: Seq<Occurrence<S, R>>,
    other: Seq<u8>,
)
    requires
        forall|i: int|
            0 <= i < occurrences.len() ==> !(#[trigger] occurrences[i]).concerns(other),
    ensures
        state.untouched(state.after_all(occurrences), other),
    decreases occurrences.len(),
{
    if occurrences.len() > 0 {
        let fewer = occurrences.drop_last();
        assert forall|i: int| 0 <= i < fewer.len() implies !(#[trigger] fewer[i]).concerns(
            other,
        ) by {
            assert(fewer[i] == occurrences[i]);
        }
        law_other_peers_are_untouched(state, fewer, other);
        assert(!occurrences[occurrences.len() - 1].concerns(other));
    }
}

/// What one occurrence does to those that wait for streams to a peer.
proof fn lemma_open_queue_step<S, R>(
    state: BehaviourView<S, R>,
    occurrence: Occurrence<S, R>,
    peer: Seq<u8>,
)
    requires
        state.inv(),
    ensures
        waiting(state.pending_open, peer) + occurrence.open_asked(peer) == answered(
            state.open_answers(occurrence, peer),
        ) + waiting(state.after(occurrence).pending_open, peer),
{
    let queue = waiting(state.pending_open, peer);
    let answers = answered(state.open_answers(occurrence, peer));
    let left = waiting(state.after(occurrence).pending_open, peer);
    if queue.len() > 0 {
        assert(queue =~= seq![queue.first()] + queue.drop_first());
    }
    assert(queue + occurrence.open_asked(peer) =~= answers + left);
}

/// Those that ask for streams to a peer are answered in the order in which they ask, each
/// once, with a stream or with an error, whatever else happens meanwhile. Those without an
/// answer still wait: the next stream to the peer goes to the first of them, and to nobody
/// if there is none.
pub proof fn law_open_requests_are_answered_in_order<S, R>(
    state: BehaviourView<S, R>,
    occurrences: Seq<Occurrence<S, R>>,
    stream: BiStream<S>,
)
    requires
        state.inv(),
    ensures
        ({
            let peer = stream.peer_id@;
            let after = state.after_all(occurrences);
            let asked = waiting(state.pending_open, peer) + open_asked_all(occurrences, peer);
            let done = answered(state.open_answers_all(occurrences, peer));
            &&& asked == done + waiting(after.pending_open, peer)
            &&& after.delivery(OutEvent::OutboundStream(stream)) == if done.len() < asked.len() {
                Delivery::Reply { reply: asked[done.len() as int], stream }
            } else {
                Delivery::<S, R>::Unrequested(stream)
            }
        }),
    decreases occurrences.len(),
{
    let peer = stream.peer_id@;
    let queue = waiting(state.pending_open, peer);
    let after = state.after_all(occurrences);
    let asked = queue + open_asked_all(occurrences, peer);
    let done = answered(state.open_answers_all(occurrences, peer));
    law_invariant(state, occurrences);
    if occurrences.len() > 0 {
        let fewer = occurrences.drop_last();
        let last = occurrences.last();
        let before = state.after_all(fewer);
        let earlier = answered(state.open_answers_all(fewer, peer));
        law_invariant(state, fewer);
        law_open_requests_are_answered_in_order(state, fewer, stream);
        lemma_open_queue_step(before, last, peer);
        assert(done =~= earlier + answered(before.open_answers(last, peer)));
        assert(asked =~= (queue + open_asked_all(fewer, peer)) + last.open_asked(peer));
        assert(asked =~= earlier + (waiting(before.pending_open, peer) + last.open_asked(peer)));
        assert(asked =~= done + waiting(after.pending_open, peer));
    } else {
        assert(asked =~= queue);
        assert(done + queue =~= queue);
    }
}

/// What one occurrence does to those that wait for streams that a peer opens.
proof fn lemma_accept_queue_step<S, R>(
    state: BehaviourView<S, R>,
    occurrence: Occurrence<S, R>,
    peer: Seq<u8>,
)
    requires
        state.inv(),
    ensures
        waiting(state.pending_accept, peer) + occurrence.accept_asked(peer) == answered(
            state.accept_answers(occurrence, peer),
        ) + waiting(state.after(occurrence).pending_accept, peer),
{
    let queue = waiting(state.pending_accept, peer);
    let answers = answered(state.accept_answers(occurrence, peer));
    let left = waiting(state.after(occurrence).pending_accept, peer);
    if queue.len() > 0 {
        assert(queue =~= seq![queue.first()] + queue.drop_first());
    }
    assert(queue + occurrence.accept_asked(peer) =~= answers + left);
}

/// Those that ask for streams that a peer opens get them in the order in which they ask, each
/// one, whatever else happens meanwhile. Those without a stream still wait: the next stream
/// that the peer opens goes to the first of them and is not reported, and is reported if
/// there is none.
pub proof fn law_accept_requests_are_answered_in_order<S, R>(
    state: BehaviourView<S, R>,
    occurrences: Seq<Occurrence<S, R>>,
    stream: BiStream<S>,
)
    requires
        state.inv(),
    ensures
        ({
            let peer = stream.peer_id@;
            let before = state.after_all(occurrences);
            let after = before.heard(OutEventView::InboundStream(stream@));
            let asked = waiting(state.pending_accept, peer) + accept_asked_all(occurrences, peer);
            let done = answered(state.accept_answers_all(occurrences, peer));
            &&& asked == done + waiting(before.pending_accept, peer)
            &&& if done.len() < asked.len() {
                &&& before.delivery(OutEvent::InboundStream(stream)) == Delivery::<S, R>::Reply {
                    reply: asked[done.len() as int],
                    stream,
                }
                &&& after.events == before.events
            } else {
                &&& before.delivery(OutEvent::InboundStream(stream)) == Delivery::<S, R>::Reported
                &&& after.events == before.events.push(
                    NetworkBehaviourActionView::GenerateEvent(
                        EventView::IncomingStream(stream@),
                    ),
                )
            }
        }),
    decreases occurrences.len(),
{
    let peer = stream.peer_id@;
    let queue = waiting(state.pending_accept, peer);
    let after = state.after_all(occurrences);
    let asked = queue + accept_asked_all(occurrences, peer);
    let done = answered(state.accept_answers_all(occurrences, peer));
    law_invariant(state, occurrences);
    if occurrences.len() > 0 {
        let fewer = occurrences.drop_last();
        let last = occurrences.last();
        let before = state.after_all(fewer);
        let earlier = answered(state.accept_answers_all(fewer, peer));
        law_invariant(state, fewer);
        law_accept_requests_are_answered_in_order(state, fewer, stream);
        lemma_accept_queue_step(before, last, peer);
        assert(done =~= earlier + answered(before.accept_answers(last, peer)));
        assert(asked =~= (queue + accept_asked_all(fewer, peer)) + last.accept_asked(peer));
        assert(asked =~= earlier + (waiting(before.pending_accept, peer) + last.accept_asked(
            peer,
        )));
        assert(asked =~= done + waiting(after.pending_accept, peer));
    } else {
        assert(asked =~= queue);
        assert(done + queue =~= queue);
    }
}

/// If a peer could not be dialed, everyone that asked for a stream to it and has no answer yet
/// hears so, in the order of the requests, whatever happened before. Then nobody waits for a
/// stream to the peer: another failure refuses nobody. Requests for streams to other peers,
/// and for streams that peers open, stay.
pub proof fn law_failed_dial_refuses_everyone<S, R>(
    state: BehaviourView<S, R>,
    occurrences: Seq<Occurrence<S, R>>,
    peer_id: PeerId,
    failure: DialFailure,
    stream: BiStream<S>,
    other: Seq<u8>,
)
    requires
        state.inv(),
        failure.peer_id == Some(peer_id),
        stream.peer_id@ == peer_id@,
        other != peer_id@,
    ensures
        ({
            let peer = peer_id@;
            let before = state.after_all(occurrences);
            let after = before.told(FromSwarm::DialFailure(failure));
            let asked = waiting(state.pending_open, peer) + open_asked_all(occurrences, peer);
            let done = answered(state.open_answers_all(occurrences, peer));
            &&& before.refusals(FromSwarm::DialFailure(failure)) == refused(
                asked.skip(done.len() as int),
                dial_error(failure.error@),
            )
            &&& waiting(after.pending_open, peer).len() == 0
            &&& after.refusals(FromSwarm::DialFailure(failure)).len() == 0
            &&& after.delivery(OutEvent::OutboundStream(stream)) == Delivery::<
                S,
                R,
            >::Unrequested(stream)
            &&& waiting(after.pending_open, other) == waiting(before.pending_open, other)
            &&& after.pending_accept == before.pending_accept
            &&& after.events == before.events
        }),
{
    let peer = peer_id@;
    let before = state.after_all(occurrences);
    let asked = waiting(state.pending_open, peer) + open_asked_all(occurrences, peer);
    let done = answered(state.open_answers_all(occurrences, peer));
    law_open_requests_are_answered_in_order(state, occurrences, stream);
    assert(asked.skip(done.len() as int) =~= waiting(before.pending_open, peer));
}

/// The end of a connection, or a failure to dial nobody in particular, refuses nobody and
/// changes nothing.
pub proof fn law_other_events_are_ignored<S, R>(
    state: BehaviourView<S, R>,
    closed: ConnectionClosed,
    failure: DialFailure,
)
    requires
        failure.peer_id is None,
    ensures
        state.told(FromSwarm::ConnectionClosed(closed)) == state,
        state.refusals(FromSwarm::ConnectionClosed(closed)).len() == 0,
        state.told(FromSwarm::DialFailure(failure)) == state,
        state.refusals(FromSwarm::DialFailure(failure)).len() == 0,
        state.told(FromSwarm::Other) == state,
        state.refusals(FromSwarm::Other).len() == 0,
{
}

/// Once a connection came about, its handler is told the peer. Whatever happens until the
/// next connection to the peer, requests for streams go to that handler. Before the first
/// connection they have the peer dialed.
pub proof fn law_requests_go_to_the_last_connection<S, R>(
    state: BehaviourView<S, R>,
    conn: ConnectionEstablished,
    occurrences: Seq<Occurrence<S, R>>,
    reply: R,
)
    requires
        forall|i: int|
            0 <= i < occurrences.len() ==> !(#[trigger] occurrences[i]).connects(conn.peer_id@),
    ensures
        ({
            let peer = conn.peer_id@;
            let connected = state.told(FromSwarm::ConnectionEstablished(conn));
            let later = connected.after_all(occurrences);
            &&& connected.events == state.events.push(
                NetworkBehaviourActionView::NotifyHandler {
                    peer_id: peer,
                    connection_id: conn.connection_id,
                    event: InEventView::ConnectionEstablished { peer_id: peer },
                },
            )
            &&& connected.pending_open == state.pending_open
            &&& later.conns.contains_key(peer)
            &&& later.conns[peer] == conn.connection_id
            &&& later.open(peer, reply).events == later.events.push(
                NetworkBehaviourActionView::NotifyHandler {
                    peer_id: peer,
                    connection_id: conn.connection_id,
                    event: InEventView::OpenOutbound,
                },
            )
            &&& !state.conns.contains_key(peer) ==> state.open(peer, reply).events
                == state.events.push(
                NetworkBehaviourActionView::Dial {
                    opts: DialOptsView {
                        peer_id: peer,
                        addresses: None,
                        condition: PeerCondition::Always,
                    },
                    handler: HandlerView::initial(chosen_name(state.protocol_name)),
                },
            )
        }),
    decreases occurrences.len(),
{
    if occurrences.len() > 0 {
        let fewer = occurrences.drop_last();
        assert forall|i: int| 0 <= i < fewer.len() implies !(#[trigger] fewer[i]).connects(
            conn.peer_id@,
        ) by {
            assert(fewer[i] == occurrences[i]);
        }
        law_requests_go_to_the_last_connection(state, conn, fewer, reply);
        assert(!occurrences[occurrences.len() - 1].connects(conn.peer_id@));
    }
}

/// What waits for the swarm is collected first, in the order in which it came, and nothing of
/// it is lost, whatever happens meanwhile.
pub proof fn law_events_are_collected_in_order<S, R>(
    state: BehaviourView<S, R>,
    occurrences: Seq<Occurrence<S, R>>,
)
    ensures
        state.events.is_prefix_of(
            state.handed_out(occurrences) + state.after_all(occurrences).events,
        ),
    decreases occurrences.len(),
{
    let all = state.handed_out(occurrences) + state.after_all(occurrences).events;
    if occurrences.len() > 0 {
        let fewer = occurrences.drop_last();
        let before = state.after_all(fewer);
        let earlier = state.handed_out(fewer) + before.events;
        law_events_are_collected_in_order(state, fewer);
        assert(earlier.is_prefix_of(all)) by {
            assert(all.take(earlier.len() as int) =~= earlier);
        }
        assert(all.take(state.events.len() as int) =~= state.events);
    } else {
        assert(all =~= state.events);
    }
}

/// Something that happens to a handler.
pub enum HandlerOccurrence<S> {
    /// The behaviour tells something.
    Told { event: InEventView },
    /// The number of one more inbound stream is given out.
    Listened,
    /// Something happens on the connection.
    Happened { event: ConnectionEvent<S, OpenInfo> },
    /// An event is collected.
    Collect,
}

/// How often the behaviour asks for a stream.
pub open spec fn open_count<S>(occurrences: Seq<HandlerOccurrence<S>>) -> nat
    decreases occurrences.len(),
{
    if occurrences.len() == 0 {
        0
    } else {
        open_count(occurrences.drop_last()) + match occurrences.last() {
            HandlerOccurrence::Told { event: InEventView::OpenOutbound } => 1nat,
            _ => 0nat,
        }
    }
}

/// How often the number of an inbound stream is given out.
pub open spec fn listen_count<S>(occurrences: Seq<HandlerOccurrence<S>>) -> nat
    decreases occurrences.len(),
{
    if occurrences.len() == 0 {
        0
    } else {
        listen_count(occurrences.drop_last()) + match occurrences.last() {
            HandlerOccurrence::Listened => 1nat,
            _ => 0nat,
        }
    }
}

/// The substreams that a handler asks for among other things.
pub open spec fn substreams<S>(events: Seq<HandlerEventView<S>>) -> Seq<
    SubstreamProtocolView<OpenInfo>,
>
    decreases events.len(),
{
    if events.len() == 0 {
        Seq::empty()
    } else {
        let earlier = substreams(events.drop_last());
        match events.last() {
            ConnectionHandlerEventView::OutboundSubstreamRequest { protocol } => earlier.push(
                protocol,
            ),
            ConnectionHandlerEventView::Custom(_) => earlier,
        }
    }
}

impl<S> HandlerView<S> {
    /// The state once something happened.
    pub open spec fn after(self, occurrence: HandlerOccurrence<S>) -> HandlerView<S> {
        match occurrence {
            HandlerOccurrence::Told { event } => self.asked(event),
            HandlerOccurrence::Listened => self.listened(),
            HandlerOccurrence::Happened { event } => self.happened(event),
            HandlerOccurrence::Collect => self.collect().1,
        }
    }

    /// The state once several things happened, one after the other.
    pub open spec fn after_all(self, occurrences: Seq<HandlerOccurrence<S>>) -> HandlerView<S>
        decreases occurrences.len(),
    {
        if occurrences.len() == 0 {
            self
        } else {
            self.after_all(occurrences.drop_last()).after(occurrences.last())
        }
    }

    /// What is collected while several things happen.
    pub open spec fn handed_out(self, occurrences: Seq<HandlerOccurrence<S>>) -> Seq<
        HandlerEventView<S>,
    >
        decreases occurrences.len(),
    {
        if occurrences.len() == 0 {
            Seq::empty()
        } else {
            let earlier = self.handed_out(occurrences.drop_last());
            match (occurrences.last(), self.after_all(occurrences.drop_last()).collect().0) {
                (HandlerOccurrence::Collect, Some(event)) => earlier.push(event),
                _ => earlier,
            }
        }
    }

    /// What the handler asks for because of something that happens: a substream for a stream
    /// that the behaviour asks for, and to hand on the stream that a substream becomes.
    pub open spec fn caused(self, occurrence: HandlerOccurrence<S>) -> Seq<HandlerEventView<S>> {
        match occurrence {
            HandlerOccurrence::Told { event: InEventView::OpenOutbound } => seq![
                ConnectionHandlerEventView::OutboundSubstreamRequest {
                    protocol: self.protocol((self.outbound_stream_id + 1) as u64),
                },
            ],
            HandlerOccurrence::Happened {
                event: ConnectionEvent::FullyNegotiatedInbound { protocol, info },
            } => seq![
                ConnectionHandlerEventView::Custom(
                    OutEventView::InboundStream(self.stream(protocol, StreamOrigin::Inbound, info)),
                ),
            ],
            HandlerOccurrence::Happened {
                event: ConnectionEvent::FullyNegotiatedOutbound { protocol, info },
            } => seq![
                ConnectionHandlerEventView::Custom(
                    OutEventView::OutboundStream(
                        self.stream(protocol, StreamOrigin::Outbound, info),
                    ),
                ),
            ],
            _ => Seq::empty(),
        }
    }

    /// What the handler asks for because of several things that happen.
    pub open spec fn caused_all(self, occurrences: Seq<HandlerOccurrence<S>>) -> Seq<
        HandlerEventView<S>,
    >
        decreases occurrences.len(),
    {
        if occurrences.len() == 0 {
            Seq::empty()
        } else {
            let fewer = occurrences.drop_last();
            self.caused_all(fewer) + self.after_all(fewer).caused(occurrences.last())
        }
    }
}

/// A handler asks for one substream for each stream that the behaviour asks for, and hands on
/// each stream that is negotiated, once, in the order in which that happens.
pub proof fn law_handler_loses_nothing<S>(
    handler: HandlerView<S>,
    occurrences: Seq<HandlerOccurrence<S>>,
)
    ensures
        handler.handed_out(occurrences) + handler.after_all(occurrences).events == handler.events
            + handler.caused_all(occurrences),
    decreases occurrences.len(),
{
    let all = handler.handed_out(occurrences) + handler.after_all(occurrences).events;
    let expected = handler.events + handler.caused_all(occurrences);
    if occurrences.len() > 0 {
        let fewer = occurrences.drop_last();
        let before = handler.after_all(fewer);
        let caused = before.caused(occurrences.last());
        law_handler_loses_nothing(handler, fewer);
        assert(all =~= (handler.handed_out(fewer) + before.events) + caused);
        assert(expected =~= (handler.events + handler.caused_all(fewer)) + caused);
    }
    assert(all =~= expected);
}

/// The streams that are asked for on a connection are numbered 1, 2, 3 and so on: whatever
/// else happens on it, the handler asks for one substream for each of them, in that order.
pub proof fn law_outbound_streams_are_numbered<S>(
    protocol_name: Seq<char>,
    occurrences: Seq<HandlerOccurrence<S>>,
)
    requires
        open_count(occurrences) <= u64::MAX,
    ensures
        ({
            let handler = HandlerView::<S>::initial(protocol_name);
            let after = handler.after_all(occurrences);
            let all = handler.handed_out(occurrences) + after.events;
            &&& after.outbound_stream_id == open_count(occurrences)
            &&& after.protocol_name == protocol_name
            &&& substreams(all) == Seq::new(
                open_count(occurrences),
                |i: int|
                    SubstreamProtocolView {
                        protocol_name,
                        info: OpenInfo { stream_id: (i + 1) as u64 },
                    },
            )
        }),
    decreases occurrences.len(),
{
    let handler = HandlerView::<S>::initial(protocol_name);
    let all = handler.handed_out(occurrences) + handler.after_all(occurrences).events;
    if occurrences.len() > 0 {
        let fewer = occurrences.drop_last();
        let before = handler.after_all(fewer);
        let earlier = handler.handed_out(fewer) + before.events;
        law_outbound_streams_are_numbered(protocol_name, fewer);
        if all.len() > earlier.len() {
            assert(all.drop_last() =~= earlier);
        } else {
            assert(all =~= earlier);
        }
        assert(substreams(all) =~= Seq::new(
            open_count(occurrences),
            |i: int|
                SubstreamProtocolView {
                    protocol_name,
                    info: OpenInfo { stream_id: (i + 1) as u64 },
                },
        ));
    } else {
        assert(all =~= Seq::empty());
    }
}

/// The streams that the peer opens on a connection are numbered 0, 1, 2 and so on, whatever
/// else happens on it, and from 0 again once all numbers were given out.
pub proof fn law_inbound_streams_are_numbered<S>(
    protocol_name: Seq<char>,
    occurrences: Seq<HandlerOccurrence<S>>,
)
    ensures
        ({
            let after = HandlerView::<S>::initial(protocol_name).after_all(occurrences);
            &&& after.inbound_stream_id as nat == listen_count(occurrences) % 0x1_0000_0000_0000_0000
            &&& after.protocol_name == protocol_name
        }),
    decreases occurrences.len(),
{
    if occurrences.len() > 0 {
        law_inbound_streams_are_numbered(protocol_name, occurrences.drop_last());
    }
}

/// A request for a stream on a connection is answered with the stream: it goes to the
/// handler, from there into the request for a substream, and the negotiated substream comes
/// back as a stream to the peer that the handler was told, under the number that the handler
/// gave it.
pub proof fn law_requested_stream_is_delivered<S, R>(
    state: BehaviourView<S, R>,
    stream: BiStream<S>,
    reply: R,
    handler: HandlerView<S>,
)
    requires
        state.inv(),
        state.conns.contains_key(stream.peer_id@),
        waiting(state.pending_open, stream.peer_id@).len() == 0,
        handler.outbound_stream_id < u64::MAX,
        stream.origin == StreamOrigin::Outbound,
        stream.stream_id == handler.outbound_stream_id + 1,
    ensures
        ({
            let peer = stream.peer_id@;
            let opened = state.open(peer, reply);
            let told = handler.asked(InEventView::ConnectionEstablished { peer_id: peer });
            let waits = told.asked(InEventView::OpenOutbound);
            let request = waits.events.last();
            let negotiated = ConnectionEvent::FullyNegotiatedOutbound {
                protocol: stream.inner,
                info: request->protocol.info,
            };
            &&& opened.events.last() == NetworkBehaviourActionView::<
                EventView<S>,
                HandlerView<S>,
                InEventView,
            >::NotifyHandler {
                peer_id: peer,
                connection_id: state.conns[peer],
                event: InEventView::OpenOutbound,
            }
            &&& request is OutboundSubstreamRequest
            &&& request->protocol.protocol_name == handler.protocol_name
            &&& waits.can_happen(negotiated)
            &&& waits.happened(negotiated).events == waits.events.push(
                ConnectionHandlerEventView::Custom(OutEventView::OutboundStream(stream@)),
            )
            &&& opened.delivery(OutEvent::OutboundStream(stream)) == Delivery::<S, R>::Reply {
                reply,
                stream,
            }
            &&& waiting(
                opened.heard(OutEventView::OutboundStream(stream@)).pending_open,
                peer,
            ).len() == 0
        }),
{
}

} // verus!
