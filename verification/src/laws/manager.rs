//! What holds of [`crate::manager`], whatever happens.

use vstd::prelude::*;

use crate::manager::{ManagerView, Route};
use crate::peer_queues::waiting;
use crate::stream::StreamOrigin;

verus! {

/// Something that happens to a manager.
pub enum Occurrence<D, O, A> {
    /// A peer makes a connection, and `accept_tx` is where the streams go that it opens.
    Incoming { peer: Seq<u8>, accept_tx: A },
    /// The connection to a peer is gone.
    Disconnected { peer: Seq<u8> },
    /// A peer could not be dialed.
    DialFailed { peer: Seq<u8> },
    /// A stream comes. Where that makes a new connection, `accept_tx` is where the streams go
    /// that the peer opens.
    Stream { peer: Seq<u8>, origin: StreamOrigin, accept_tx: A },
    /// Someone asks for a connection.
    Dial { peer: Seq<u8>, dialer: D },
    /// Someone asks for a stream.
    Open { peer: Seq<u8>, opener: O },
}

/// What becomes of a request for a stream.
pub enum OpenOutcome {
    /// It is answered with a stream.
    Opened,
    /// It is dropped, as the connection is gone.
    Dropped,
}

/// What becomes of a request for a connection.
pub enum DialOutcome {
    /// It is answered with a connection.
    Connected,
    /// It is answered with an error.
    Failed,
    /// It is dropped, as there is a later one.
    Replaced,
}

impl<D, O, A> Occurrence<D, O, A> {
    /// The peer that it is about.
    pub open spec fn peer(self) -> Seq<u8> {
        match self {
            Occurrence::Incoming { peer, .. } => peer,
            Occurrence::Disconnected { peer } => peer,
            Occurrence::DialFailed { peer } => peer,
            Occurrence::Stream { peer, .. } => peer,
            Occurrence::Dial { peer, .. } => peer,
            Occurrence::Open { peer, .. } => peer,
        }
    }

    /// Who asks for a stream to a peer.
    pub open spec fn open_asked(self, peer: Seq<u8>) -> Seq<O> {
        match self {
            Occurrence::Open { peer: other, opener } => if other == peer {
                seq![opener]
            } else {
                Seq::empty()
            },
            _ => Seq::empty(),
        }
    }

    /// Who asks for a connection to a peer.
    pub open spec fn dial_asked(self, peer: Seq<u8>) -> Seq<D> {
        match self {
            Occurrence::Dial { peer: other, dialer } => if other == peer {
                seq![dialer]
            } else {
                Seq::empty()
            },
            _ => Seq::empty(),
        }
    }
}

/// Those that ask for streams to a peer, in the order in which they ask.
pub open spec fn open_asked_all<D, O, A>(
    occurrences: Seq<Occurrence<D, O, A>>,
    peer: Seq<u8>,
) -> Seq<O>
    decreases occurrences.len(),
{
    if occurrences.len() == 0 {
        Seq::empty()
    } else {
        open_asked_all(occurrences.drop_last(), peer) + occurrences.last().open_asked(peer)
    }
}

/// Those that ask for connections to a peer, in the order in which they ask.
pub open spec fn dial_asked_all<D, O, A>(
    occurrences: Seq<Occurrence<D, O, A>>,
    peer: Seq<u8>,
) -> Seq<D>
    decreases occurrences.len(),
{
    if occurrences.len() == 0 {
        Seq::empty()
    } else {
        dial_asked_all(occurrences.drop_last(), peer) + occurrences.last().dial_asked(peer)
    }
}

/// Those whose requests for streams are done with.
pub open spec fn openers<O>(outcomes: Seq<(O, OpenOutcome)>) -> Seq<O> {
    outcomes.map_values(|outcome: (O, OpenOutcome)| outcome.0)
}

/// Those whose requests for connections are done with.
pub open spec fn dialers<D>(outcomes: Seq<(D, DialOutcome)>) -> Seq<D> {
    outcomes.map_values(|outcome: (D, DialOutcome)| outcome.0)
}

impl<D, O, A> ManagerView<D, O, A> {
    /// The state once something happened.
    pub open spec fn after(self, occurrence: Occurrence<D, O, A>) -> ManagerView<D, O, A> {
        match occurrence {
            Occurrence::Incoming { peer, accept_tx } => self.with_connection(peer, accept_tx),
            Occurrence::Disconnected { peer } => self.disconnected(peer),
            Occurrence::DialFailed { peer } => self.without_dial(peer),
            Occurrence::Stream { peer, origin, accept_tx } => self.handled(
                peer,
                origin,
                accept_tx,
            ),
            Occurrence::Dial { peer, dialer } => self.with_dial(peer, dialer),
            Occurrence::Open { peer, opener } => self.with_open(peer, opener),
        }
    }

    /// The state once several things happened, one after the other.
    pub open spec fn after_all(self, occurrences: Seq<Occurrence<D, O, A>>) -> ManagerView<D, O, A>
        decreases occurrences.len(),
    {
        if occurrences.len() == 0 {
            self
        } else {
            self.after_all(occurrences.drop_last()).after(occurrences.last())
        }
    }

    /// What becomes of requests for streams to a peer when something happens.
    pub open spec fn open_outcomes(self, occurrence: Occurrence<D, O, A>, peer: Seq<u8>) -> Seq<
        (O, OpenOutcome),
    > {
        if occurrence.peer() != peer {
            Seq::empty()
        } else {
            match occurrence {
                Occurrence::Stream { origin, .. } => match self.route(peer, origin) {
                    Route::Opened { reply } => seq![(reply, OpenOutcome::Opened)],
                    _ => Seq::empty(),
                },
                Occurrence::Disconnected { .. } => waiting(
                    self.conn_stream_outbound,
                    peer,
                ).map_values(|opener: O| (opener, OpenOutcome::Dropped)),
                _ => Seq::empty(),
            }
        }
    }

    /// What becomes of requests for streams to a peer while several things happen.
    pub open spec fn open_outcomes_all(
        self,
        occurrences: Seq<Occurrence<D, O, A>>,
        peer: Seq<u8>,
    ) -> Seq<(O, OpenOutcome)>
        decreases occurrences.len(),
    {
        if occurrences.len() == 0 {
            Seq::empty()
        } else {
            let fewer = occurrences.drop_last();
            self.open_outcomes_all(fewer, peer) + self.after_all(fewer).open_outcomes(
                occurrences.last(),
                peer,
            )
        }
    }

    /// Who waits for a connection to a peer: one, or nobody.
    pub open spec fn dialing(self, peer: Seq<u8>) -> Seq<D> {
        if self.conn_dial.contains_key(peer) {
            seq![self.conn_dial[peer]]
        } else {
            Seq::empty()
        }
    }

    /// What becomes of requests for connections to a peer when something happens.
    pub open spec fn dial_outcomes(self, occurrence: Occurrence<D, O, A>, peer: Seq<u8>) -> Seq<
        (D, DialOutcome),
    > {
        if occurrence.peer() != peer {
            Seq::empty()
        } else {
            match occurrence {
                Occurrence::Stream { origin, .. } => match self.route(peer, origin) {
                    Route::Dialed { reply } => seq![(reply, DialOutcome::Connected)],
                    _ => Seq::empty(),
                },
                Occurrence::DialFailed { .. } => self.dialing(peer).map_values(
                    |dialer: D| (dialer, DialOutcome::Failed),
                ),
                Occurrence::Dial { .. } => self.dialing(peer).map_values(
                    |dialer: D| (dialer, DialOutcome::Replaced),
                ),
                _ => Seq::empty(),
            }
        }
    }

    /// What becomes of requests for connections to a peer while several things happen.
    pub open spec fn dial_outcomes_all(
        self,
        occurrences: Seq<Occurrence<D, O, A>>,
        peer: Seq<u8>,
    ) -> Seq<(D, DialOutcome)>
        decreases occurrences.len(),
    {
        if occurrences.len() == 0 {
            Seq::empty()
        } else {
            let fewer = occurrences.drop_last();
            self.dial_outcomes_all(fewer, peer) + self.after_all(fewer).dial_outcomes(
                occurrences.last(),
                peer,
            )
        }
    }

    /// Whether the requests and the connection of a peer are the same in two states.
    pub open spec fn untouched(self, after: ManagerView<D, O, A>, peer: Seq<u8>) -> bool {
        &&& after.conn_dial.contains_key(peer) == self.conn_dial.contains_key(peer)
        &&& self.conn_dial.contains_key(peer) ==> after.conn_dial[peer] == self.conn_dial[peer]
        &&& waiting(after.conn_stream_outbound, peer) == waiting(self.conn_stream_outbound, peer)
        &&& after.conn_stream_inbound.contains_key(peer) == self.conn_stream_inbound.contains_key(
            peer,
        )
        &&& self.conn_stream_inbound.contains_key(peer) ==> after.conn_stream_inbound[peer]
            == self.conn_stream_inbound[peer]
    }
}

/// Whatever a manager is asked for and told of, there are queues only for peers that someone
/// asked a stream of.
pub proof fn law_invariant<D, O, A>(
    state: ManagerView<D, O, A>,
    occurrences: Seq<Occurrence<D, O, A>>,
)
    requires
        state.inv(),
    ensures
        ManagerView::<D, O, A>::initial().inv(),
        state.after_all(occurrences).inv(),
    decreases occurrences.len(),
{
    if occurrences.len() > 0 {
        law_invariant(state, occurrences.drop_last());
    }
}

/// What one occurrence does to those that wait for streams to a peer.
proof fn lemma_open_queue_step<D, O, A>(
    state: ManagerView<D, O, A>,
    occurrence: Occurrence<D, O, A>,
    peer: Seq<u8>,
)
    requires
        state.inv(),
    ensures
        waiting(state.conn_stream_outbound, peer) + occurrence.open_asked(peer) == openers(
            state.open_outcomes(occurrence, peer),
        ) + waiting(state.after(occurrence).conn_stream_outbound, peer),
{
    let queue = waiting(state.conn_stream_outbound, peer);
    let done = openers(state.open_outcomes(occurrence, peer));
    let left = waiting(state.after(occurrence).conn_stream_outbound, peer);
    if queue.len() > 0 {
        assert(queue =~= seq![queue.first()] + queue.drop_first());
    }
    assert(queue + occurrence.open_asked(peer) =~= done + left);
}

/// Requests for streams to a peer are done with in the order in which they came, each once,
/// whatever else happens meanwhile: answered with a stream, or dropped when the connection is
/// gone. The others still wait: the next stream opened to the peer goes to the first of them.
/// Only if there is none does it make the connection that someone asked for, and else it
/// goes nowhere.
pub proof fn law_open_requests_are_answered_in_order<D, O, A>(
    state: ManagerView<D, O, A>,
    occurrences: Seq<Occurrence<D, O, A>>,
    peer: Seq<u8>,
)
    requires
        state.inv(),
    ensures
        ({
            let after = state.after_all(occurrences);
            let asked = waiting(state.conn_stream_outbound, peer) + open_asked_all(
                occurrences,
                peer,
            );
            let done = openers(state.open_outcomes_all(occurrences, peer));
            &&& asked == done + waiting(after.conn_stream_outbound, peer)
            &&& after.route(peer, StreamOrigin::Outbound) == if done.len() < asked.len() {
                Route::Opened { reply: asked[done.len() as int] }
            } else if after.conn_dial.contains_key(peer) {
                Route::Dialed { reply: after.conn_dial[peer] }
            } else {
                Route::<D, O>::Unrequested
            }
        }),
    decreases occurrences.len(),
{
    let queue = waiting(state.conn_stream_outbound, peer);
    let after = state.after_all(occurrences);
    let asked = queue + open_asked_all(occurrences, peer);
    let done = openers(state.open_outcomes_all(occurrences, peer));
    law_invariant(state, occurrences);
    if occurrences.len() > 0 {
        let fewer = occurrences.drop_last();
        let last = occurrences.last();
        let before = state.after_all(fewer);
        let earlier = openers(state.open_outcomes_all(fewer, peer));
        law_invariant(state, fewer);
        law_open_requests_are_answered_in_order(state, fewer, peer);
        lemma_open_queue_step(before, last, peer);
        assert(done =~= earlier + openers(before.open_outcomes(last, peer)));
        assert(asked =~= (queue + open_asked_all(fewer, peer)) + last.open_asked(peer));
        assert(asked =~= earlier + (waiting(before.conn_stream_outbound, peer) + last.open_asked(
            peer,
        )));
        assert(asked =~= done + waiting(after.conn_stream_outbound, peer));
    } else {
        assert(asked =~= queue);
        assert(done + queue =~= queue);
    }
}

/// Requests for connections to a peer are done with in the order in which they came, each
/// once, whatever else happens meanwhile: answered with a connection or an error, or dropped
/// for a later one. At most the last of them still waits.
pub proof fn law_dial_requests_are_done_with_once<D, O, A>(
    state: ManagerView<D, O, A>,
    occurrences: Seq<Occurrence<D, O, A>>,
    peer: Seq<u8>,
)
    ensures
        state.dialing(peer) + dial_asked_all(occurrences, peer) == dialers(
            state.dial_outcomes_all(occurrences, peer),
        ) + state.after_all(occurrences).dialing(peer),
    decreases occurrences.len(),
{
    let after = state.after_all(occurrences);
    let asked = state.dialing(peer) + dial_asked_all(occurrences, peer);
    let done = dialers(state.dial_outcomes_all(occurrences, peer));
    if occurrences.len() > 0 {
        let fewer = occurrences.drop_last();
        let last = occurrences.last();
        let before = state.after_all(fewer);
        let earlier = dialers(state.dial_outcomes_all(fewer, peer));
        law_dial_requests_are_done_with_once(state, fewer, peer);
        assert(before.dialing(peer) + last.dial_asked(peer) =~= dialers(
            before.dial_outcomes(last, peer),
        ) + after.dialing(peer));
        assert(done =~= earlier + dialers(before.dial_outcomes(last, peer)));
        assert(asked =~= (state.dialing(peer) + dial_asked_all(fewer, peer)) + last.dial_asked(
            peer,
        ));
        assert(asked =~= earlier + (before.dialing(peer) + last.dial_asked(peer)));
        assert(asked =~= done + after.dialing(peer));
    } else {
        assert(asked =~= state.dialing(peer));
        assert(done + state.dialing(peer) =~= state.dialing(peer));
    }
}

/// The one that asked for a connection gets it with the next stream opened to the peer. From
/// then on streams that the peer opens go to that connection, and a further stream opened
/// from here does not answer the request again.
pub proof fn law_connection_is_made_once<D, O, A>(
    state: ManagerView<D, O, A>,
    peer: Seq<u8>,
    reply: D,
    accept_tx: A,
)
    requires
        state.inv(),
        waiting(state.conn_stream_outbound, peer).len() == 0,
    ensures
        ({
            let asked = state.with_dial(peer, reply);
            let made = asked.handled(peer, StreamOrigin::Outbound, accept_tx);
            &&& asked.route(peer, StreamOrigin::Outbound) == Route::<D, O>::Dialed { reply }
            &&& made.conn_stream_inbound == state.conn_stream_inbound.insert(peer, accept_tx)
            &&& made.route(peer, StreamOrigin::Inbound) == Route::<D, O>::Accept
            &&& made.route(peer, StreamOrigin::Outbound) == Route::<D, O>::Unrequested
        }),
{
    assert(!state.conn_stream_outbound.contains_key(peer));
}

/// The one that asked for a connection hears of a failure to dial the peer at most once, and
/// then does not get the connection.
pub proof fn law_failed_dial_is_answered_once<D, O, A>(
    state: ManagerView<D, O, A>,
    peer: Seq<u8>,
    reply: D,
)
    requires
        state.inv(),
        waiting(state.conn_stream_outbound, peer).len() == 0,
    ensures
        ({
            let failed = state.with_dial(peer, reply).without_dial(peer);
            &&& !failed.conn_dial.contains_key(peer)
            &&& failed.route(peer, StreamOrigin::Outbound) == Route::<D, O>::Unrequested
            &&& failed.conn_stream_inbound == state.conn_stream_inbound
            &&& failed.conn_stream_outbound == state.conn_stream_outbound
        }),
{
    assert(!state.conn_stream_outbound.contains_key(peer));
}

/// Of two requests for a connection to one peer, only the later one counts.
pub proof fn law_later_dial_replaces_earlier<D, O, A>(
    state: ManagerView<D, O, A>,
    peer: Seq<u8>,
    earlier: D,
    later: D,
)
    ensures
        state.with_dial(peer, earlier).with_dial(peer, later) == state.with_dial(peer, later),
{
    assert(state.conn_dial.insert(peer, earlier).insert(peer, later) =~= state.conn_dial.insert(
        peer,
        later,
    ));
}

/// The first stream that a peer opens makes a new connection, and later ones go to it, until
/// the connection is gone: then the next one makes a new connection again, and those that
/// waited for a stream to the peer get none.
pub proof fn law_peer_connects_until_it_is_gone<D, O, A>(
    state: ManagerView<D, O, A>,
    peer: Seq<u8>,
    accept_tx: A,
)
    requires
        state.inv(),
    ensures
        ({
            let gone = state.disconnected(peer);
            let made = gone.handled(peer, StreamOrigin::Inbound, accept_tx);
            &&& gone.route(peer, StreamOrigin::Inbound) == Route::<D, O>::Incoming
            &&& waiting(gone.conn_stream_outbound, peer).len() == 0
            &&& gone.conn_dial == state.conn_dial
            &&& made.conn_stream_inbound == state.conn_stream_inbound.insert(peer, accept_tx)
            &&& made.route(peer, StreamOrigin::Inbound) == Route::<D, O>::Accept
            &&& made.handled(peer, StreamOrigin::Inbound, accept_tx) == made
            &&& made.disconnected(peer) == gone
        }),
{
    let gone = state.disconnected(peer);
    let made = gone.handled(peer, StreamOrigin::Inbound, accept_tx);
    assert(made.conn_stream_inbound =~= state.conn_stream_inbound.insert(peer, accept_tx));
    assert(made.disconnected(peer) =~= gone);
}

/// Once there is a connection to a peer, streams that the peer opens go to a connection that
/// there is, whatever happens until it is gone.
pub proof fn law_peer_stays_connected<D, O, A>(
    state: ManagerView<D, O, A>,
    occurrences: Seq<Occurrence<D, O, A>>,
    peer: Seq<u8>,
)
    requires
        state.conn_stream_inbound.contains_key(peer),
        forall|i: int|
            0 <= i < occurrences.len() ==> (#[trigger] occurrences[i] !is Disconnected
                || occurrences[i].peer() != peer),
    ensures
        state.after_all(occurrences).route(peer, StreamOrigin::Inbound) == Route::<D, O>::Accept,
    decreases occurrences.len(),
{
    if occurrences.len() > 0 {
        let fewer = occurrences.drop_last();
        assert forall|i: int| 0 <= i < fewer.len() implies (#[trigger] fewer[i] !is Disconnected
            || fewer[i].peer() != peer) by {
            assert(fewer[i] == occurrences[i]);
        }
        law_peer_stays_connected(state, fewer, peer);
        assert(occurrences[occurrences.len() - 1] == occurrences.last());
    }
}

/// A connection that a peer makes takes in the streams that the peer opens, in place of an
/// earlier connection.
pub proof fn law_incoming_connection_takes_over<D, O, A>(
    state: ManagerView<D, O, A>,
    peer: Seq<u8>,
    accept_tx: A,
)
    ensures
        state.with_connection(peer, accept_tx).route(peer, StreamOrigin::Inbound) == Route::<
            D,
            O,
        >::Accept,
        state.with_connection(peer, accept_tx).conn_stream_inbound[peer] == accept_tx,
        state.with_connection(peer, accept_tx).conn_dial == state.conn_dial,
        state.with_connection(peer, accept_tx).conn_stream_outbound == state.conn_stream_outbound,
{
}

/// Whatever is asked for or told of other peers leaves the requests and the connection of a
/// peer alone.
pub proof fn law_other_peers_are_untouched<D, O, A>(
    state: ManagerView<D, O, A>,
    occurrences: Seq<Occurrence<D, O, A>>,
    other: Seq<u8>,
)
    requires
        forall|i: int| 0 <= i < occurrences.len() ==> (#[trigger] occurrences[i]).peer() != other,
    ensures
        state.untouched(state.after_all(occurrences), other),
    decreases occurrences.len(),
{
    if occurrences.len() > 0 {
        let fewer = occurrences.drop_last();
        assert forall|i: int| 0 <= i < fewer.len() implies (#[trigger] fewer[i]).peer() != other by {
            assert(fewer[i] == occurrences[i]);
        }
        law_other_peers_are_untouched(state, fewer, other);
        assert(occurrences[occurrences.len() - 1].peer() != other);
    }
}

} // verus!
