//! What holds of [`crate::behaviour`], whatever happens.

use vstd::prelude::*;

use crate::behaviour::{
    all_failures, deadline, failures, open_requests, ActionView, BehaviourView, EventView,
    HandlerEventView, HandlerView, InEvent, OpenErrorView, OpenInfo, OutEventView, PeerDialing,
    DIAL_TIMEOUT,
};
use crate::peer_map::runs_through;
use crate::stream::{BiStreamView, StreamOrigin};
use crate::swarm::{
    ConnectionEvent, ConnectionHandlerEventView, ConnectionId, DialFailure, DialOptsView, FromSwarm,
    NetworkBehaviourActionView,
};

verus! {

/// Something that happens to a behaviour.
pub enum Occurrence<S> {
    /// A stream is asked for.
    Open { opts: DialOptsView, now: u64 },
    Established { peer: Seq<u8>, connection_id: ConnectionId },
    Closed { peer: Seq<u8>, connection_id: ConnectionId },
    /// A stream was opened.
    Ready { stream: BiStreamView<S> },
    /// The swarm collects an event.
    Collect,
    /// The streams asked of the peers that were dialed for too long are given up.
    GiveUp { order: Seq<Seq<u8>>, now: u64 },
}

impl<S> Occurrence<S> {
    /// Whether it is about a peer.
    pub open spec fn concerns(self, peer: Seq<u8>) -> bool {
        match self {
            Occurrence::Open { opts, now } => opts.peer_id == peer,
            Occurrence::Established { peer: other, connection_id } => other == peer,
            Occurrence::Closed { peer: other, connection_id } => other == peer,
            Occurrence::GiveUp { order, now } => order.contains(peer),
            _ => false,
        }
    }
}

impl<S> BehaviourView<S> {
    /// The state once something happened.
    pub open spec fn after(self, occurrence: Occurrence<S>) -> BehaviourView<S> {
        match occurrence {
            Occurrence::Open { opts, now } => self.open(opts, now),
            Occurrence::Established { peer, connection_id } => self.established(
                peer,
                connection_id,
            ),
            Occurrence::Closed { peer, connection_id } => self.closed(peer, connection_id),
            Occurrence::Ready { stream } => self.ready(stream),
            Occurrence::Collect => self.collect().1,
            Occurrence::GiveUp { order, now } => self.give_up(order),
        }
    }

    /// Whether it can happen: the numbers of streams suffice for it, and those that are
    /// given up are the ones dialed for too long.
    pub open spec fn allows(self, occurrence: Occurrence<S>) -> bool {
        match occurrence {
            Occurrence::Open { opts, now } => self.can_open(opts.peer_id),
            Occurrence::Established { peer, connection_id } => self.can_establish(
                peer,
                connection_id,
            ),
            Occurrence::GiveUp { order, now } => runs_through(order, self.expired(now)),
            _ => true,
        }
    }

    /// Whether it ends what was going on with a peer.
    pub open spec fn ends(self, occurrence: Occurrence<S>, peer: Seq<u8>) -> bool {
        match occurrence {
            Occurrence::Closed { peer: other, connection_id } => {
                &&& other == peer
                &&& self.connected.contains_key(peer)
                &&& self.connected[peer].connection_id == connection_id
            },
            Occurrence::GiveUp { order, now } => order.contains(peer),
            _ => false,
        }
    }

    /// What the swarm collects while several things happen.
    pub open spec fn handed_out(self, occurrences: Seq<Occurrence<S>>) -> Seq<ActionView<S>>
        decreases occurrences.len(),
    {
        if occurrences.len() == 0 {
            Seq::empty()
        } else {
            let earlier = self.handed_out(occurrences.drop_last());
            match (occurrences.last(), self.after_all(occurrences.drop_last()).collect().0) {
                (Occurrence::Collect, Some(action)) => earlier.push(action),
                _ => earlier,
            }
        }
    }

    /// Whether what is known of a peer is the same in two states.
    pub open spec fn untouched(self, after: BehaviourView<S>, peer: Seq<u8>) -> bool {
        &&& after.next_stream_id(peer) == self.next_stream_id(peer)
        &&& after.dialing.contains_key(peer) == self.dialing.contains_key(peer)
        &&& self.dialing.contains_key(peer) ==> after.dialing[peer] == self.dialing[peer]
        &&& after.connected.contains_key(peer) == self.connected.contains_key(peer)
        &&& self.connected.contains_key(peer) ==> after.connected[peer] == self.connected[peer]
    }

    /// The state once several things happened, one after the other.
    pub open spec fn after_all(self, occurrences: Seq<Occurrence<S>>) -> BehaviourView<S>
        decreases occurrences.len(),
    {
        if occurrences.len() == 0 {
            self
        } else {
            self.after_all(occurrences.drop_last()).after(occurrences.last())
        }
    }

    /// Whether several things can happen, one after the other, where none of them ends
    /// what was going on with a peer.
    pub open spec fn goes_on(self, occurrences: Seq<Occurrence<S>>, peer: Seq<u8>) -> bool
        decreases occurrences.len(),
    {
        occurrences.len() > 0 ==> {
            let before = self.after_all(occurrences.drop_last());
            &&& self.goes_on(occurrences.drop_last(), peer)
            &&& before.allows(occurrences.last())
            &&& !before.ends(occurrences.last(), peer)
        }
    }

    /// Whether several things can happen, one after the other.
    pub open spec fn allows_all(self, occurrences: Seq<Occurrence<S>>) -> bool
        decreases occurrences.len(),
    {
        occurrences.len() > 0 ==> {
            &&& self.allows_all(occurrences.drop_last())
            &&& self.after_all(occurrences.drop_last()).allows(occurrences.last())
        }
    }
}

/// Whatever happens to a behaviour, no peer is ever both dialed and connected, a peer is
/// dialed only for streams that were asked of it, and streams are numbered from 1 on.
pub proof fn law_invariant<S>(state: BehaviourView<S>, occurrences: Seq<Occurrence<S>>)
    requires
        state.inv(),
        state.allows_all(occurrences),
    ensures
        state.after_all(occurrences).inv(),
    decreases occurrences.len(),
{
    if occurrences.len() > 0 {
        law_invariant(state, occurrences.drop_last());
    }
}

/// Until what goes on with a peer ends, the number of its next stream never goes down.
proof fn lemma_next_stream_id_grows<S>(
    state: BehaviourView<S>,
    occurrences: Seq<Occurrence<S>>,
    peer: Seq<u8>,
)
    requires
        state.inv(),
        state.goes_on(occurrences, peer),
    ensures
        state.after_all(occurrences).inv(),
        state.after_all(occurrences).next_stream_id(peer) >= state.next_stream_id(peer),
    decreases occurrences.len(),
{
    if occurrences.len() > 0 {
        lemma_next_stream_id_grows(state, occurrences.drop_last(), peer);
        lemma_goes_on_allows(state, occurrences, peer);
        law_invariant(state, occurrences);
    }
}

proof fn lemma_goes_on_allows<S>(
    state: BehaviourView<S>,
    occurrences: Seq<Occurrence<S>>,
    peer: Seq<u8>,
)
    requires
        state.goes_on(occurrences, peer),
    ensures
        state.allows_all(occurrences),
    decreases occurrences.len(),
{
    if occurrences.len() > 0 {
        lemma_goes_on_allows(state, occurrences.drop_last(), peer);
    }
}

/// Two streams that are asked of one peer get different numbers, the later one the larger,
/// whatever happens between the requests, unless the connection to the peer is closed or
/// the peer is dialed in vain.
pub proof fn law_numbers_do_not_repeat<S>(
    state: BehaviourView<S>,
    opts: DialOptsView,
    now: u64,
    occurrences: Seq<Occurrence<S>>,
)
    requires
        state.inv(),
        state.can_open(opts.peer_id),
        state.open(opts, now).goes_on(occurrences, opts.peer_id),
    ensures
        state.open(opts, now).after_all(occurrences).next_stream_id(opts.peer_id)
            > state.next_stream_id(opts.peer_id),
{
    lemma_next_stream_id_grows(state.open(opts, now), occurrences, opts.peer_id);
}

/// Whatever happens to other peers leaves what is known of a peer alone.
pub proof fn law_other_peers_are_untouched<S>(
    state: BehaviourView<S>,
    occurrences: Seq<Occurrence<S>>,
    other: Seq<u8>,
)
    requires
        state.inv(),
        state.allows_all(occurrences),
        forall|i: int| 0 <= i < occurrences.len() ==> !(#[trigger] occurrences[i]).concerns(other),
    ensures
        state.untouched(state.after_all(occurrences), other),
    decreases occurrences.len(),
{
    if occurrences.len() > 0 {
        let fewer = occurrences.drop_last();
        assert forall|i: int| 0 <= i < fewer.len() implies !(#[trigger] fewer[i]).concerns(
            other,
        ) by {
            assert(fewer[i] == occurrences[i]);
        }
        law_other_peers_are_untouched(state, fewer, other);
        assert(!occurrences[occurrences.len() - 1].concerns(other));
    }
}

/// The attempts to dial a peer among other things that are asked of the swarm.
pub open spec fn dials_in<S>(events: Seq<ActionView<S>>, peer: Seq<u8>) -> Seq<DialOptsView>
    decreases events.len(),
{
    if events.len() == 0 {
        Seq::empty()
    } else {
        let earlier = dials_in(events.drop_last(), peer);
        match events.last() {
            NetworkBehaviourActionView::Dial { opts, .. } => if opts.peer_id == peer {
                earlier.push(opts)
            } else {
                earlier
            },
            _ => earlier,
        }
    }
}

/// How many streams are asked of a peer.
pub open spec fn open_count<S>(occurrences: Seq<Occurrence<S>>, peer: Seq<u8>) -> nat
    decreases occurrences.len(),
{
    if occurrences.len() == 0 {
        0
    } else {
        open_count(occurrences.drop_last(), peer) + match occurrences.last() {
            Occurrence::Open { opts, .. } => if opts.peer_id == peer {
                1nat
            } else {
                0nat
            },
            _ => 0nat,
        }
    }
}

/// Events that dial nobody add no attempts to dial.
proof fn lemma_no_dials<S>(events: Seq<ActionView<S>>, more: Seq<ActionView<S>>, peer: Seq<u8>)
    requires
        forall|i: int| 0 <= i < more.len() ==> #[trigger] more[i] !is Dial,
    ensures
        dials_in(events + more, peer) == dials_in(events, peer),
    decreases more.len(),
{
    if more.len() > 0 {
        let fewer = more.drop_last();
        assert forall|i: int| 0 <= i < fewer.len() implies #[trigger] fewer[i] !is Dial by {
            assert(fewer[i] == more[i]);
        }
        lemma_no_dials(events, fewer, peer);
        assert((events + more).drop_last() =~= events + fewer);
        assert((events + more).last() == more[more.len() - 1]);
    } else {
        assert(events + more =~= events);
    }
}

/// Reports of failures dial nobody.
proof fn lemma_failures_dial_nobody<S>(
    order: Seq<Seq<u8>>,
    dialing: Map<Seq<u8>, PeerDialing>,
)
    ensures
        forall|i: int|
            0 <= i < all_failures::<S>(order, dialing).len() ==> #[trigger] all_failures::<S>(
                order,
                dialing,
            )[i] !is Dial,
    decreases order.len(),
{
    if order.len() > 0 {
        let fewer = order.drop_last();
        lemma_failures_dial_nobody::<S>(fewer, dialing);
        let earlier = all_failures::<S>(fewer, dialing);
        let all = all_failures::<S>(order, dialing);
        assert forall|i: int| 0 <= i < all.len() implies #[trigger] all[i] !is Dial by {
            if i < earlier.len() {
                assert(all[i] == earlier[i]);
            }
        }
    }
}

/// What one occurrence adds to the attempts to dial a peer that is dialed: none.
proof fn lemma_no_further_dial<S>(
    state: BehaviourView<S>,
    occurrence: Occurrence<S>,
    earlier: Seq<ActionView<S>>,
    peer: Seq<u8>,
)
    requires
        state.dialing.contains_key(peer),
        occurrence !is Collect,
    ensures
        dials_in(earlier + state.after(occurrence).events, peer) == dials_in(
            earlier + state.events,
            peer,
        ),
{
    let all = earlier + state.events;
    let after = earlier + state.after(occurrence).events;
    match occurrence {
        Occurrence::Open { .. } => {
            if state.after(occurrence).events.len() > state.events.len() {
                assert(after.drop_last() =~= all);
            }
        },
        Occurrence::Established { peer: other, connection_id } => {
            if state.dialing.contains_key(other) {
                let more = open_requests::<S>(
                    other,
                    connection_id,
                    state.dialing[other].requested_outbound_streams,
                );
                assert(after =~= all + more);
                lemma_no_dials(all, more, peer);
            }
        },
        Occurrence::Ready { .. } => {
            assert(after.drop_last() =~= all);
        },
        Occurrence::GiveUp { order, .. } => {
            lemma_failures_dial_nobody::<S>(order, state.dialing);
            assert(after =~= all + all_failures(order, state.dialing));
            lemma_no_dials(all, all_failures(order, state.dialing), peer);
        },
        _ => {},
    }
}

/// However many streams are asked of a peer that is neither connected nor dialed, and
/// whatever else happens until it is connected or dialed in vain, it is dialed once, as the
/// first request says. The streams are numbered from 1 on, and the time limit on the dialing
/// is that of the first request.
pub proof fn law_peer_is_dialed_once<S>(
    state: BehaviourView<S>,
    opts: DialOptsView,
    now: u64,
    occurrences: Seq<Occurrence<S>>,
)
    requires
        state.inv(),
        !state.connected.contains_key(opts.peer_id),
        !state.dialing.contains_key(opts.peer_id),
        state.open(opts, now).goes_on(occurrences, opts.peer_id),
        no_connection(occurrences, opts.peer_id),
    ensures
        ({
            let peer = opts.peer_id;
            let first = state.open(opts, now);
            let after = first.after_all(occurrences);
            let requested = 1 + open_count(occurrences, peer);
            &&& state.next_stream_id(peer) == 1
            &&& first.events == state.events.push(
                NetworkBehaviourActionView::Dial { opts, handler: state.prototype() },
            )
            &&& dials_in(first.handed_out(occurrences) + after.events, peer) == dials_in(
                state.events,
                peer,
            ).push(opts)
            &&& requested <= u64::MAX
            &&& after.dialing.contains_key(peer)
            &&& after.dialing[peer] == (PeerDialing {
                timeout: deadline(now),
                requested_outbound_streams: requested as u64,
            })
            &&& after.dialing[peer].timeout == if now + DIAL_TIMEOUT <= u64::MAX {
                now + DIAL_TIMEOUT
            } else {
                u64::MAX as int
            }
            &&& after.next_stream_id(peer) == requested + 1
        }),
    decreases occurrences.len(),
{
    let peer = opts.peer_id;
    let first = state.open(opts, now);
    let after = first.after_all(occurrences);
    let all = first.handed_out(occurrences) + after.events;
    lemma_goes_on_allows(first, occurrences, peer);
    law_invariant(first, occurrences);
    if occurrences.len() > 0 {
        let fewer = occurrences.drop_last();
        let last = occurrences.last();
        let before = first.after_all(fewer);
        let earlier = first.handed_out(fewer);
        assert forall|i: int| 0 <= i < fewer.len() implies !((#[trigger] fewer[i]) matches
            Occurrence::Established { peer: other, .. } && other == peer) by {
            assert(fewer[i] == occurrences[i]);
        }
        law_peer_is_dialed_once(state, opts, now, fewer);
        lemma_goes_on_allows(first, fewer, peer);
        law_invariant(first, fewer);
        assert(last == occurrences[occurrences.len() - 1]);
        if last is Collect {
            assert(all =~= earlier + before.events);
        } else {
            lemma_no_further_dial(before, last, earlier, peer);
        }
    } else {
        assert(all =~= first.events);
        assert(first.events.drop_last() =~= state.events);
    }
}

/// When a connection to a peer that is dialed comes about, each stream that was asked for
/// meanwhile is opened on it, once, in the order of the requests.
pub proof fn law_connection_opens_what_was_asked_for<S>(
    state: BehaviourView<S>,
    peer: Seq<u8>,
    connection_id: ConnectionId,
)
    requires
        state.inv(),
        state.dialing.contains_key(peer),
        state.can_establish(peer, connection_id),
    ensures
        ({
            let after = state.established(peer, connection_id);
            let requested = state.dialing[peer].requested_outbound_streams;
            let added = after.events.skip(state.events.len() as int);
            &&& state.events.is_prefix_of(after.events)
            &&& added.len() == requested
            &&& forall|i: int|
                0 <= i < requested ==> #[trigger] added[i]
                    == ActionView::<S>::NotifyHandler {
                    peer_id: peer,
                    connection_id,
                    event: InEvent::OpenOutbound((i + 1) as u64),
                }
            &&& !after.dialing.contains_key(peer)
            &&& after.connected.contains_key(peer)
            &&& after.connected[peer].connection_id == connection_id
            &&& after.next_stream_id(peer) > requested
        }),
{
    let after = state.established(peer, connection_id);
    let requested = state.dialing[peer].requested_outbound_streams;
    assert(after.events.skip(state.events.len() as int) =~= open_requests(
        peer,
        connection_id,
        requested,
    ));
}

/// Whether none of several things is a connection to a peer.
pub open spec fn no_connection<S>(occurrences: Seq<Occurrence<S>>, peer: Seq<u8>) -> bool {
    forall|i: int|
        0 <= i < occurrences.len() ==> !((#[trigger] occurrences[i]) matches
            Occurrence::Established { peer: other, .. } && other == peer)
}

/// A stream that is asked of a peer that is not connected is not lost: whatever happens until
/// the peer is connected, unless it is dialed in vain, the connection then opens the stream
/// under the number that the request returned.
pub proof fn law_request_is_kept_until_the_connection<S>(
    state: BehaviourView<S>,
    opts: DialOptsView,
    now: u64,
    occurrences: Seq<Occurrence<S>>,
    connection_id: ConnectionId,
)
    requires
        state.inv(),
        !state.connected.contains_key(opts.peer_id),
        state.can_open(opts.peer_id),
        state.open(opts, now).goes_on(occurrences, opts.peer_id),
        no_connection(occurrences, opts.peer_id),
        state.open(opts, now).after_all(occurrences).can_establish(opts.peer_id, connection_id),
    ensures
        ({
            let before = state.open(opts, now).after_all(occurrences);
            let after = before.established(opts.peer_id, connection_id);
            let added = after.events.skip(before.events.len() as int);
            &&& before.dialing.contains_key(opts.peer_id)
            &&& added.contains(
                NetworkBehaviourActionView::NotifyHandler {
                    peer_id: opts.peer_id,
                    connection_id,
                    event: InEvent::OpenOutbound(state.next_stream_id(opts.peer_id) as u64),
                },
            )
        }),
{
    let peer = opts.peer_id;
    let opened = state.open(opts, now);
    let before = opened.after_all(occurrences);
    let after = before.established(peer, connection_id);
    let added = after.events.skip(before.events.len() as int);
    let stream_id = state.next_stream_id(peer);
    lemma_next_stream_id_grows(opened, occurrences, peer);
    lemma_still_dialing(opened, occurrences, peer);
    law_connection_opens_what_was_asked_for(before, peer, connection_id);
    assert(added[stream_id - 1] == ActionView::<S>::NotifyHandler {
        peer_id: peer,
        connection_id,
        event: InEvent::OpenOutbound(stream_id as u64),
    });
}

/// A peer is dialed until it is connected or dialed in vain.
proof fn lemma_still_dialing<S>(
    state: BehaviourView<S>,
    occurrences: Seq<Occurrence<S>>,
    peer: Seq<u8>,
)
    requires
        state.inv(),
        state.dialing.contains_key(peer),
        state.goes_on(occurrences, peer),
        no_connection(occurrences, peer),
    ensures
        state.after_all(occurrences).dialing.contains_key(peer),
    decreases occurrences.len(),
{
    if occurrences.len() > 0 {
        let fewer = occurrences.drop_last();
        assert forall|i: int| 0 <= i < fewer.len() implies !((#[trigger] fewer[i]) matches
            Occurrence::Established { peer: other, .. } && other == peer) by {
            assert(fewer[i] == occurrences[i]);
        }
        lemma_still_dialing(state, fewer, peer);
        lemma_next_stream_id_grows(state, fewer, peer);
        assert(occurrences.last() == occurrences[occurrences.len() - 1]);
    }
}

/// The reports for one of several peers stand next to each other, from the returned place on,
/// and the other reports are about others of the peers.
proof fn lemma_failures_of_one<S>(
    order: Seq<Seq<u8>>,
    dialing: Map<Seq<u8>, PeerDialing>,
    peer: Seq<u8>,
) -> (start: int)
    requires
        order.no_duplicates(),
    ensures
        ({
            let reports = all_failures::<S>(order, dialing);
            let n = if order.contains(peer) {
                dialing[peer].requested_outbound_streams as int
            } else {
                0
            };
            &&& 0 <= start <= start + n <= reports.len()
            &&& forall|i: int|
                0 <= i < n ==> reports[start + i] == #[trigger] failures::<S>(
                    peer,
                    dialing[peer].requested_outbound_streams,
                )[i]
            &&& forall|i: int|
                0 <= i < reports.len() && !(start <= i < start + n) ==> {
                    &&& (#[trigger] reports[i]) matches NetworkBehaviourActionView::GenerateEvent(
                        EventView::OpeningFailed { peer_id: other, .. },
                    )
                    &&& other != peer
                    &&& order.contains(other)
                }
        }),
    decreases order.len(),
{
    if order.len() == 0 {
        0
    } else {
        let fewer = order.drop_last();
        let before = lemma_failures_of_one::<S>(fewer, dialing, peer);
        let reports = all_failures::<S>(order, dialing);
        let earlier = all_failures::<S>(fewer, dialing);
        assert forall|p: Seq<u8>| #[trigger] order.contains(p) <==> fewer.contains(p) || p
            == order.last() by {
            if fewer.contains(p) {
                let j = choose|j: int| 0 <= j < fewer.len() && fewer[j] == p;
                assert(order[j] == p);
            }
            if order.contains(p) && p != order.last() {
                let j = choose|j: int| 0 <= j < order.len() && order[j] == p;
                assert(fewer[j] == p);
            }
        }
        if order.last() == peer {
            assert(!fewer.contains(peer)) by {
                if fewer.contains(peer) {
                    let j = choose|j: int| 0 <= j < fewer.len() && fewer[j] == peer;
                    assert(order[j] == order[order.len() - 1]);
                }
            }
            assert forall|i: int| 0 <= i < earlier.len() implies (#[trigger] reports[i])
                == earlier[i] by {}
            earlier.len() as int
        } else {
            assert forall|i: int| 0 <= i < earlier.len() implies (#[trigger] reports[i])
                == earlier[i] by {}
            assert(order.contains(order.last()));
            before
        }
    }
}

/// When the streams asked of peers that were dialed for too long are given up, each of those
/// streams is reported, once, and the streams of a peer in the order of the requests: under
/// the numbers from 1 up to how many were asked for, as not opened because the peer was dialed
/// for too long. Nothing else is reported.
pub proof fn law_streams_of_a_dial_in_vain_are_reported<S>(
    state: BehaviourView<S>,
    order: Seq<Seq<u8>>,
    now: u64,
    peer: Seq<u8>,
)
    requires
        state.inv(),
        runs_through(order, state.expired(now)),
        state.dialing.contains_key(peer),
        state.dialing[peer].timeout <= now,
    ensures
        state.expired(now).contains(peer),
        ({
            let after = state.give_up(order);
            let requested = state.dialing[peer].requested_outbound_streams;
            let added = after.events.skip(state.events.len() as int);
            &&& state.events.is_prefix_of(after.events)
            &&& !after.dialing.contains_key(peer)
            &&& !after.connected.contains_key(peer)
            &&& exists|start: int|
                {
                    &&& 0 <= start <= start + requested <= added.len()
                    &&& #[trigger] added.subrange(start, start + requested) == failures::<S>(
                        peer,
                        requested,
                    )
                    &&& forall|i: int|
                        start <= i < start + requested ==> #[trigger] added[i] == ActionView::<
                            S,
                        >::GenerateEvent(
                            EventView::OpeningFailed {
                                peer_id: peer,
                                stream_id: (i - start + 1) as u64,
                                reason: OpenErrorView::DialFailed("Dialing timeout reached"@),
                            },
                        )
                    &&& forall|i: int|
                        0 <= i < added.len() && !(start <= i < start + requested) ==> {
                            &&& (#[trigger] added[i]) matches
                                NetworkBehaviourActionView::GenerateEvent(
                                EventView::OpeningFailed { peer_id: other, .. },
                            )
                            &&& other != peer
                            &&& state.dialing.contains_key(other)
                            &&& state.dialing[other].timeout <= now
                        }
                }
        }),
{
    let after = state.give_up(order);
    let requested = state.dialing[peer].requested_outbound_streams;
    let added = after.events.skip(state.events.len() as int);
    assert(added =~= all_failures::<S>(order, state.dialing));
    assert(order.contains(peer));
    let start = lemma_failures_of_one::<S>(order, state.dialing, peer);
    assert(added.subrange(start, start + requested) =~= failures::<S>(peer, requested)) by {
        assert forall|i: int| 0 <= i < requested implies added[start + i] == #[trigger] failures::<S>(
            peer,
            requested,
        )[i] by {}
    }
    assert forall|i: int| start <= i < start + requested implies #[trigger] added[i]
        == failures::<S>(peer, requested)[i - start] by {
        assert(added.subrange(start, start + requested)[i - start] == added[i]);
    }
}

/// A behaviour has nothing to hand out only if nothing waits and no peer was dialed for too
/// long.
pub proof fn law_idle_only_if_nothing_is_due<S>(
    state: BehaviourView<S>,
    order: Seq<Seq<u8>>,
    now: u64,
)
    requires
        state.inv(),
        state.events.len() == 0,
        runs_through(order, state.expired(now)),
    ensures
        state.give_up(order).collect().0 is None <==> state.expired(now) == Set::<
            Seq<u8>,
        >::empty(),
        state.give_up(order).collect().0 is None <==> forall|peer: Seq<u8>| #[trigger]
            state.dialing.contains_key(peer) ==> state.dialing[peer].timeout > now,
{
    if order.len() > 0 {
        let peer = order.last();
        assert(order.contains(peer));
        assert(state.expired(now).contains(peer));
        assert(state.dialing.contains_key(peer));
    } else {
        assert forall|peer: Seq<u8>| !state.expired(now).contains(peer) by {
            assert(!order.contains(peer));
        }
        assert(state.expired(now) =~= Set::<Seq<u8>>::empty());
        assert forall|peer: Seq<u8>| #[trigger] state.dialing.contains_key(peer) implies state.dialing[peer].timeout
            > now by {
            assert(!state.expired(now).contains(peer));
        }
    }
}

/// What waits for the swarm is collected first, in the order in which it came, and nothing of
/// it is lost, whatever happens meanwhile.
pub proof fn law_events_are_collected_in_order<S>(
    state: BehaviourView<S>,
    occurrences: Seq<Occurrence<S>>,
)
    ensures
        state.events.is_prefix_of(
            state.handed_out(occurrences) + state.after_all(occurrences).events,
        ),
    decreases occurrences.len(),
{
    let all = state.handed_out(occurrences) + state.after_all(occurrences).events;
    if occurrences.len() > 0 {
        let fewer = occurrences.drop_last();
        let before = state.after_all(fewer);
        let earlier = state.handed_out(fewer) + before.events;
        law_events_are_collected_in_order(state, fewer);
        assert(earlier.is_prefix_of(all)) by {
            assert(all.take(earlier.len() as int) =~= earlier);
        }
        assert(all.take(state.events.len() as int) =~= state.events);
    } else {
        assert(all =~= state.events);
    }
}

/// The attempt to dial a peer is given up once the time limit has passed since the first
/// request, and not before. Nothing that happens meanwhile, such as a later request, puts
/// that off.
pub proof fn law_time_limit<S>(
    state: BehaviourView<S>,
    opts: DialOptsView,
    start: u64,
    occurrences: Seq<Occurrence<S>>,
    now: u64,
)
    requires
        state.inv(),
        !state.connected.contains_key(opts.peer_id),
        !state.dialing.contains_key(opts.peer_id),
        state.open(opts, start).goes_on(occurrences, opts.peer_id),
        no_connection(occurrences, opts.peer_id),
    ensures
        state.open(opts, start).after_all(occurrences).expired(now).contains(opts.peer_id)
            <==> deadline(start) <= now,
        start + DIAL_TIMEOUT <= u64::MAX ==> (state.open(opts, start).after_all(
            occurrences,
        ).expired(now).contains(opts.peer_id) <==> start + DIAL_TIMEOUT <= now),
        start + DIAL_TIMEOUT > u64::MAX ==> (state.open(opts, start).after_all(
            occurrences,
        ).expired(now).contains(opts.peer_id) <==> now == u64::MAX),
{
    law_peer_is_dialed_once(state, opts, start, occurrences);
}

/// A failed attempt to dial changes nothing.
pub proof fn law_failed_attempt_is_ignored<S>(state: BehaviourView<S>, failure: DialFailure)
    ensures
        state.told(FromSwarm::DialFailure(failure)) == state,
{
}

/// A connection that streams are opened on stays the one, whatever happens until it is closed.
/// A further connection to the peer changes nothing, nor does its end.
pub proof fn law_first_connection_is_kept<S>(
    state: BehaviourView<S>,
    peer: Seq<u8>,
    occurrences: Seq<Occurrence<S>>,
    further: ConnectionId,
)
    requires
        state.inv(),
        state.connected.contains_key(peer),
        state.connected[peer].connection_id != further,
        state.goes_on(occurrences, peer),
    ensures
        ({
            let after = state.after_all(occurrences);
            &&& after.connected.contains_key(peer)
            &&& after.connected[peer].connection_id == state.connected[peer].connection_id
            &&& after.established(peer, further) == after
            &&& after.closed(peer, further) == after
        }),
    decreases occurrences.len(),
{
    let after = state.after_all(occurrences);
    lemma_goes_on_allows(state, occurrences, peer);
    law_invariant(state, occurrences);
    if occurrences.len() > 0 {
        let fewer = occurrences.drop_last();
        law_first_connection_is_kept(state, peer, fewer, further);
        lemma_goes_on_allows(state, fewer, peer);
        law_invariant(state, fewer);
    }
    assert(after.connected.insert(peer, after.connected[peer]) =~= after.connected);
}

/// Once the connection that streams are opened on is closed, the next request dials the peer
/// anew, and the streams are numbered from 1 on again.
pub proof fn law_closed_peer_is_dialed_again<S>(
    state: BehaviourView<S>,
    opts: DialOptsView,
    now: u64,
)
    requires
        state.inv(),
        state.connected.contains_key(opts.peer_id),
    ensures
        ({
            let peer = opts.peer_id;
            let closed = state.closed(peer, state.connected[peer].connection_id);
            &&& closed.next_stream_id(peer) == 1
            &&& closed.open(opts, now).events == state.events.push(
                NetworkBehaviourActionView::Dial { opts, handler: state.prototype() },
            )
        }),
{
}

/// A handler that is told to open a stream asks for a substream of the protocol. Once that is
/// negotiated it hands on a stream that bears the number, as opened by this side, to the
/// peer of the connection, over that substream.
pub proof fn law_handler_opens_the_stream<S>(
    handler: HandlerView<S>,
    stream_id: u64,
    later: HandlerView<S>,
    inner: S,
)
    requires
        later.peer_id == handler.peer_id,
    ensures
        handler.asked(InEvent::OpenOutbound(stream_id)).events == handler.events.push(
            ConnectionHandlerEventView::OutboundSubstreamRequest {
                protocol: handler.protocol(stream_id),
            },
        ),
        handler.protocol(stream_id).protocol_name == handler.protocol_name,
        later.happened(
            ConnectionEvent::FullyNegotiatedOutbound {
                protocol: inner,
                info: handler.protocol(stream_id).info,
            },
        ).events == later.events.push(
            ConnectionHandlerEventView::Custom(
                OutEventView::OutboundStream(
                    BiStreamView {
                        peer_id: handler.peer_id,
                        origin: StreamOrigin::Outbound,
                        stream_id,
                        inner,
                    },
                ),
            ),
        ),
{
}

/// A stream that is asked of a connected peer comes back as ready: the number that the
/// request returned goes to the handler of the connection, from there into the request for a
/// substream, and with the negotiated substream into the report.
pub proof fn law_requested_stream_becomes_ready<S>(
    state: BehaviourView<S>,
    opts: DialOptsView,
    now: u64,
    handler: HandlerView<S>,
    inner: S,
)
    requires
        state.inv(),
        state.connected.contains_key(opts.peer_id),
        state.can_open(opts.peer_id),
        handler.peer_id == opts.peer_id,
    ensures
        ({
            let stream_id = state.next_stream_id(opts.peer_id) as u64;
            let asked = InEvent::OpenOutbound(stream_id);
            let opened = state.open(opts, now);
            let waiting = handler.asked(asked);
            let request = waiting.events.last();
            let negotiated = waiting.happened(
                ConnectionEvent::FullyNegotiatedOutbound {
                    protocol: inner,
                    info: request->protocol.info,
                },
            );
            let stream = BiStreamView {
                peer_id: opts.peer_id,
                origin: StreamOrigin::Outbound,
                stream_id,
                inner,
            };
            let brought = negotiated.events.last()->Custom_0;
            &&& opened.events == state.events.push(
                NetworkBehaviourActionView::NotifyHandler {
                    peer_id: opts.peer_id,
                    connection_id: state.connected[opts.peer_id].connection_id,
                    event: asked,
                },
            )
            &&& request is OutboundSubstreamRequest
            &&& negotiated.events == waiting.events.push(
                ConnectionHandlerEventView::Custom(OutEventView::OutboundStream(stream)),
            )
            &&& opened.ready(brought.stream()).events == opened.events.push(
                NetworkBehaviourActionView::GenerateEvent(EventView::StreamReady(stream)),
            )
        }),
{
}

/// Something that happens to a handler.
pub enum HandlerOccurrence<S> {
    /// The behaviour asks for a stream.
    Asked { event: InEvent },
    /// The number of one more inbound stream is given out.
    Listened,
    /// Something happens on the connection.
    Happened { event: ConnectionEvent<S, OpenInfo> },
    /// An event is collected.
    Collect,
}

/// How often the number of an inbound stream is given out.
pub open spec fn listen_count<S>(occurrences: Seq<HandlerOccurrence<S>>) -> nat
    decreases occurrences.len(),
{
    if occurrences.len() == 0 {
        0
    } else {
        listen_count(occurrences.drop_last()) + match occurrences.last() {
            HandlerOccurrence::Listened => 1nat,
            _ => 0nat,
        }
    }
}

impl<S> HandlerView<S> {
    /// The state once something happened.
    pub open spec fn after(self, occurrence: HandlerOccurrence<S>) -> HandlerView<S> {
        match occurrence {
            HandlerOccurrence::Asked { event } => self.asked(event),
            HandlerOccurrence::Listened => self.listened(),
            HandlerOccurrence::Happened { event } => self.happened(event),
            HandlerOccurrence::Collect => self.collect().1,
        }
    }

    /// The state once several things happened, one after the other.
    pub open spec fn after_all(self, occurrences: Seq<HandlerOccurrence<S>>) -> HandlerView<S>
        decreases occurrences.len(),
    {
        if occurrences.len() == 0 {
            self
        } else {
            self.after_all(occurrences.drop_last()).after(occurrences.last())
        }
    }

    /// What is collected while several things happen.
    pub open spec fn handed_out(self, occurrences: Seq<HandlerOccurrence<S>>) -> Seq<
        HandlerEventView<S>,
    >
        decreases occurrences.len(),
    {
        if occurrences.len() == 0 {
            Seq::empty()
        } else {
            let earlier = self.handed_out(occurrences.drop_last());
            match (occurrences.last(), self.after_all(occurrences.drop_last()).collect().0) {
                (HandlerOccurrence::Collect, Some(event)) => earlier.push(event),
                _ => earlier,
            }
        }
    }

    /// What the handler asks for because of something that happens: a substream for a stream
    /// that the behaviour asks for, and to hand on the stream that a substream becomes.
    pub open spec fn caused(self, occurrence: HandlerOccurrence<S>) -> Seq<HandlerEventView<S>> {
        match occurrence {
            HandlerOccurrence::Asked { event: InEvent::OpenOutbound(stream_id) } => seq![
                ConnectionHandlerEventView::OutboundSubstreamRequest {
                    protocol: self.protocol(stream_id),
                },
            ],
            HandlerOccurrence::Happened {
                event: ConnectionEvent::FullyNegotiatedInbound { protocol, info },
            } => seq![
                ConnectionHandlerEventView::Custom(
                    OutEventView::InboundStream(self.stream(protocol, StreamOrigin::Inbound, info)),
                ),
            ],
            HandlerOccurrence::Happened {
                event: ConnectionEvent::FullyNegotiatedOutbound { protocol, info },
            } => seq![
                ConnectionHandlerEventView::Custom(
                    OutEventView::OutboundStream(
                        self.stream(protocol, StreamOrigin::Outbound, info),
                    ),
                ),
            ],
            _ => Seq::empty(),
        }
    }

    /// What the handler asks for because of several things that happen.
    pub open spec fn caused_all(self, occurrences: Seq<HandlerOccurrence<S>>) -> Seq<
        HandlerEventView<S>,
    >
        decreases occurrences.len(),
    {
        if occurrences.len() == 0 {
            Seq::empty()
        } else {
            self.caused_all(occurrences.drop_last()) + self.caused(occurrences.last())
        }
    }
}

/// A handler asks for one substream for each stream that the behaviour asks for, and hands on
/// each stream that is negotiated, once, in the order in which that happens. Its peer and its
/// protocol stay the same.
pub proof fn law_handler_loses_nothing<S>(
    handler: HandlerView<S>,
    occurrences: Seq<HandlerOccurrence<S>>,
)
    ensures
        ({
            let after = handler.after_all(occurrences);
            &&& handler.handed_out(occurrences) + after.events == handler.events
                + handler.caused_all(occurrences)
            &&& after.peer_id == handler.peer_id
            &&& after.protocol_name == handler.protocol_name
        }),
    decreases occurrences.len(),
{
    let after = handler.after_all(occurrences);
    let all = handler.handed_out(occurrences) + after.events;
    let expected = handler.events + handler.caused_all(occurrences);
    if occurrences.len() > 0 {
        let fewer = occurrences.drop_last();
        let before = handler.after_all(fewer);
        let earlier = handler.handed_out(fewer) + before.events;
        law_handler_loses_nothing(handler, fewer);
        assert(all =~= earlier + handler.caused(occurrences.last()));
        assert(expected =~= (handler.events + handler.caused_all(fewer)) + handler.caused(
            occurrences.last(),
        ));
    }
    assert(all =~= expected);
}

/// The streams that the peer opens on a connection are numbered 1, 2, 3 and so on, whatever
/// else happens on it, and from 0 once all numbers were given out. A stream of the number
/// that was given out for it, opened by the peer, is what the handler hands on.
pub proof fn law_inbound_streams_are_numbered<S>(
    protocol_name: Seq<char>,
    peer: Seq<u8>,
    occurrences: Seq<HandlerOccurrence<S>>,
    later: Seq<HandlerOccurrence<S>>,
    inner: S,
)
    ensures
        ({
            let handler = HandlerView::<S>::initial(protocol_name, peer).after_all(occurrences);
            let stream_id = handler.next_inbound_stream_id;
            let info = handler.protocol(stream_id).info;
            let before = handler.listened().after_all(later);
            let after = before.happened(
                ConnectionEvent::FullyNegotiatedInbound { protocol: inner, info },
            );
            &&& stream_id as nat == (listen_count(occurrences) + 1) % 0x1_0000_0000_0000_0000
            &&& handler.protocol(stream_id).protocol_name == protocol_name
            &&& after.events == before.events.push(
                ConnectionHandlerEventView::Custom(
                    OutEventView::InboundStream(
                        BiStreamView {
                            peer_id: peer,
                            origin: StreamOrigin::Inbound,
                            stream_id,
                            inner,
                        },
                    ),
                ),
            )
        }),
    decreases occurrences.len(),
{
    let initial = HandlerView::<S>::initial(protocol_name, peer);
    law_handler_loses_nothing(initial, occurrences);
    law_handler_loses_nothing(initial.after_all(occurrences).listened(), later);
    if occurrences.len() > 0 {
        law_inbound_streams_are_numbered(
            protocol_name,
            peer,
            occurrences.drop_last(),
            later,
            inner,
        );
    }
}

} // verus!
