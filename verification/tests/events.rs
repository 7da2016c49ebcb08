use libp2p_bistream::behaviour::{
    Action, Behaviour, Event, Handler, HandlerPrototype, InEvent, OpenError, OpenInfo, OutEvent,
    PeerConnected, PeerDialing, DIAL_TIMEOUT, PROTOCOL_NAME,
};
use libp2p_bistream::peer::{Multiaddr, PeerId};
use libp2p_bistream::stream::{BiStream, StreamOrigin};
use libp2p_bistream::swarm::{
    ConnectedPoint, ConnectionClosed, ConnectionEstablished, ConnectionEvent,
    ConnectionHandlerEvent, ConnectionId, DialFailure, FromSwarm, KeepAlive,
    NetworkBehaviourAction, PeerCondition,
};

type Node = Behaviour<&'static str>;

fn peer(n: u8) -> PeerId {
    PeerId::from_bytes(vec![0, 1, n]).unwrap()
}

fn established(n: u8, connection: u64) -> FromSwarm {
    FromSwarm::ConnectionEstablished(ConnectionEstablished {
        peer_id: peer(n),
        connection_id: ConnectionId(connection),
        endpoint: ConnectedPoint::Dialer,
    })
}

fn closed(n: u8, connection: u64) -> FromSwarm {
    FromSwarm::ConnectionClosed(ConnectionClosed {
        peer_id: peer(n),
        connection_id: ConnectionId(connection),
    })
}

fn expect_dial(action: Option<Action<&'static str>>, n: u8) -> (Option<Vec<Multiaddr>>, String) {
    match action {
        Some(NetworkBehaviourAction::Dial { opts, handler }) => {
            assert!(opts.peer_id.same(&peer(n)));
            assert_eq!(opts.condition, PeerCondition::Always);
            (opts.addresses, handler.protocol_name)
        }
        other => panic!("expected a dial, got {other:?}"),
    }
}

fn expect_open(action: Option<Action<&'static str>>, n: u8, connection: u64, stream_id: u64) {
    match action {
        Some(NetworkBehaviourAction::NotifyHandler { peer_id, connection_id, event }) => {
            assert!(peer_id.same(&peer(n)));
            assert_eq!(connection_id, ConnectionId(connection));
            let InEvent::OpenOutbound(id) = event;
            assert_eq!(id, stream_id);
        }
        other => panic!("expected a request for a stream, got {other:?}"),
    }
}

fn expect_failure(action: Option<Action<&'static str>>, n: u8, expected: u64) {
    match action {
        Some(NetworkBehaviourAction::GenerateEvent(Event::OpeningFailed {
            peer_id,
            stream_id,
            reason,
        })) => {
            assert!(peer_id.same(&peer(n)));
            assert_eq!(stream_id, expected);
            assert_eq!(reason.to_string(), "Failed to dial peer: Dialing timeout reached");
        }
        other => panic!("expected a failure, got {other:?}"),
    }
}

#[test]
fn opening_dials_an_unknown_peer_once() {
    let mut node = Node::new();
    assert_eq!(node.open_bi(&peer(1), 0), 1);
    assert_eq!(node.open_bi(&peer(1), 5), 2);
    assert_eq!(node.open_bi(&peer(1), 9), 3);
    assert_eq!(node.dialing_requests(&peer(1)), Some(3));
    assert_eq!(node.next_outbound_id(&peer(1)), None);
    let (addresses, protocol) = expect_dial(node.poll(0), 1);
    assert!(addresses.is_none());
    assert_eq!(protocol, "/bistream/0.1.0");
    assert!(node.poll(0).is_none());
}

#[test]
fn opening_with_addresses_dials_them() {
    let mut node = Node::with_protocol_name("/other".to_string());
    let addrs = vec![Multiaddr { bytes: vec![4, 127, 0, 0, 1] }, Multiaddr { bytes: vec![6] }];
    assert_eq!(node.open_bi_with_addrs(&peer(1), addrs, 0), 1);
    let (addresses, protocol) = expect_dial(node.poll(0), 1);
    let addresses = addresses.unwrap();
    assert_eq!(addresses.len(), 2);
    assert_eq!(addresses[0].bytes, vec![4u8, 127, 0, 0, 1]);
    assert_eq!(addresses[1].bytes, vec![6u8]);
    assert_eq!(protocol, "/other");
}

#[test]
fn connection_opens_the_streams_asked_for() {
    let mut node = Node::default();
    node.open_bi(&peer(1), 0);
    node.open_bi(&peer(1), 0);
    expect_dial(node.poll(0), 1);
    node.on_swarm_event(established(1, 7));
    assert_eq!(node.dialing_requests(&peer(1)), None);
    expect_open(node.poll(0), 1, 7, 1);
    expect_open(node.poll(0), 1, 7, 2);
    assert!(node.poll(u64::MAX).is_none());
    // One number is left out between the streams asked for before and after.
    assert_eq!(node.next_outbound_id(&peer(1)), Some(4));
    assert_eq!(node.open_bi(&peer(1), 0), 4);
    expect_open(node.poll(0), 1, 7, 4);
    assert_eq!(node.open_bi(&peer(1), 0), 5);
    expect_open(node.poll(0), 1, 7, 5);
}

#[test]
fn connection_that_nobody_asked_for_numbers_from_one() {
    let mut node = Node::new();
    node.on_swarm_event(established(1, 7));
    assert!(node.poll(0).is_none());
    assert_eq!(node.open_bi(&peer(1), 0), 1);
    expect_open(node.poll(0), 1, 7, 1);
}

#[test]
fn numbers_of_one_peer_never_repeat() {
    let mut node = Node::new();
    let mut last = 0;
    for round in 0..6u64 {
        let id = node.open_bi(&peer(1), round);
        assert!(id > last);
        last = id;
        if round == 2 {
            node.on_swarm_event(established(1, 7));
        }
        if round == 4 {
            node.on_swarm_event(established(1, 8));
            node.on_swarm_event(closed(1, 8));
        }
    }
    assert_eq!(last, 7);
}

#[test]
fn other_peers_are_left_alone() {
    let mut node = Node::new();
    node.on_swarm_event(established(2, 9));
    node.open_bi(&peer(2), 0);
    expect_open(node.poll(0), 2, 9, 1);
    node.open_bi(&peer(1), 0);
    node.on_swarm_event(established(1, 7));
    node.on_swarm_event(closed(1, 7));
    assert_eq!(node.next_outbound_id(&peer(2)), Some(2));
    assert_eq!(node.next_outbound_id(&peer(1)), None);
}

#[test]
fn dial_is_given_up_after_the_time_limit() {
    let mut node = Node::new();
    node.open_bi(&peer(1), 100);
    node.open_bi(&peer(1), 5_000_000_000);
    expect_dial(node.poll(100), 1);
    assert_eq!(DIAL_TIMEOUT, 10_000_000_000);
    assert_eq!(node.next_timeout(), Some(100 + DIAL_TIMEOUT));
    assert!(node.poll(99 + DIAL_TIMEOUT).is_none());
    expect_failure(node.poll(100 + DIAL_TIMEOUT), 1, 1);
    expect_failure(node.poll(100 + DIAL_TIMEOUT), 1, 2);
    assert!(node.poll(100 + DIAL_TIMEOUT).is_none());
    assert_eq!(node.next_timeout(), None);
    assert_eq!(node.open_bi(&peer(1), 0), 1);
    expect_dial(node.poll(0), 1);
}

#[test]
fn time_limit_does_not_overflow() {
    let mut node = Node::new();
    node.open_bi(&peer(1), u64::MAX - 1);
    assert_eq!(node.next_timeout(), Some(u64::MAX));
    assert_eq!(PeerDialing::new(5, 7).timeout, 12);
    assert_eq!(PeerDialing::new(5, u64::MAX).timeout, u64::MAX);
    assert_eq!(PeerDialing::new(5, 7).requested_outbound_streams, 0);
}

#[test]
fn several_dials_are_given_up_each_for_itself() {
    let mut node = Node::new();
    node.open_bi(&peer(1), 0);
    node.open_bi(&peer(2), 10);
    node.open_bi(&peer(3), 20);
    node.open_bi(&peer(2), 30);
    for n in 1..=3 {
        expect_dial(node.poll(0), n);
    }
    assert_eq!(node.next_timeout(), Some(DIAL_TIMEOUT));
    let mut failures = Vec::new();
    while let Some(action) = node.poll(10 + DIAL_TIMEOUT) {
        match action {
            NetworkBehaviourAction::GenerateEvent(Event::OpeningFailed {
                peer_id,
                stream_id,
                ..
            }) => failures.push((peer_id.to_bytes()[2], stream_id)),
            other => panic!("expected a failure, got {other:?}"),
        }
    }
    failures.sort();
    assert_eq!(failures, vec![(1, 1), (2, 1), (2, 2)]);
    assert_eq!(node.dialing_requests(&peer(3)), Some(1));
    assert_eq!(node.next_timeout(), Some(20 + DIAL_TIMEOUT));
}

#[test]
fn connected_peer_is_not_given_up() {
    let mut node = Node::new();
    node.open_bi(&peer(1), 0);
    expect_dial(node.poll(0), 1);
    node.on_swarm_event(established(1, 7));
    expect_open(node.poll(0), 1, 7, 1);
    assert!(node.poll(u64::MAX).is_none());
}

#[test]
fn failed_attempts_to_dial_do_not_matter() {
    let mut node = Node::new();
    node.open_bi(&peer(1), 0);
    expect_dial(node.poll(0), 1);
    node.on_swarm_event(FromSwarm::DialFailure(DialFailure {
        peer_id: Some(peer(1)),
        error: "refused".to_string(),
    }));
    node.on_swarm_event(FromSwarm::Other);
    assert_eq!(node.dialing_requests(&peer(1)), Some(1));
    assert!(node.poll(0).is_none());
}

#[test]
fn first_connection_is_the_one_used() {
    let mut node = Node::new();
    node.on_swarm_event(established(1, 7));
    node.on_swarm_event(established(1, 8));
    node.open_bi(&peer(1), 0);
    expect_open(node.poll(0), 1, 7, 1);
    node.on_swarm_event(closed(1, 8));
    node.open_bi(&peer(1), 0);
    expect_open(node.poll(0), 1, 7, 2);
}

#[test]
fn closed_peer_is_dialed_again() {
    let mut node = Node::new();
    node.on_swarm_event(established(1, 7));
    node.open_bi(&peer(1), 0);
    expect_open(node.poll(0), 1, 7, 1);
    node.on_swarm_event(closed(1, 7));
    assert_eq!(node.open_bi(&peer(1), 0), 1);
    expect_dial(node.poll(0), 1);
}

#[test]
fn known_peer_starts_at_stream_one() {
    let known = PeerConnected::new(ConnectionId(4));
    assert_eq!(known.connection_id, ConnectionId(4));
    assert_eq!(known.next_outbound_id, 1);
}

#[test]
fn streams_are_reported_as_ready() {
    let mut node = Node::new();
    let stream = |origin, stream_id| BiStream { peer_id: peer(1), origin, stream_id, inner: "s" };
    node.on_connection_handler_event(
        peer(1),
        ConnectionId(7),
        OutEvent::OutboundStream(stream(StreamOrigin::Outbound, 3)),
    );
    node.on_connection_handler_event(
        peer(1),
        ConnectionId(7),
        OutEvent::InboundStream(stream(StreamOrigin::Inbound, 4)),
    );
    for (origin, id) in [(StreamOrigin::Outbound, 3), (StreamOrigin::Inbound, 4)] {
        match node.poll(0) {
            Some(NetworkBehaviourAction::GenerateEvent(Event::StreamReady(ready))) => {
                assert_eq!(*ready.origin(), origin);
                assert_eq!(ready.stream_id(), id);
                assert_eq!(ready.inner, "s");
                assert!(ready.peer_id().same(&peer(1)));
            }
            other => panic!("expected a stream, got {other:?}"),
        }
    }
    assert!(node.poll(0).is_none());
}

#[test]
fn events_come_out_in_order() {
    let mut node = Node::new();
    node.open_bi(&peer(1), 0);
    node.on_swarm_event(established(2, 9));
    node.open_bi(&peer(2), 0);
    node.open_bi(&peer(3), 0);
    expect_dial(node.poll(u64::MAX), 1);
    expect_open(node.poll(u64::MAX), 2, 9, 1);
    expect_dial(node.poll(u64::MAX), 3);
}

#[test]
fn open_errors_in_words() {
    assert_eq!(OpenError::DialFailed("why".to_string()).to_string(), "Failed to dial peer: why");
    assert_eq!(OpenError::Timeout.to_string(), "Request for stream timed out");
}

#[test]
fn prototype_names_the_protocol() {
    assert_eq!(PROTOCOL_NAME, "/bistream/0.1.0");
    assert_eq!(HandlerPrototype::new(None).inbound_protocol(), "/bistream/0.1.0");
    assert_eq!(HandlerPrototype::new(Some("/x".to_string())).inbound_protocol(), "/x");
    assert_eq!(Node::with_protocol_name("/y".to_string()).new_handler().inbound_protocol(), "/y");
}

fn handler() -> Handler<&'static str> {
    HandlerPrototype::new(None).into_handler(&peer(1), &ConnectedPoint::Listener)
}

#[test]
fn handler_numbers_inbound_streams() {
    let mut handler = handler();
    for expected in 1..4 {
        let protocol = handler.listen_protocol();
        assert_eq!(protocol.info.stream_id, expected);
        assert_eq!(protocol.protocol_name, "/bistream/0.1.0");
    }
    assert_eq!(handler.connection_keep_alive(), KeepAlive::Yes);
    assert!(handler.poll().is_none());
}

#[test]
fn handler_hands_on_inbound_streams() {
    let mut handler = handler();
    let info = handler.listen_protocol().info;
    handler.on_connection_event(ConnectionEvent::FullyNegotiatedInbound { protocol: "s", info });
    match handler.poll() {
        Some(ConnectionHandlerEvent::Custom(OutEvent::InboundStream(stream))) => {
            assert_eq!(stream.stream_id(), 1);
            assert!(stream.is_accept());
            assert!(stream.peer_id().same(&peer(1)));
            assert_eq!(stream.inner, "s");
        }
        other => panic!("expected an inbound stream, got {other:?}"),
    }
}

#[test]
fn handler_ignores_errors() {
    let mut handler = handler();
    handler.on_connection_event(ConnectionEvent::DialUpgradeError);
    handler.on_connection_event(ConnectionEvent::AddressChange);
    handler.on_connection_event(ConnectionEvent::ListenUpgradeError);
    assert!(handler.poll().is_none());
    assert_eq!(OpenInfo::default().stream_id, 0);
}

#[test]
fn requested_stream_becomes_ready_under_its_number() {
    let mut node = Node::new();
    node.on_swarm_event(established(1, 7));
    node.open_bi(&peer(1), 0);
    expect_open(node.poll(0), 1, 7, 1);
    let id = node.open_bi(&peer(1), 0);
    let mut handler: Handler<&'static str> =
        node.new_handler().into_handler(&peer(1), &ConnectedPoint::Dialer);
    match node.poll(0) {
        Some(NetworkBehaviourAction::NotifyHandler { event, .. }) => {
            handler.on_behaviour_event(event)
        }
        other => panic!("expected a request for a stream, got {other:?}"),
    }
    let info = match handler.poll() {
        Some(ConnectionHandlerEvent::OutboundSubstreamRequest { protocol }) => {
            assert_eq!(protocol.protocol_name, "/bistream/0.1.0");
            protocol.info
        }
        other => panic!("expected a request for a substream, got {other:?}"),
    };
    handler.on_connection_event(ConnectionEvent::FullyNegotiatedOutbound { protocol: "s", info });
    match handler.poll() {
        Some(ConnectionHandlerEvent::Custom(event)) => {
            node.on_connection_handler_event(peer(1), ConnectionId(7), event)
        }
        other => panic!("expected a stream, got {other:?}"),
    }
    match node.poll(0) {
        Some(NetworkBehaviourAction::GenerateEvent(Event::StreamReady(stream))) => {
            assert_eq!(stream.stream_id(), id);
            assert_eq!(id, 2);
            assert!(stream.is_dial());
            assert!(stream.peer_id().same(&peer(1)));
            assert_eq!(stream.inner, "s");
        }
        other => panic!("expected a stream, got {other:?}"),
    }
}

#[test]
fn request_is_kept_until_the_connection() {
    let mut node = Node::new();
    node.open_bi(&peer(2), 0);
    node.open_bi(&peer(1), 0);
    let id = node.open_bi(&peer(1), 0);
    node.on_swarm_event(established(2, 9));
    node.on_swarm_event(closed(2, 9));
    node.on_swarm_event(closed(1, 3));
    node.open_bi(&peer(1), 1);
    while node.poll(DIAL_TIMEOUT - 1).is_some() {}
    node.on_swarm_event(established(1, 7));
    expect_open(node.poll(0), 1, 7, 1);
    expect_open(node.poll(0), 1, 7, id);
    expect_open(node.poll(0), 1, 7, 3);
    assert_eq!(id, 2);
}

#[test]
fn handler_loses_nothing() {
    let mut handler = handler();
    let mut seen = Vec::new();
    let mut inbound = Vec::new();
    for round in 0..3u64 {
        handler.on_behaviour_event(InEvent::OpenOutbound(10 + round));
        let info = handler.listen_protocol().info;
        inbound.push(info.stream_id);
        handler.on_connection_event(ConnectionEvent::DialUpgradeError);
        handler.on_connection_event(ConnectionEvent::FullyNegotiatedInbound {
            protocol: "s",
            info,
        });
        if round == 1 {
            seen.push(handler.poll());
        }
    }
    while let Some(event) = handler.poll() {
        seen.push(Some(event));
    }
    let numbers: Vec<u64> = seen
        .into_iter()
        .flatten()
        .map(|event| match event {
            ConnectionHandlerEvent::OutboundSubstreamRequest { protocol } => protocol.info.stream_id,
            ConnectionHandlerEvent::Custom(OutEvent::InboundStream(stream)) => stream.stream_id(),
            ConnectionHandlerEvent::Custom(OutEvent::OutboundStream(_)) => panic!("not opened"),
        })
        .collect();
    assert_eq!(inbound, vec![1, 2, 3]);
    assert_eq!(numbers, vec![10, 1, 11, 2, 12, 3]);
}

#[test]
fn peer_is_dialed_once_whatever_else_happens() {
    let mut node = Node::new();
    node.open_bi(&peer(1), 0);
    node.on_swarm_event(established(2, 9));
    node.open_bi(&peer(3), 1);
    assert_eq!(node.open_bi(&peer(1), 2), 2);
    node.open_bi(&peer(2), 3);
    let mut dials = 0;
    while let Some(action) = node.poll(4) {
        if let NetworkBehaviourAction::Dial { opts, .. } = action {
            if opts.peer_id.same(&peer(1)) {
                dials += 1;
            }
        }
        if dials < 3 && node.dialing_requests(&peer(1)) < Some(4) {
            node.open_bi(&peer(1), 4);
        }
    }
    assert_eq!(dials, 1);
    assert_eq!(node.dialing_requests(&peer(1)), Some(4));
    assert_eq!(node.next_timeout(), Some(DIAL_TIMEOUT));
}

#[test]
fn behaviour_can_be_shown() {
    let node = Node::with_protocol_name("/shown".to_string());
    assert!(format!("{node:?}").contains("/shown"));
    assert!(format!("{:?}", handler()).contains(PROTOCOL_NAME));
}
