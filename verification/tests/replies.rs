use libp2p_bistream::behaviour::bistream::{
    Behaviour, Delivery, Event, Handler, InEvent, OpenInfo, OutEvent, PROTOCOL_NAME,
};
use libp2p_bistream::peer::PeerId;
use libp2p_bistream::stream::{BiStream, StreamOrigin};
use libp2p_bistream::swarm::{
    ConnectedPoint, ConnectionClosed, ConnectionEstablished, ConnectionEvent,
    ConnectionHandlerEvent, ConnectionId, DialFailure, FromSwarm, KeepAlive,
    NetworkBehaviourAction, PeerCondition,
};

type Node = Behaviour<&'static str, u32>;

fn peer(n: u8) -> PeerId {
    PeerId::from_bytes(vec![0, 1, n]).unwrap()
}

fn established(n: u8, connection: u64) -> FromSwarm {
    FromSwarm::ConnectionEstablished(ConnectionEstablished {
        peer_id: peer(n),
        connection_id: ConnectionId(connection),
        endpoint: ConnectedPoint::Dialer,
    })
}

fn dial_failure(peer_id: Option<PeerId>) -> FromSwarm {
    FromSwarm::DialFailure(DialFailure { peer_id, error: "no route".to_string() })
}

fn outbound(n: u8, stream_id: u64) -> OutEvent<&'static str> {
    OutEvent::OutboundStream(BiStream {
        peer_id: peer(n),
        origin: StreamOrigin::Outbound,
        stream_id,
        inner: "s",
    })
}

fn inbound(n: u8, stream_id: u64) -> OutEvent<&'static str> {
    OutEvent::InboundStream(BiStream {
        peer_id: peer(n),
        origin: StreamOrigin::Inbound,
        stream_id,
        inner: "s",
    })
}

fn deliver(node: &mut Node, event: OutEvent<&'static str>) -> Delivery<&'static str, u32> {
    node.on_connection_handler_event(peer(9), ConnectionId(0), event)
}

#[test]
fn request_without_a_connection_dials() {
    let mut node = Node::new();
    node.open_bi(&peer(1), 10);
    match node.poll() {
        Some(NetworkBehaviourAction::Dial { opts, handler }) => {
            assert!(opts.peer_id.same(&peer(1)));
            assert!(opts.addresses.is_none());
            assert_eq!(opts.condition, PeerCondition::Always);
            assert!(handler.peer_id().is_none());
        }
        _ => panic!("expected a dial"),
    }
    assert!(node.poll().is_none());
}

#[test]
fn every_request_without_a_connection_dials() {
    let mut node = Node::default();
    node.open_bi(&peer(1), 10);
    node.open_bi(&peer(1), 11);
    assert!(matches!(node.poll(), Some(NetworkBehaviourAction::Dial { .. })));
    assert!(matches!(node.poll(), Some(NetworkBehaviourAction::Dial { .. })));
    assert!(node.poll().is_none());
}

#[test]
fn connection_is_told_its_peer() {
    let mut node = Node::new();
    node.open_bi(&peer(1), 10);
    node.poll();
    assert!(node.on_swarm_event(established(1, 7)).is_empty());
    match node.poll() {
        Some(NetworkBehaviourAction::NotifyHandler {
            peer_id,
            connection_id,
            event: InEvent::ConnectionEstablished { peer_id: named },
        }) => {
            assert!(peer_id.same(&peer(1)));
            assert!(named.same(&peer(1)));
            assert_eq!(connection_id, ConnectionId(7));
        }
        _ => panic!("expected the peer to be named"),
    }
    // Streams asked for earlier are not opened by that.
    assert!(node.poll().is_none());
}

#[test]
fn requests_go_to_the_last_connection() {
    let mut node = Node::new();
    node.on_swarm_event(established(1, 7));
    node.on_swarm_event(established(1, 8));
    node.poll();
    node.poll();
    node.on_swarm_event(FromSwarm::ConnectionClosed(ConnectionClosed {
        peer_id: peer(1),
        connection_id: ConnectionId(8),
    }));
    node.open_bi(&peer(1), 10);
    match node.poll() {
        Some(NetworkBehaviourAction::NotifyHandler {
            connection_id,
            event: InEvent::OpenOutbound,
            ..
        }) => assert_eq!(connection_id, ConnectionId(8)),
        _ => panic!("expected a request for a stream"),
    }
}

#[test]
fn opened_streams_answer_requests_in_order() {
    let mut node = Node::new();
    node.open_bi(&peer(1), 10);
    node.open_bi(&peer(2), 20);
    node.open_bi(&peer(1), 11);
    for (expected, id) in [(10, 1), (11, 2)] {
        match deliver(&mut node, outbound(1, id)) {
            Delivery::Reply { reply, stream } => {
                assert_eq!(reply, expected);
                assert_eq!(stream.stream_id(), id);
            }
            other => panic!("expected a reply, got {other:?}"),
        }
    }
    assert!(matches!(deliver(&mut node, outbound(1, 3)), Delivery::Unrequested(s) if s.stream_id() == 3));
    assert!(matches!(deliver(&mut node, outbound(2, 1)), Delivery::Reply { reply: 20, .. }));
}

#[test]
fn accepted_streams_answer_requests_in_order() {
    let mut node = Node::new();
    node.accept_bi_from_peer(&peer(1), 10);
    node.accept_bi_from_peer(&peer(1), 11);
    assert!(matches!(deliver(&mut node, inbound(1, 0)), Delivery::Reply { reply: 10, .. }));
    assert!(matches!(deliver(&mut node, inbound(1, 1)), Delivery::Reply { reply: 11, .. }));
    assert!(node.poll().is_none());
    assert!(matches!(deliver(&mut node, inbound(1, 2)), Delivery::Reported));
    match node.poll() {
        Some(NetworkBehaviourAction::GenerateEvent(Event::IncomingStream(stream))) => {
            assert_eq!(stream.stream_id(), 2);
            assert!(stream.is_accept());
        }
        _ => panic!("expected a report"),
    }
}

#[test]
fn opening_and_accepting_do_not_mix() {
    let mut node = Node::new();
    node.accept_bi_from_peer(&peer(1), 10);
    assert!(matches!(deliver(&mut node, outbound(1, 1)), Delivery::Unrequested(_)));
    node.open_bi(&peer(1), 11);
    assert!(matches!(deliver(&mut node, inbound(1, 0)), Delivery::Reply { reply: 10, .. }));
    assert!(matches!(deliver(&mut node, outbound(1, 2)), Delivery::Reply { reply: 11, .. }));
}

#[test]
fn failed_dial_refuses_everyone_once() {
    let mut node = Node::new();
    node.open_bi(&peer(1), 10);
    node.open_bi(&peer(2), 20);
    node.open_bi(&peer(1), 11);
    let failed = node.on_swarm_event(dial_failure(Some(peer(1))));
    assert_eq!(failed.len(), 2);
    assert_eq!(failed[0].reply, 10);
    assert_eq!(failed[0].error, "Failed to dial peer: no route");
    assert_eq!(failed[1].reply, 11);
    assert_eq!(failed[1].error, "Failed to dial peer: no route");
    assert!(node.on_swarm_event(dial_failure(Some(peer(1)))).is_empty());
    assert!(matches!(deliver(&mut node, outbound(1, 1)), Delivery::Unrequested(_)));
    assert!(matches!(deliver(&mut node, outbound(2, 1)), Delivery::Reply { reply: 20, .. }));
}

#[test]
fn failed_dial_of_nobody_refuses_nobody() {
    let mut node = Node::new();
    node.open_bi(&peer(1), 10);
    assert!(node.on_swarm_event(dial_failure(None)).is_empty());
    assert!(node.on_swarm_event(FromSwarm::Other).is_empty());
    assert!(matches!(deliver(&mut node, outbound(1, 1)), Delivery::Reply { reply: 10, .. }));
}

#[test]
fn replying_handler_names_the_protocol() {
    assert_eq!(PROTOCOL_NAME, "/p2pstream/bistream/0.0.1");
    let mut usual = Handler::<&'static str>::new(None);
    assert_eq!(usual.listen_protocol().protocol_name, "/p2pstream/bistream/0.0.1");
    let mut other = Node::with_protocol_name("/z".to_string()).new_handler();
    assert_eq!(other.listen_protocol().protocol_name, "/z");
    let mut nameless = Handler::<&'static str>::default();
    assert_eq!(nameless.listen_protocol().protocol_name, "");
    assert_eq!(nameless.connection_keep_alive(), KeepAlive::Yes);
    assert_eq!(OpenInfo::default().stream_id, 0);
}

#[test]
fn replying_handler_numbers_streams() {
    let mut handler = Handler::<&'static str>::new(None);
    assert_eq!(handler.listen_protocol().info.stream_id, 0);
    assert_eq!(handler.listen_protocol().info.stream_id, 1);
    for expected in 1..4 {
        handler.on_behaviour_event(InEvent::OpenOutbound);
        assert_eq!(handler.outbound_stream_id(), expected);
    }
    for expected in 1..4 {
        match handler.poll() {
            Some(ConnectionHandlerEvent::OutboundSubstreamRequest { protocol }) => {
                assert_eq!(protocol.info.stream_id, expected)
            }
            other => panic!("expected a request for a substream, got {other:?}"),
        }
    }
    assert!(handler.poll().is_none());
}

#[test]
fn replying_handler_hands_streams_on() {
    let mut handler = Handler::<&'static str>::new(None);
    handler.on_behaviour_event(InEvent::ConnectionEstablished { peer_id: peer(1) });
    assert!(handler.peer_id().unwrap().same(&peer(1)));
    handler.on_connection_event(ConnectionEvent::DialUpgradeError);
    handler.on_connection_event(ConnectionEvent::AddressChange);
    handler.on_connection_event(ConnectionEvent::ListenUpgradeError);
    handler.on_connection_event(ConnectionEvent::FullyNegotiatedInbound {
        protocol: "in",
        info: OpenInfo { stream_id: 4 },
    });
    handler.on_connection_event(ConnectionEvent::FullyNegotiatedOutbound {
        protocol: "out",
        info: OpenInfo { stream_id: 5 },
    });
    match handler.poll() {
        Some(ConnectionHandlerEvent::Custom(OutEvent::InboundStream(stream))) => {
            assert_eq!((stream.stream_id(), stream.inner), (4, "in"));
            assert!(stream.is_accept() && stream.peer_id().same(&peer(1)));
        }
        other => panic!("expected an inbound stream, got {other:?}"),
    }
    match handler.poll() {
        Some(ConnectionHandlerEvent::Custom(OutEvent::OutboundStream(stream))) => {
            assert_eq!((stream.stream_id(), stream.inner), (5, "out"));
            assert!(stream.is_dial() && stream.peer_id().same(&peer(1)));
        }
        other => panic!("expected an outbound stream, got {other:?}"),
    }
}

#[test]
fn requested_stream_is_delivered_to_the_one_that_asked() {
    let mut node = Node::new();
    let mut handler = node.new_handler();
    node.on_swarm_event(established(1, 7));
    node.open_bi(&peer(1), 10);
    while let Some(action) = node.poll() {
        match action {
            NetworkBehaviourAction::NotifyHandler { event, .. } => {
                handler.on_behaviour_event(event)
            }
            _ => panic!("expected an event for the handler"),
        }
    }
    let info = match handler.poll() {
        Some(ConnectionHandlerEvent::OutboundSubstreamRequest { protocol }) => protocol.info,
        other => panic!("expected a request for a substream, got {other:?}"),
    };
    handler.on_connection_event(ConnectionEvent::FullyNegotiatedOutbound { protocol: "s", info });
    let event = match handler.poll() {
        Some(ConnectionHandlerEvent::Custom(event)) => event,
        other => panic!("expected a stream, got {other:?}"),
    };
    match deliver(&mut node, event) {
        Delivery::Reply { reply, stream } => {
            assert_eq!(reply, 10);
            assert_eq!(stream.stream_id(), 1);
            assert!(stream.peer_id().same(&peer(1)));
        }
        other => panic!("expected a reply, got {other:?}"),
    }
}

#[test]
fn answers_keep_the_order_whatever_else_happens() {
    let mut node = Node::new();
    let mut answered = Vec::new();
    node.open_bi(&peer(1), 10);
    node.accept_bi_from_peer(&peer(1), 30);
    node.open_bi(&peer(1), 11);
    node.open_bi(&peer(2), 20);
    node.on_swarm_event(established(1, 7));
    node.poll();
    if let Delivery::Reply { reply, .. } = deliver(&mut node, outbound(1, 1)) {
        answered.push(reply);
    }
    node.open_bi(&peer(1), 12);
    assert!(node.on_swarm_event(dial_failure(Some(peer(2)))).iter().all(|f| f.reply == 20));
    for failed in node.on_swarm_event(dial_failure(Some(peer(1)))) {
        answered.push(failed.reply);
    }
    assert!(matches!(deliver(&mut node, inbound(1, 0)), Delivery::Reply { reply: 30, .. }));
    node.open_bi(&peer(1), 13);
    if let Delivery::Reply { reply, .. } = deliver(&mut node, outbound(1, 2)) {
        answered.push(reply);
    }
    assert_eq!(answered, vec![10, 11, 12, 13]);
}

#[test]
fn replying_handler_numbers_streams_whatever_else_happens() {
    let mut handler = Handler::<&'static str>::new(None);
    let mut outbound = Vec::new();
    let mut inbound = Vec::new();
    for round in 0..3 {
        handler.on_behaviour_event(InEvent::OpenOutbound);
        inbound.push(handler.listen_protocol().info.stream_id);
        handler.on_behaviour_event(InEvent::ConnectionEstablished { peer_id: peer(round) });
        handler.on_connection_event(ConnectionEvent::FullyNegotiatedInbound {
            protocol: "in",
            info: OpenInfo { stream_id: 9 },
        });
        while let Some(event) = handler.poll() {
            if let ConnectionHandlerEvent::OutboundSubstreamRequest { protocol } = event {
                outbound.push(protocol.info.stream_id);
            }
        }
    }
    assert_eq!(outbound, vec![1, 2, 3]);
    assert_eq!(inbound, vec![0, 1, 2]);
}

#[test]
fn replying_behaviour_leaves_other_peers_alone() {
    let mut node = Node::new();
    node.open_bi(&peer(2), 20);
    node.accept_bi_from_peer(&peer(2), 21);
    node.open_bi(&peer(1), 10);
    node.on_swarm_event(established(1, 7));
    node.on_swarm_event(dial_failure(Some(peer(1))));
    deliver(&mut node, inbound(1, 0));
    assert!(matches!(deliver(&mut node, outbound(2, 1)), Delivery::Reply { reply: 20, .. }));
    assert!(matches!(deliver(&mut node, inbound(2, 0)), Delivery::Reply { reply: 21, .. }));
}

#[test]
fn replying_behaviour_can_be_shown() {
    let mut node = Node::new();
    node.open_bi(&peer(1), 1234);
    assert!(format!("{node:?}").contains("1234"));
    assert!(format!("{:?}", node.new_handler()).contains(PROTOCOL_NAME));
}
