use libp2p_bistream::manager::{
    AddrList, Connection, DialRequest, Endpoint, Error, Manager, ManagerEvent, OpenRequest,
    StreamAction,
};
use libp2p_bistream::peer::{Multiaddr, PeerId};
use libp2p_bistream::stream::{BiStream, StreamOrigin};
use libp2p_bistream::swarm::PeerCondition;

// Requests for connections and for streams are answered through numbers, and the two ends of
// a channel are numbers too.
type Desk = Manager<u32, u32, u32>;

fn peer(n: u8) -> PeerId {
    PeerId::from_bytes(vec![0, 1, n]).unwrap()
}

fn stream(n: u8, origin: StreamOrigin, stream_id: u64) -> BiStream<&'static str> {
    BiStream { peer_id: peer(n), origin, stream_id, inner: "s" }
}

fn addr(n: u8) -> Multiaddr {
    Multiaddr { bytes: vec![n] }
}

fn dial(desk: &mut Desk, n: u8, reply: u32) {
    desk.on_dial_request(Endpoint::connect(peer(n), reply));
}

fn open(desk: &mut Desk, n: u8, reply: u32) {
    desk.on_open_request(OpenRequest { peer_id: peer(n), reply });
}

fn handle(
    desk: &mut Desk,
    n: u8,
    origin: StreamOrigin,
    ends: (u32, u32),
) -> StreamAction<&'static str, u32, u32, u32> {
    desk.handle_stream(stream(n, origin, 1), || ends)
}

#[test]
fn errors_in_words() {
    assert_eq!(Error::ChannelClosed.to_string(), "Channel closed");
    assert_eq!(Error::DialFailed.to_string(), "Failed to dial peer");
}

#[test]
fn list_of_addresses_keeps_them() {
    assert!(AddrList::new().to_vec().is_empty());
    for length in [0u8, 1, 8, 9, 20] {
        let addrs: Vec<Multiaddr> = (0..length).map(addr).collect();
        let kept = AddrList::from_vec(addrs).to_vec();
        let bytes: Vec<Vec<u8>> = kept.into_iter().map(|a| a.bytes).collect();
        let expected: Vec<Vec<u8>> = (0..length).map(|n| vec![n]).collect();
        assert_eq!(bytes, expected);
    }
}

#[test]
fn connecting_makes_a_request() {
    let request = Endpoint::connect(peer(1), 5);
    assert!(request.peer_id.same(&peer(1)));
    assert_eq!(request.reply, 5);
    assert!(request.addrs.to_vec().is_empty());
    let request = Endpoint::connect_with_addrs(peer(1), AddrList::from_vec(vec![addr(3)]), 6);
    assert_eq!(request.reply, 6);
    assert_eq!(request.addrs.to_vec()[0].bytes, vec![3u8]);
}

#[test]
fn request_comes_to_its_answer() {
    assert_eq!(Endpoint::connected(true, Some(Ok(1))), Ok(1));
    assert_eq!(Endpoint::connected(true, Some(Err::<u8, _>(Error::DialFailed))), Err(Error::DialFailed));
    assert_eq!(Endpoint::connected::<u8>(true, None), Err(Error::ChannelClosed));
    assert_eq!(Endpoint::connected(false, Some(Ok(1))), Err(Error::ChannelClosed));
    assert_eq!(Connection::<u32>::opened(Some(Ok(1))), Ok(1));
    assert_eq!(Connection::<u32>::opened::<u8>(None), Err(Error::ChannelClosed));
    assert_eq!(
        Connection::<u32>::opened::<u8>(Some(Err(Error::ChannelClosed))),
        Err(Error::ChannelClosed)
    );
}

#[test]
fn channel_gives_an_item_or_is_closed() {
    assert_eq!(Endpoint::poll_accept::<u8>(None), None);
    assert_eq!(Endpoint::poll_accept(Some(Some(4))), Some(Ok(4)));
    assert_eq!(Endpoint::poll_accept::<u8>(Some(None)), Some(Err(Error::ChannelClosed)));
    assert_eq!(Connection::<u32>::poll_accept_stream::<u8>(None), None);
    assert_eq!(Connection::<u32>::poll_accept_stream(Some(Some(4))), Some(Ok(4)));
    assert_eq!(
        Connection::<u32>::poll_accept_stream::<u8>(Some(None)),
        Some(Err(Error::ChannelClosed))
    );
}

#[test]
fn connection_asks_for_streams_to_its_peer() {
    let conn = Connection { peer_id: peer(1), accept_rx: 0u32 };
    assert!(conn.peer_id().same(&peer(1)));
    let request = conn.open_stream(7);
    assert!(request.peer_id.same(&peer(1)));
    assert_eq!(request.reply, 7);
    assert_eq!(Connection::<u32>::unsent(request), (7, Error::ChannelClosed));
}

#[test]
fn dial_request_dials_unless_that_goes_on() {
    let mut desk = Desk::new();
    let addrs = AddrList::from_vec(vec![addr(3), addr(4)]);
    match desk.on_dial_request(DialRequest { peer_id: peer(1), addrs, reply: 5 }) {
        ManagerEvent::Dial(opts) => {
            assert!(opts.peer_id.same(&peer(1)));
            assert_eq!(opts.condition, PeerCondition::NotDialing);
            let addresses = opts.addresses.unwrap();
            assert_eq!(addresses.len(), 2);
            assert_eq!(addresses[0].bytes, vec![3u8]);
            assert_eq!(addresses[1].bytes, vec![4u8]);
        }
        other => panic!("expected a dial, got {other:?}"),
    }
}

#[test]
fn dialed_stream_makes_the_connection_once() {
    let mut desk = Desk::new();
    dial(&mut desk, 1, 5);
    assert!(desk.accept_channel(&peer(1)).is_none());
    match handle(&mut desk, 1, StreamOrigin::Outbound, (100, 200)) {
        StreamAction::Dialed { reply, conn, stream } => {
            assert_eq!(reply, 5);
            assert!(conn.peer_id().same(&peer(1)));
            assert_eq!(conn.accept_rx, 200);
            assert_eq!(stream.stream_id(), 1);
        }
        _ => panic!("expected a connection"),
    }
    assert_eq!(desk.accept_channel(&peer(1)), Some(&100));
    assert!(matches!(
        handle(&mut desk, 1, StreamOrigin::Inbound, (1, 2)),
        StreamAction::Accept { stream } if stream.is_accept()
    ));
    assert_eq!(desk.accept_channel(&peer(1)), Some(&100));
    assert!(matches!(
        handle(&mut desk, 1, StreamOrigin::Outbound, (1, 2)),
        StreamAction::Unrequested { stream } if stream.is_dial()
    ));
}

#[test]
fn open_requests_come_before_dial_requests_and_in_order() {
    let mut desk = Desk::new();
    dial(&mut desk, 1, 5);
    open(&mut desk, 1, 10);
    open(&mut desk, 2, 20);
    open(&mut desk, 1, 11);
    for expected in [10, 11] {
        match handle(&mut desk, 1, StreamOrigin::Outbound, (1, 2)) {
            StreamAction::Opened { reply, .. } => assert_eq!(reply, expected),
            _ => panic!("expected an answer to a request for a stream"),
        }
    }
    assert!(matches!(
        handle(&mut desk, 1, StreamOrigin::Outbound, (1, 2)),
        StreamAction::Dialed { reply: 5, .. }
    ));
    assert!(matches!(
        handle(&mut desk, 2, StreamOrigin::Outbound, (1, 2)),
        StreamAction::Opened { reply: 20, .. }
    ));
}

#[test]
fn failed_dial_is_answered_once() {
    let mut desk = Desk::new();
    assert_eq!(desk.handle_dial_failed(&peer(1)), None);
    dial(&mut desk, 1, 5);
    dial(&mut desk, 2, 6);
    assert_eq!(desk.handle_dial_failed(&peer(1)), Some((5, Error::DialFailed)));
    assert_eq!(desk.handle_dial_failed(&peer(1)), None);
    assert_eq!(desk.handle_dial_failed(&peer(2)), Some((6, Error::DialFailed)));
}

#[test]
fn later_dial_replaces_an_earlier_one() {
    let mut desk = Desk::new();
    dial(&mut desk, 1, 5);
    dial(&mut desk, 1, 6);
    assert_eq!(desk.handle_dial_failed(&peer(1)), Some((6, Error::DialFailed)));
    assert_eq!(desk.handle_dial_failed(&peer(1)), None);
}

#[test]
fn peer_connects_by_its_first_stream() {
    let mut desk = Desk::new();
    match handle(&mut desk, 1, StreamOrigin::Inbound, (100, 200)) {
        StreamAction::Incoming { conn, stream } => {
            assert!(conn.peer_id().same(&peer(1)));
            assert_eq!(conn.accept_rx, 200);
            assert!(stream.is_accept());
        }
        _ => panic!("expected a new connection"),
    }
    assert!(matches!(
        handle(&mut desk, 1, StreamOrigin::Inbound, (1, 2)),
        StreamAction::Accept { .. }
    ));
    assert_eq!(desk.accept_channel(&peer(1)), Some(&100));
}

#[test]
fn disconnected_peer_connects_anew() {
    let mut desk = Desk::new();
    handle(&mut desk, 1, StreamOrigin::Inbound, (100, 200));
    handle(&mut desk, 2, StreamOrigin::Inbound, (101, 201));
    open(&mut desk, 1, 10);
    open(&mut desk, 2, 20);
    desk.handle_disconnect(&peer(1));
    assert!(desk.accept_channel(&peer(1)).is_none());
    assert_eq!(desk.accept_channel(&peer(2)), Some(&101));
    assert!(matches!(
        handle(&mut desk, 1, StreamOrigin::Outbound, (1, 2)),
        StreamAction::Unrequested { .. }
    ));
    assert!(matches!(
        handle(&mut desk, 2, StreamOrigin::Outbound, (1, 2)),
        StreamAction::Opened { reply: 20, .. }
    ));
    assert!(matches!(
        handle(&mut desk, 1, StreamOrigin::Inbound, (102, 202)),
        StreamAction::Incoming { .. }
    ));
    assert_eq!(desk.accept_channel(&peer(1)), Some(&102));
}

#[test]
fn incoming_connection_takes_over() {
    let mut desk = Desk::new();
    let conn = desk.handle_connection_incoming(peer(1), || (100, 200u32));
    assert!(conn.peer_id().same(&peer(1)));
    assert_eq!(conn.accept_rx, 200);
    assert_eq!(desk.accept_channel(&peer(1)), Some(&100));
    desk.handle_connection_incoming(peer(1), || (101, 201u32));
    assert_eq!(desk.accept_channel(&peer(1)), Some(&101));
}

#[test]
fn dial_requests_are_taken_up_before_open_requests() {
    let mut desk = Desk::new();
    let event = desk.poll(
        || Some(Endpoint::connect(peer(1), 5)),
        || -> Option<OpenRequest<u32>> { panic!("not to be looked for") },
    );
    assert!(matches!(event, Some(ManagerEvent::Dial(opts)) if opts.peer_id.same(&peer(1))));
    let event = desk.poll(|| None, || Some(OpenRequest { peer_id: peer(2), reply: 6 }));
    assert!(matches!(event, Some(ManagerEvent::Open(p)) if p.same(&peer(2))));
    assert!(desk.poll(|| None, || None).is_none());
    assert_eq!(desk.handle_dial_failed(&peer(1)), Some((5, Error::DialFailed)));
    assert!(matches!(
        handle(&mut desk, 2, StreamOrigin::Outbound, (1, 2)),
        StreamAction::Opened { reply: 6, .. }
    ));
}

#[test]
fn no_channel_is_made_without_need() {
    let mut desk = Desk::new();
    let none = || -> (u32, u32) { panic!("not to be made") };
    assert!(matches!(
        desk.handle_stream(stream(1, StreamOrigin::Outbound, 1), none),
        StreamAction::Unrequested { .. }
    ));
    open(&mut desk, 1, 10);
    assert!(matches!(
        desk.handle_stream(stream(1, StreamOrigin::Outbound, 1), none),
        StreamAction::Opened { reply: 10, .. }
    ));
    handle(&mut desk, 1, StreamOrigin::Inbound, (100, 200));
    assert!(matches!(
        desk.handle_stream(stream(1, StreamOrigin::Inbound, 1), none),
        StreamAction::Accept { .. }
    ));
}

#[test]
fn open_requests_keep_the_order_whatever_else_happens() {
    let mut desk = Desk::new();
    let mut opened = Vec::new();
    open(&mut desk, 1, 10);
    dial(&mut desk, 1, 5);
    open(&mut desk, 1, 11);
    handle(&mut desk, 1, StreamOrigin::Inbound, (100, 200));
    if let StreamAction::Opened { reply, .. } = handle(&mut desk, 1, StreamOrigin::Outbound, (1, 2)) {
        opened.push(reply);
    }
    open(&mut desk, 2, 20);
    desk.handle_disconnect(&peer(2));
    desk.handle_dial_failed(&peer(1));
    open(&mut desk, 1, 12);
    while let StreamAction::Opened { reply, .. } =
        handle(&mut desk, 1, StreamOrigin::Outbound, (1, 2))
    {
        opened.push(reply);
    }
    assert_eq!(opened, vec![10, 11, 12]);
}

#[test]
fn dial_requests_are_done_with_once_whatever_else_happens() {
    let mut desk = Desk::new();
    dial(&mut desk, 1, 5);
    open(&mut desk, 1, 10);
    dial(&mut desk, 1, 6);
    desk.handle_disconnect(&peer(1));
    assert!(matches!(
        handle(&mut desk, 1, StreamOrigin::Outbound, (1, 2)),
        StreamAction::Dialed { reply: 6, .. }
    ));
    assert_eq!(desk.handle_dial_failed(&peer(1)), None);
    dial(&mut desk, 1, 7);
    assert_eq!(desk.handle_dial_failed(&peer(1)), Some((7, Error::DialFailed)));
}

#[test]
fn peer_stays_connected_until_it_is_gone() {
    let mut desk = Desk::new();
    handle(&mut desk, 1, StreamOrigin::Inbound, (100, 200));
    dial(&mut desk, 1, 5);
    desk.handle_dial_failed(&peer(1));
    desk.handle_disconnect(&peer(2));
    desk.handle_connection_incoming(peer(1), || (101, 201u32));
    assert!(matches!(
        handle(&mut desk, 1, StreamOrigin::Inbound, (1, 2)),
        StreamAction::Accept { .. }
    ));
}

#[test]
fn connection_can_be_held_twice() {
    let conn = Connection { peer_id: peer(1), accept_rx: vec![3u8] };
    let other = conn.clone();
    assert!(other.peer_id().same(&peer(1)));
    assert_eq!(other.accept_rx, vec![3u8]);
    assert_eq!(conn.accept_rx, other.accept_rx);
}

#[test]
fn manager_can_be_shown() {
    let mut desk = Desk::new();
    dial(&mut desk, 1, 1234);
    assert!(format!("{desk:?}").contains("1234"));
}
