use std::time::{Duration, Instant};

use libp2p_bistream::bench::{
    event_step, message, BenchLoop, EventStep, NodeEvent, Step, MESSAGE_BYTE, MESSAGE_SIZE,
    READ_BUFFER_SIZE,
};
use libp2p_bistream::cli::{
    collect_addrs, dial_command, key_bytes, listen_command, Args, Command, Mode, ParseError,
};
use libp2p_bistream::peer::{Multiaddr, PeerId};
use libp2p_bistream::reporter::{Reporter, REPORT_INTERVAL};
use libp2p_bistream::stream::{BiStream, StreamOrigin};

fn addr(n: u8) -> Multiaddr {
    Multiaddr { bytes: vec![n] }
}

#[test]
fn bytes_are_counted_until_a_report() {
    let mut reporter = Reporter::new("name".to_string());
    assert_eq!(REPORT_INTERVAL, 1_000_000_000);
    assert!(!reporter.push_after(10, 0));
    assert!(!reporter.push_after(5, REPORT_INTERVAL));
    assert!(reporter.push_after(1, REPORT_INTERVAL + 1));
    let report = reporter.report_after(7, 3, Instant::now());
    assert_eq!(report.name, "name");
    assert_eq!((report.total, report.current), (16, 16));
    assert_eq!((report.elapsed, report.since_last), (7, 3));
    reporter.push_after(4, 0);
    let report = reporter.report_after(9, 2, Instant::now());
    assert_eq!((report.total, report.current), (20, 4));
    assert_eq!(reporter.total(), 20);
}

#[test]
fn reports_add_up_to_the_total() {
    let mut reporter = Reporter::new(String::new());
    let mut reported = 0;
    for n in 1..=10usize {
        reporter.push_after(n, 0);
        if n % 3 == 0 {
            reported += reporter.report().current;
        }
    }
    assert_eq!(reported, 45);
    assert_eq!(reporter.report().current, 10);
    assert_eq!(reporter.report().current, 0);
    assert_eq!(reporter.total(), 55);
}

#[test]
fn no_report_is_due_at_once() {
    let mut reporter = Reporter::new("name".to_string());
    assert!(reporter.push(3).is_none());
    assert_eq!(reporter.total(), 3);
}

#[test]
fn report_is_due_after_the_interval() {
    let mut reporter = Reporter::new("name".to_string());
    let start = Instant::now();
    let report = loop {
        if let Some(report) = reporter.push(1) {
            break report;
        }
    };
    assert!(start.elapsed() > Duration::from_millis(900));
    assert!(report.since_last > REPORT_INTERVAL);
    assert!(report.elapsed > REPORT_INTERVAL);
    assert_eq!(report.total, report.current);
    assert_eq!(reporter.report().current, 0);
}

#[test]
fn message_is_of_one_byte() {
    assert_eq!((READ_BUFFER_SIZE, MESSAGE_SIZE, MESSAGE_BYTE), (64 * 1024, 64 * 1024, 8));
    assert_eq!(message(), vec![8u8; 64 * 1024]);
}

#[test]
fn reading_counts_bytes() {
    let mut bench = BenchLoop::new("s".to_string());
    assert!(matches!(bench.on_read(Ok(10)), Step::Continue(None)));
    assert!(matches!(bench.on_read(Ok(5)), Step::Continue(None)));
    assert_eq!(bench.totals(), (15, 0));
}

#[test]
fn reading_goes_on_after_an_error_and_ends_at_the_end() {
    let mut bench = BenchLoop::new("s".to_string());
    assert!(matches!(
        bench.on_read(Err("broken".to_string())),
        Step::Complain(text) if text == "READ ERROR on s: broken"
    ));
    assert!(matches!(bench.on_read(Ok(0)), Step::Stop(text) if text == "READ s: EOF"));
    assert_eq!(bench.totals(), (0, 0));
}

#[test]
fn writing_counts_messages_and_ends_after_an_error() {
    let mut bench = BenchLoop::new("s".to_string());
    assert!(matches!(bench.on_write(Ok(())), Step::Continue(None)));
    assert!(matches!(bench.on_write(Ok(())), Step::Continue(None)));
    assert_eq!(bench.totals(), (0, 2 * 65536));
    assert!(matches!(
        bench.on_write(Err("broken".to_string())),
        Step::Stop(text) if text == "WRITE ERROR on s: broken"
    ));
}

#[test]
fn node_events_are_shown_tested_or_end_the_program() {
    let addrs = vec!["/a".to_string(), "/b".to_string()];
    match event_step::<()>(NodeEvent::TicketReady(addrs)) {
        EventStep::Show(lines) => {
            assert_eq!(lines, vec!["Ticket ready!", "  addr /a", "  addr /b"])
        }
        other => panic!("expected lines, got {other:?}"),
    }
    let stream = BiStream {
        peer_id: PeerId::from_bytes(vec![0, 1, 7]).unwrap(),
        origin: StreamOrigin::Inbound,
        stream_id: 2,
        inner: (),
    };
    match event_step(NodeEvent::IncomingStream(stream)) {
        EventStep::Bench { stream, name } => {
            assert_eq!(name, "accept:15…15Y:2");
            assert_eq!(stream.stream_id(), 2);
        }
        other => panic!("expected a test, got {other:?}"),
    }
    assert!(matches!(
        event_step::<()>(NodeEvent::NodeError("gone".to_string())),
        EventStep::Stop(text) if text == "ERROR gone"
    ));
}

#[test]
fn first_complaint_about_an_address_counts() {
    let attempts = vec![Ok(addr(1)), Err("first".to_string()), Ok(addr(2)), Err("second".to_string())];
    assert_eq!(collect_addrs(attempts).unwrap_err(), "first");
    let addrs = collect_addrs(vec![Ok(addr(1)), Ok(addr(2))]).unwrap();
    assert_eq!(addrs, vec![addr(1), addr(2)]);
    assert!(collect_addrs(vec![]).unwrap().is_empty());
}

#[test]
fn listening_with_and_without_relays() {
    assert!(matches!(listen_command(Ok(vec![])), Ok(Command::Listen { relays: None })));
    assert!(matches!(
        listen_command(Ok(vec![addr(1)])),
        Ok(Command::Listen { relays: Some(relays) }) if relays == vec![addr(1)]
    ));
    assert!(matches!(
        listen_command(Err("bad".to_string())),
        Err(ParseError::Multiaddr(text)) if text == "bad"
    ));
}

#[test]
fn complaint_about_the_peer_comes_first() {
    let bad = || "bad peer".to_string();
    assert!(matches!(
        dial_command(Some(Err(bad())), Err("bad address".to_string())),
        Err(ParseError::PeerId(text)) if text == "bad peer"
    ));
    assert!(matches!(
        dial_command(None, Err("bad address".to_string())),
        Err(ParseError::Multiaddr(text)) if text == "bad address"
    ));
    let peer = PeerId::from_bytes(vec![0, 1, 7]).unwrap();
    assert!(matches!(
        dial_command(Some(Ok(peer.clone())), Ok(vec![addr(1)])),
        Ok(Command::DialAddrs { addrs, open: Some(p) }) if addrs == vec![addr(1)] && p.same(&peer)
    ));
    assert!(matches!(
        dial_command(None, Ok(vec![addr(1)])),
        Ok(Command::DialAddrs { addrs, open: None }) if addrs == vec![addr(1)]
    ));
}

#[test]
fn modes_become_commands() {
    let loopback = "/ip4/127.0.0.1/tcp/4001".to_string();
    let bytes = vec![4u8, 127, 0, 0, 1, 6, 0x0f, 0xa1];
    let args = Args { seed: None, mode: Mode::Listen { relays: vec![] } };
    assert!(args.seed.is_none());
    assert!(matches!(args.mode.command(), Ok(Command::Listen { relays: None })));
    match (Mode::Listen { relays: vec![loopback.clone(), "/memory/1".to_string()] }).command() {
        Ok(Command::Listen { relays: Some(relays) }) => {
            assert_eq!(relays.len(), 2);
            assert_eq!(relays[0].bytes, bytes);
        }
        other => panic!("expected relays, got {other:?}"),
    }
    match (Mode::ConnectPeer { peer_id: "15Y".to_string(), addr: vec![loopback.clone()] }).command() {
        Ok(Command::DialAddrs { addrs, open: Some(peer) }) => {
            assert_eq!(addrs[0].bytes, bytes);
            assert_eq!(peer.to_bytes(), &vec![0u8, 1, 7]);
        }
        other => panic!("expected a peer, got {other:?}"),
    }
    match (Mode::ConnectAddr { addr: loopback }).command() {
        Ok(Command::DialAddrs { addrs, open: None }) => {
            assert_eq!(addrs.len(), 1);
            assert_eq!(addrs[0].bytes, bytes);
        }
        other => panic!("expected an address, got {other:?}"),
    }
    assert!(matches!(
        (Mode::ConnectTicket { ticket: "t".to_string() }).command(),
        Ok(Command::DialTicket { ticket }) if ticket == "t"
    ));
}

#[test]
fn modes_that_cannot_be_read() {
    let error = (Mode::ConnectAddr { addr: "x".to_string() }).command().unwrap_err();
    assert!(matches!(&error, ParseError::Multiaddr(_)));
    assert_eq!(error.to_string(), "invalid multiaddr");
    let error = (Mode::ConnectPeer { peer_id: "0".to_string(), addr: vec!["x".to_string()] })
        .command()
        .unwrap_err();
    assert!(matches!(&error, ParseError::PeerId(_)));
    assert_eq!(error.to_string(), "0".parse::<libp2p::PeerId>().unwrap_err().to_string());
    let error = (Mode::ConnectPeer { peer_id: "15Y".to_string(), addr: vec!["x".to_string()] })
        .command()
        .unwrap_err();
    assert!(matches!(&error, ParseError::Multiaddr(_)));
    let error = (Mode::Listen { relays: vec!["/tcp".to_string()] }).command().unwrap_err();
    assert!(matches!(&error, ParseError::Multiaddr(_)));
}

#[test]
fn key_is_the_start_of_the_seed() {
    assert_eq!(key_bytes(&vec![]), vec![0u8; 32]);
    let mut short = vec![0u8; 32];
    short[0] = 7;
    short[1] = 9;
    assert_eq!(key_bytes(&vec![7, 9]), short);
    assert_eq!(key_bytes(&(0..40).collect()), (0..32).collect::<Vec<u8>>());
}

#[test]
fn peer_is_read_apart_from_the_rest() {
    let mode = || Mode::ConnectPeer { peer_id: "15Y".to_string(), addr: vec![] };
    let peer = mode().peer();
    assert!(matches!(&peer, Some(Ok(p)) if p.to_bytes() == &vec![0u8, 1, 7]));
    assert!(matches!(
        mode().command_for(peer),
        Ok(Command::DialAddrs { addrs, open: Some(p) }) if addrs.is_empty() && p.to_base58() == "15Y"
    ));
    assert!(matches!(
        mode().command_for(Some(Err("bad".to_string()))),
        Err(ParseError::PeerId(text)) if text == "bad"
    ));
    assert!(matches!(
        mode().command_for(None),
        Ok(Command::DialAddrs { open: None, .. })
    ));
    assert!((Mode::Listen { relays: vec![] }).peer().is_none());
    let unread = Mode::ConnectPeer { peer_id: "0".to_string(), addr: vec![] };
    assert!(matches!(unread.peer(), Some(Err(_))));
}
