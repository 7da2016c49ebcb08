use libp2p_bistream::peer::{Multiaddr, PeerId};
use libp2p_bistream::stream::{BiStream, StreamOrigin};
use libp2p_bistream::swarm::{ConnectedPoint, ConnectionEstablished, ConnectionId};
use libp2p_bistream::text::decimal_text;

fn peer(bytes: Vec<u8>) -> PeerId {
    PeerId::from_bytes(bytes).unwrap()
}

fn sha256_peer() -> PeerId {
    let mut bytes = vec![0x12u8, 32];
    bytes.extend(0..32u8);
    peer(bytes)
}

fn stream(peer_id: PeerId, origin: StreamOrigin, stream_id: u64) -> BiStream<&'static str> {
    BiStream { peer_id, origin, stream_id, inner: "substream" }
}

#[test]
fn peer_id_has_the_form_of_a_multihash() {
    assert!(PeerId::from_bytes(vec![]).is_none());
    assert!(PeerId::from_bytes(vec![0]).is_none());
    assert!(PeerId::from_bytes(vec![0, 1]).is_none());
    assert!(PeerId::from_bytes(vec![0, 1, 7, 7]).is_none());
    assert!(PeerId::from_bytes(vec![0x11, 1, 7]).is_none());
    assert!(PeerId::from_bytes(vec![0, 0]).is_some());
    assert!(PeerId::from_bytes(vec![0, 1, 7]).is_some());
}

#[test]
fn peer_id_limits_the_length_of_the_digest() {
    let mut inline = vec![0u8, 42];
    inline.extend(vec![1u8; 42]);
    assert!(PeerId::from_bytes(inline).is_some());
    let mut long_inline = vec![0u8, 43];
    long_inline.extend(vec![1u8; 43]);
    assert!(PeerId::from_bytes(long_inline).is_none());
    let mut hash = vec![0x12u8, 64];
    hash.extend(vec![1u8; 64]);
    assert!(PeerId::from_bytes(hash).is_some());
    let mut long_hash = vec![0x12u8, 65];
    long_hash.extend(vec![1u8; 65]);
    assert!(PeerId::from_bytes(long_hash).is_none());
}

#[test]
fn peer_id_agrees_with_libp2p_on_what_is_one_in_the_shortest_form() {
    for code in [0u8, 0x11, 0x12, 0x13, 0x80] {
        for size in [0u8, 1, 41, 42, 43, 63, 64, 65, 127, 128, 255] {
            for extra in [-1i32, 0, 1] {
                let length = i32::from(size) + extra;
                let mut bytes = vec![code, size];
                bytes.extend(vec![5u8; usize::try_from(length.max(0)).unwrap()]);
                let theirs = libp2p::PeerId::from_bytes(&bytes).is_ok();
                assert_eq!(PeerId::from_bytes(bytes).is_some(), theirs);
            }
        }
    }
}

#[test]
fn peer_id_gives_back_its_bytes() {
    assert_eq!(peer(vec![0, 1, 7]).to_bytes(), &vec![0u8, 1, 7]);
    assert_eq!(peer(vec![0, 1, 7]).clone().to_bytes(), &vec![0u8, 1, 7]);
}

#[test]
fn peer_ids_are_the_same_by_their_bytes() {
    assert!(peer(vec![0, 1, 7]).same(&peer(vec![0, 1, 7])));
    assert!(!peer(vec![0, 1, 7]).same(&peer(vec![0, 1, 8])));
    assert!(!peer(vec![0, 1, 7]).same(&peer(vec![0, 2, 7, 7])));
}

#[test]
fn peer_id_in_base58() {
    assert_eq!(peer(vec![0, 0]).to_base58(), "11");
    assert_eq!(peer(vec![0, 1, 7]).to_base58(), "15Y");
    assert_eq!(peer(vec![0, 1, 8]).to_base58(), "15Z");
    assert_eq!(peer(vec![0, 2, 0, 0]).to_base58(), "1fxs");
    assert_eq!(peer(vec![0x12, 0]).to_base58(), "2NT");
    assert_eq!(sha256_peer().to_base58(), "QmNLfbof5rLekrACjeuLk9JmGZD2HDBHCU4z16iYKmx5SE");
}

#[test]
fn peer_id_text_is_read_back() {
    for peer_id in [peer(vec![0, 0]), peer(vec![0, 1, 7]), peer(vec![0x12, 0]), sha256_peer()] {
        let read = PeerId::from_str(&peer_id.to_base58()).unwrap();
        assert!(read.same(&peer_id));
    }
}

#[test]
fn peer_id_text_of_a_longer_form_is_read_as_the_shortest() {
    // The code 0x12, and the code 0, each in ten bytes.
    let mut hash = vec![0x92u8, 0x80, 0x80, 0x80, 0x80, 0x80, 0x80, 0x80, 0x80, 2, 32];
    hash.extend(0..32u8);
    let inline = vec![0x80u8, 0x80, 0x80, 0x80, 0x80, 0x80, 0x80, 0x80, 0x80, 2, 1, 7];
    assert_eq!(libp2p::PeerId::from_bytes(&hash).unwrap().to_bytes(), *sha256_peer().to_bytes());
    assert_eq!(libp2p::PeerId::from_bytes(&inline).unwrap().to_bytes(), vec![0u8, 1, 7]);
    assert!(PeerId::from_bytes(hash).is_none());
    assert!(PeerId::from_bytes(inline).is_none());
    let text = "BnvzLJArqZ6jHWZ7HguR3EGCwBcVKuxx6s4cS1bS5zcoo7FYHRVKyj3rVYa".to_string();
    let read = PeerId::from_str(&text).unwrap();
    assert!(read.same(&sha256_peer()));
    assert_ne!(read.to_base58(), text);
    let text = "3ReWR3uAzjm57vP8r".to_string();
    assert!(PeerId::from_str(&text).unwrap().same(&peer(vec![0, 1, 7])));
}

#[test]
fn peer_id_text_that_is_none() {
    // Not in the alphabet.
    assert!(PeerId::from_str(&"0OIl".to_string()).is_err());
    // Not a multihash.
    assert!(PeerId::from_str(&"1".to_string()).is_err());
    assert!(PeerId::from_str(&"".to_string()).is_err());
    // Text of the bytes 0x11, 1, 7.
    let other_code = "6fRG".to_string();
    assert!(PeerId::from_str(&other_code).is_err());
}

#[test]
fn peer_id_complaints_say_what_is_wrong() {
    let complaint = PeerId::from_str(&"0".to_string()).unwrap_err();
    let theirs = "0".parse::<libp2p::PeerId>().unwrap_err().to_string();
    assert_eq!(complaint, theirs);
    assert_ne!(complaint, "0");
}

#[test]
fn multiaddr_text_is_read() {
    let addr = Multiaddr::from_str(&"/ip4/127.0.0.1/tcp/4001".to_string()).unwrap();
    assert_eq!(addr.bytes, vec![4u8, 127, 0, 0, 1, 6, 0x0f, 0xa1]);
}

#[test]
fn multiaddr_text_that_is_none() {
    let complaint = Multiaddr::from_str(&"127.0.0.1".to_string()).unwrap_err();
    assert_eq!(complaint, "invalid multiaddr");
    assert!(Multiaddr::from_str(&"/tcp".to_string()).is_err());
}

#[test]
fn numbers_in_decimal() {
    assert_eq!(decimal_text(0), "0");
    assert_eq!(decimal_text(9), "9");
    assert_eq!(decimal_text(10), "10");
    assert_eq!(decimal_text(1203), "1203");
    assert_eq!(decimal_text(u64::MAX), "18446744073709551615");
}

#[test]
fn stream_is_shown_by_side_peer_and_number() {
    let accepted = stream(sha256_peer(), StreamOrigin::Inbound, 12);
    assert_eq!(accepted.to_string(), "accept:Qm…5SE:12");
    let dialed = stream(sha256_peer(), StreamOrigin::Outbound, 0);
    assert_eq!(dialed.to_string(), "dial:Qm…5SE:0");
}

#[test]
fn stream_to_a_peer_with_a_short_text() {
    assert_eq!(stream(peer(vec![0, 1, 7]), StreamOrigin::Outbound, 3).to_string(), "dial:15…15Y:3");
}

#[test]
fn streams_to_one_peer_are_told_apart() {
    let label = |origin, id| stream(sha256_peer(), origin, id).to_string();
    assert_eq!(label(StreamOrigin::Inbound, 1), label(StreamOrigin::Inbound, 1));
    assert_ne!(label(StreamOrigin::Inbound, 1), label(StreamOrigin::Outbound, 1));
    assert_ne!(label(StreamOrigin::Inbound, 1), label(StreamOrigin::Inbound, 11));
    assert_ne!(label(StreamOrigin::Inbound, 1), label(StreamOrigin::Inbound, 2));
}

#[test]
fn stream_says_what_it_is() {
    let accepted = stream(peer(vec![0, 1, 7]), StreamOrigin::Inbound, 12);
    assert_eq!(accepted.stream_id(), 12);
    assert!(accepted.peer_id().same(&peer(vec![0, 1, 7])));
    assert_eq!(*accepted.origin(), StreamOrigin::Inbound);
    assert!(accepted.is_accept());
    assert!(!accepted.is_dial());
    let dialed = stream(peer(vec![0, 1, 7]), StreamOrigin::Outbound, 12);
    assert_eq!(*dialed.origin(), StreamOrigin::Outbound);
    assert!(!dialed.is_accept());
    assert!(dialed.is_dial());
}

#[test]
fn origin_follows_from_the_side_of_the_connection() {
    let established = |endpoint| ConnectionEstablished {
        peer_id: peer(vec![0, 1, 7]),
        connection_id: ConnectionId(1),
        endpoint,
    };
    assert_eq!(StreamOrigin::from(established(ConnectedPoint::Dialer)), StreamOrigin::Outbound);
    assert_eq!(StreamOrigin::from(established(ConnectedPoint::Listener)), StreamOrigin::Inbound);
}
