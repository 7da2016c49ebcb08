use libp2p_bistream::peer::PeerId;
use libp2p_bistream::peer_map::PeerMap;
use libp2p_bistream::peer_queues::PeerQueues;

fn peer(n: u8) -> PeerId {
    PeerId::from_bytes(vec![0, 1, n]).unwrap()
}

#[test]
fn map_keeps_one_value_for_each_peer() {
    let mut map = PeerMap::new();
    assert!(!map.contains(&peer(1)));
    assert!(map.get(&peer(1)).is_none());
    map.insert(peer(1), 10);
    map.insert(peer(2), 20);
    map.insert(peer(1), 11);
    assert_eq!(map.get(&peer(1)), Some(&11));
    assert_eq!(map.get(&peer(2)), Some(&20));
    *map.get_mut(&peer(2)).unwrap() = 21;
    assert!(map.get_mut(&peer(3)).is_none());
    let mut peers: Vec<u8> = map.peers().iter().map(|p| p.to_bytes()[2]).collect();
    peers.sort();
    assert_eq!(peers, vec![1, 2]);
    assert_eq!(map.remove(&peer(2)), Some(21));
    assert_eq!(map.remove(&peer(2)), None);
    assert!(map.contains(&peer(1)));
    assert!(!map.contains(&peer(2)));
}

#[test]
fn queues_keep_the_order_for_each_peer() {
    let mut queues = PeerQueues::new();
    queues.push_back(&peer(1), 10);
    queues.push_back(&peer(2), 20);
    queues.push_back(&peer(1), 11);
    queues.push_back(&peer(2), 21);
    assert_eq!(queues.pop_front(&peer(1)), Some(10));
    assert_eq!(queues.pop_front(&peer(1)), Some(11));
    assert_eq!(queues.pop_front(&peer(1)), None);
    assert_eq!(queues.remove(&peer(2)), vec![20, 21]);
    assert!(queues.remove(&peer(2)).is_empty());
    assert_eq!(queues.pop_front(&peer(3)), None);
}
