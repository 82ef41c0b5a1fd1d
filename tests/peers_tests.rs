use p2p_peers::addr::{IpAddress, PeerAddr};
use p2p_peers::peer::{Message, Peer, State};
use p2p_peers::peers::{keepalive_message, Peers, LISTEN_PORT, MAX_PENDING, PING_PERIOD};

fn v4(a: u8, b: u8, c: u8, d: u8, port: u16) -> PeerAddr {
    let ip = ((a as u32) << 24) | ((b as u32) << 16) | ((c as u32) << 8) | (d as u32);
    PeerAddr::new(IpAddress::V4(ip), port)
}

fn peer(addr: PeerAddr, state: State, public: bool) -> Peer<u32> {
    Peer::new(addr, 0, state, public)
}

#[test]
fn intake_example_drops_loopback() {
    let mut peers: Peers<u32> = Peers::new();
    peers.add_peers_from_exchange(vec![v4(127, 0, 0, 1, 9000), v4(203, 0, 113, 5, 9000)]);
    assert_eq!(peers.take_new_peers(), vec![v4(203, 0, 113, 5, 9000)]);
}

#[test]
fn intake_drops_duplicates_and_known_hosts() {
    let mut peers: Peers<u32> = Peers::new();
    peers.add_peer(1, peer(v4(10, 0, 0, 1, 51000), State::Idle { since: 0 }, true));
    peers.add_peers_from_exchange(vec![
        v4(10, 0, 0, 2, 4244),
        v4(10, 0, 0, 2, 4244),
        v4(10, 0, 0, 1, 4244),
        v4(10, 0, 0, 3, 4244),
    ]);
    peers.add_peers_from_exchange(vec![v4(10, 0, 0, 3, 4244), v4(10, 0, 0, 2, 4245)]);
    assert_eq!(
        peers.take_new_peers(),
        vec![v4(10, 0, 0, 2, 4244), v4(10, 0, 0, 3, 4244), v4(10, 0, 0, 2, 4245)]
    );
}

#[test]
fn intake_never_queues_loopback() {
    let mut peers: Peers<u32> = Peers::new();
    peers.add_peers_from_exchange(vec![
        v4(127, 255, 3, 9, 4244),
        PeerAddr::new(IpAddress::V6(1), 4244),
        PeerAddr::new(IpAddress::V6(2), 4244),
        v4(126, 255, 255, 255, 4244),
        v4(128, 0, 0, 1, 4244),
    ]);
    assert_eq!(
        peers.take_new_peers(),
        vec![PeerAddr::new(IpAddress::V6(2), 4244), v4(126, 255, 255, 255, 4244), v4(128, 0, 0, 1, 4244)]
    );
}

#[test]
fn intake_stops_at_queue_bound() {
    let mut peers: Peers<u32> = Peers::new();
    let mut batch = Vec::new();
    for i in 0..(MAX_PENDING as u32 + 10) {
        batch.push(PeerAddr::new(IpAddress::V4(0x0a00_0000 + i), 4244));
    }
    peers.add_peers_from_exchange(batch.clone());
    let queued = peers.take_new_peers();
    assert_eq!(queued.len(), MAX_PENDING);
    assert_eq!(queued[..], batch[..MAX_PENDING]);
}

#[test]
fn loopback_addresses() {
    assert!(v4(127, 0, 0, 1, 1).is_loopback());
    assert!(v4(127, 1, 2, 3, 1).is_loopback());
    assert!(!v4(126, 0, 0, 1, 1).is_loopback());
    assert!(IpAddress::V6(1).is_loopback());
    assert!(!IpAddress::V6(0).is_loopback());
    assert!(!IpAddress::V6(0xffff_7f00_0001).is_loopback());
}

#[test]
fn exchange_excludes_requester_and_private_peers() {
    let mut peers: Peers<u32> = Peers::new();
    peers.add_peer(1, peer(v4(10, 0, 0, 1, 51000), State::Idle { since: 0 }, true));
    peers.add_peer(2, peer(v4(10, 0, 0, 2, 51001), State::Idle { since: 0 }, false));
    peers.add_peer(3, peer(v4(10, 0, 0, 3, 51002), State::Connecting, true));
    peers.add_peer(4, peer(v4(10, 0, 0, 4, 51003), State::Idle { since: 0 }, true));
    let list = peers.get_peers_for_exchange(&v4(10, 0, 0, 4, 60000));
    assert_eq!(list, vec![v4(10, 0, 0, 1, LISTEN_PORT), v4(10, 0, 0, 3, LISTEN_PORT)]);
    for a in list.iter() {
        assert_eq!(a.port, LISTEN_PORT);
        assert!(a.ip != v4(10, 0, 0, 4, 0).ip);
    }
}

#[test]
fn exchange_on_empty_table() {
    let peers: Peers<u32> = Peers::new();
    assert!(peers.get_peers_for_exchange(&v4(10, 0, 0, 1, 1)).is_empty());
}

#[test]
fn skip_example_idle_then_sending() {
    let mut peers: Peers<u32> = Peers::new();
    let addr = v4(203, 0, 113, 5, 9000);
    peers.add_peer(7, peer(addr, State::Idle { since: 0 }, true));
    assert!(!peers.skip_peer_connection(&addr));
    peers.get_mut_peer(&7).unwrap().set_state(State::message(Message::GetPeers));
    assert!(peers.skip_peer_connection(&addr));
}

#[test]
fn skip_rules() {
    let mut peers: Peers<u32> = Peers::new();
    assert!(!peers.skip_peer_connection(&v4(10, 0, 0, 1, 1)));
    peers.add_peer(1, peer(v4(10, 0, 0, 1, 1), State::Idle { since: 0 }, false));
    peers.add_peer(2, peer(v4(10, 0, 0, 2, 1), State::Connecting, true));
    let mut disabled = peer(v4(10, 0, 0, 3, 1), State::Idle { since: 0 }, true);
    disabled.set_disabled(true);
    peers.add_peer(3, disabled);
    peers.add_peer(4, peer(v4(10, 0, 0, 4, 1), State::Idle { since: 0 }, true));
    assert!(peers.skip_peer_connection(&v4(10, 0, 0, 1, 9)));
    assert!(peers.skip_peer_connection(&v4(10, 0, 0, 2, 9)));
    assert!(peers.skip_peer_connection(&v4(10, 0, 0, 3, 9)));
    assert!(!peers.skip_peer_connection(&v4(10, 0, 0, 4, 9)));
    assert!(!peers.skip_peer_connection(&v4(10, 0, 0, 5, 9)));
}

#[test]
fn drain_empty_queue_is_noop() {
    let mut peers: Peers<u32> = Peers::new();
    peers.add_peer(1, peer(v4(10, 0, 0, 1, 1), State::Connecting, true));
    assert!(peers.take_new_peers().is_empty());
    assert!(peers.take_new_peers().is_empty());
    assert!(peers.get_peer(&1).is_some());
}

#[test]
fn drain_empties_queue() {
    let mut peers: Peers<u32> = Peers::new();
    peers.add_peers_from_exchange(vec![v4(10, 0, 0, 1, 1), v4(10, 0, 0, 2, 1)]);
    assert_eq!(peers.take_new_peers().len(), 2);
    assert!(peers.take_new_peers().is_empty());
    peers.add_peers_from_exchange(vec![v4(10, 0, 0, 1, 1)]);
    assert_eq!(peers.take_new_peers(), vec![v4(10, 0, 0, 1, 1)]);
}

#[test]
fn keepalive_timing() {
    let mut peers: Peers<u32> = Peers::new();
    peers.add_peer(1, peer(v4(10, 0, 0, 1, 1), State::Idle { since: 100 }, true));
    peers.add_peer(2, peer(v4(10, 0, 0, 2, 1), State::Idle { since: 101 }, true));
    peers.add_peer(3, peer(v4(10, 0, 0, 3, 1), State::Connecting, true));
    peers.add_peer(4, peer(v4(10, 0, 0, 4, 1), State::Idle { since: 50 }, true));
    peers.add_peer(5, peer(v4(10, 0, 0, 5, 1), State::Idle { since: 200 }, true));
    let armed = peers.send_pings(100 + PING_PERIOD, 77);
    assert_eq!(armed, vec![1, 4]);
    for token in [1usize, 4] {
        match peers.get_peer(&token).unwrap().get_state() {
            State::Sending { message } => {
                assert!(message == Message::GetPeers || message == Message::Ping { height: 77 })
            }
            other => panic!("peer {} not sending: {:?}", token, other),
        }
    }
    assert_eq!(peers.get_peer(&2).unwrap().get_state(), State::Idle { since: 101 });
    assert_eq!(peers.get_peer(&3).unwrap().get_state(), State::Connecting);
    assert_eq!(peers.get_peer(&5).unwrap().get_state(), State::Idle { since: 200 });
    assert!(peers.send_pings(100 + PING_PERIOD, 77).is_empty());
}

#[test]
fn keepalive_payload_choice() {
    assert_eq!(keepalive_message(0, 9), Message::GetPeers);
    assert_eq!(keepalive_message(15, 9), Message::GetPeers);
    assert_eq!(keepalive_message(16, 9), Message::Ping { height: 9 });
    assert_eq!(keepalive_message(255, 9), Message::ping(9));
}

#[test]
fn table_insert_lookup_remove() {
    let mut peers: Peers<u32> = Peers::new();
    assert!(peers.get_peer(&1).is_none());
    assert!(peers.get_mut_peer(&1).is_none());
    assert!(peers.remove_peer(&1).is_none());
    peers.add_peer(1, Peer::new(v4(10, 0, 0, 1, 1), 11, State::Connecting, false));
    peers.add_peer(2, Peer::new(v4(10, 0, 0, 2, 1), 22, State::Connecting, false));
    peers.add_peer(1, Peer::new(v4(10, 0, 0, 9, 1), 99, State::Idle { since: 3 }, true));
    let p = peers.get_peer(&1).unwrap();
    assert_eq!(p.get_addr(), v4(10, 0, 0, 9, 1));
    assert_eq!(*p.get_stream(), 99);
    peers.get_mut_peer(&2).unwrap().set_public(true);
    assert!(peers.get_peer(&2).unwrap().is_public());
    let removed = peers.remove_peer(&2).unwrap();
    assert_eq!(removed.into_stream(), 22);
    assert!(peers.get_peer(&2).is_none());
    assert!(peers.get_peer(&1).is_some());
}

#[test]
fn admit_outbound_is_public_and_connecting() {
    let mut peers: Peers<u32> = Peers::new();
    peers.admit_outbound(5, v4(10, 0, 0, 1, 4244), 55);
    let p = peers.get_peer(&5).unwrap();
    assert_eq!(p.get_state(), State::Connecting);
    assert!(p.is_public());
    assert!(!p.disabled());
    assert!(p.active());
    assert!(p.equals(&v4(10, 0, 0, 1, 1)));
    assert!(!p.equals(&v4(10, 0, 0, 2, 4244)));
}
