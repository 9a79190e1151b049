use keystroke::peers::{Peer, PeerTable};

fn peer(id: &str, name: &str, port: u16, seen: u64) -> Peer {
    Peer { id: id.to_string(), name: name.to_string(), tcp_ip: 0x7f00_0001, tcp_port: port, last_seen: seen }
}

#[test]
fn upsert_and_get() {
    let mut t = PeerTable::new();
    assert!(t.upsert(peer("a", "Ann", 1, 0)));
    assert!(t.upsert(peer("b", "Bob", 2, 0)));
    // heard again with nothing new: no change to show
    assert!(!t.upsert(peer("a", "Ann", 1, 5)));
    assert_eq!(t.len(), 2);
    assert_eq!(t.get("a").unwrap().last_seen, 5);
    // a rename is a change
    assert!(t.upsert(peer("a", "Anna", 1, 6)));
    assert_eq!(t.get("a").unwrap().name, "Anna");
    assert!(t.get("zz").is_none());
    let snap = t.snapshot();
    assert_eq!(snap.len(), 2);
    assert_eq!(snap[0].id, "a");
    assert_eq!(snap[1].id, "b");
}

#[test]
fn reap_drops_stale_peers() {
    let mut t = PeerTable::new();
    t.upsert(peer("a", "Ann", 1, 1_000));
    t.upsert(peer("b", "Bob", 2, 9_000));
    assert!(t.reap(10_000, 6_000));
    assert_eq!(t.len(), 1);
    assert!(t.get("a").is_none());
    assert!(!t.reap(10_000, 6_000));
    // a clock that went backwards keeps the peer
    assert!(!t.reap(0, 6_000));
    assert_eq!(t.len(), 1);
}
