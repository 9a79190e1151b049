use keystroke::lobby::{peer_address, peer_entries, text_less};
use keystroke::peers::{discovery_peer, Peer};

fn peer(id: &str, name: &str, ip: u32, port: u16) -> Peer {
    Peer { id: id.to_string(), name: name.to_string(), tcp_ip: ip, tcp_port: port, last_seen: 0 }
}

#[test]
fn addresses_are_written_as_socket_addresses() {
    assert_eq!(peer_address(0xc0a8_0105, 47000), "192.168.1.5:47000");
    assert_eq!(peer_address(0, 0), "0.0.0.0:0");
    assert_eq!(peer_address(u32::MAX, u16::MAX), "255.255.255.255:65535");
    assert_eq!(peer_address(0x7f00_0001, 80), "127.0.0.1:80");
}

#[test]
fn text_order_follows_str() {
    let words = ["", "a", "ab", "b", "B", "Zed", "ä", "a b", "ab\u{1F600}"];
    for x in words {
        for y in words {
            assert_eq!(text_less(x, y), x < y, "{:?} < {:?}", x, y);
        }
    }
}

#[test]
fn lobby_lists_by_name_then_address() {
    let peers = vec![
        peer("1", "Cy", 0x0a00_0002, 5),
        peer("2", "Ann", 0x0a00_0009, 5),
        peer("3", "Ann", 0x0a00_0001, 7),
        peer("4", "Bob", 0x0a00_0001, 1),
    ];
    let entries = peer_entries(&peers);
    let ids: Vec<&str> = entries.iter().map(|e| e.id.as_str()).collect();
    assert_eq!(ids, vec!["3", "2", "4", "1"]);
    assert_eq!(entries[0].address, "10.0.0.1:7");
    assert_eq!(entries[0].name, "Ann");
    // the address is compared as text: "10.0.0.1:7" comes before "10.0.0.9:5"
    assert!(peer_entries(&vec![]).is_empty());
}

#[test]
fn lobby_keeps_the_order_of_equal_places() {
    let peers = vec![peer("x", "Dup", 1, 1), peer("y", "Dup", 1, 1), peer("a", "Ann", 1, 1)];
    let ids: Vec<String> = peer_entries(&peers).into_iter().map(|e| e.id).collect();
    assert_eq!(ids, vec!["a", "x", "y"]);
}

#[test]
fn discovery_datagrams() {
    let p = discovery_peer("HELLO\tabc\t4000\tBob\r\n", "me", 0x0a00_0003, 77).unwrap();
    assert_eq!(p.id, "abc");
    assert_eq!(p.name, "Bob");
    assert_eq!(p.tcp_port, 4000);
    assert_eq!(p.tcp_ip, 0x0a00_0003);
    assert_eq!(p.last_seen, 77);
    // our own broadcast is ignored
    assert!(discovery_peer("HELLO\tme\t4000\tMe\n", "me", 1, 1).is_none());
    assert!(discovery_peer("junk", "me", 1, 1).is_none());
}
