use keystroke::ids::{id_from_entropy, short_id};
use keystroke::wire::{parse_hello, parse_hello_tcp};

#[test]
fn parse_hello_udp_basic() {
    let h = parse_hello("HELLO\tabcd1234\t5555\tAlice").unwrap();
    assert_eq!(h.id, "abcd1234");
    assert_eq!(h.tcp_port, 5555);
    assert_eq!(h.name, "Alice");
}

#[test]
fn parse_hello_udp_name_with_spaces() {
    let h = parse_hello("HELLO\tx\t1\tAlice the Great").unwrap();
    assert_eq!(h.name, "Alice the Great");
}

#[test]
fn parse_hello_udp_rejects_garbage() {
    assert!(parse_hello("GARBAGE").is_none());
    assert!(parse_hello("HELLO\t\t1\tname").is_none()); // empty id
    assert!(parse_hello("HELLO\tid\tnotaport\tname").is_none());
}

#[test]
fn parse_hello_tcp_basic() {
    let h = parse_hello_tcp("HELLO\tabcd\tBob").unwrap();
    assert_eq!(h.id, "abcd");
    assert_eq!(h.name, "Bob");
}

#[test]
fn short_id_handles_short_inputs() {
    assert_eq!(short_id("abc"), "abc");
    assert_eq!(short_id("abcdef"), "abcd");
    assert_eq!(short_id(""), "");
}

#[test]
fn ids_from_distinct_clock_readings_are_unique() {
    let mut seen = std::collections::HashSet::new();
    for i in 0..1000u64 {
        let id = id_from_entropy(1_700_000_000_000_000_000 + i, 0x7ffd_1234_5678);
        assert_eq!(id.len(), 16);
        assert!(seen.insert(id));
    }
}

#[test]
fn id_is_the_splitmix_finalizer_in_hex() {
    // nanos = 0 and address = 0 mix to 0
    assert_eq!(id_from_entropy(0, 0), "0000000000000000");
    // nanos = 0 and address = 1: the SplitMix64 finalizer of 1
    assert_eq!(id_from_entropy(0, 1), "5692161d100b05e5");
}

#[test]
fn parse_hello_without_name_is_player() {
    let h = parse_hello("HELLO\tid\t42").unwrap();
    assert_eq!(h.id, "id");
    assert_eq!(h.tcp_port, 42);
    assert_eq!(h.name, "Player");
    let h = parse_hello_tcp("HELLO\tid").unwrap();
    assert_eq!(h.name, "Player");
    assert_eq!(h.tcp_port, 0);
}

#[test]
fn parse_hello_port_edge_cases() {
    assert_eq!(parse_hello("HELLO\tid\t65535\tn").unwrap().tcp_port, 65535);
    assert!(parse_hello("HELLO\tid\t65536\tn").is_none());
    assert_eq!(parse_hello("HELLO\tid\t+7\tn").unwrap().tcp_port, 7);
    assert!(parse_hello("HELLO\tid\t+\tn").is_none());
    assert!(parse_hello("HELLO\tid\t-1\tn").is_none());
    assert!(parse_hello("HELLO\tid\t\tn").is_none());
    assert!(parse_hello("HELLO\tid").is_none());
    assert!(parse_hello("hello\tid\t1\tn").is_none());
}

#[test]
fn parse_hello_name_keeps_later_tabs() {
    let h = parse_hello("HELLO\tid\t1\tA\tB").unwrap();
    assert_eq!(h.name, "A\tB");
    let h = parse_hello_tcp("HELLO\tid\tA\tB").unwrap();
    assert_eq!(h.name, "A\tB");
    assert!(parse_hello_tcp("HELLO\t\tBob").is_none());
    assert!(parse_hello_tcp("HELLO").is_none());
}

/// A fresh id the way the program draws one: the clock reading in
/// nanoseconds, mixed with the address of a value on the stack.
fn random_id() -> String {
    let nanos = std::time::SystemTime::now()
        .duration_since(std::time::UNIX_EPOCH)
        .map(|d| d.as_nanos())
        .unwrap_or(0) as u64;
    let stack_var = 0u8;
    let shown = format!("{:p}", &stack_var);
    let addr = u64::from_str_radix(shown.trim_start_matches("0x"), 16).unwrap_or(0);
    id_from_entropy(nanos, addr)
}

#[test]
fn random_ids_are_unique_within_a_burst() {
    let mut seen = std::collections::HashSet::new();
    for _ in 0..1000 {
        assert!(seen.insert(random_id()));
    }
}

#[test]
fn short_ids_count_characters() {
    assert_eq!(short_id("éàü"), "éàü");
    assert_eq!(short_id("日本語テキスト"), "日本語テ");
    assert_eq!(short_id("aé€🙂xyz"), "aé€🙂");
    assert_eq!(short_id("abcd"), "abcd");
}

#[test]
fn ids_from_distinct_seeds_are_unique() {
    // clock readings and addresses that differ together still give new ids
    let mut seen = std::collections::HashSet::new();
    for i in 0..500u64 {
        assert!(seen.insert(id_from_entropy(1_000 + i, 0x7000 + 3 * i)));
        assert!(seen.insert(id_from_entropy(i, 0x1_0000_0000 + i)));
    }
}
