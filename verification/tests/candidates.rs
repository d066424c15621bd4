use rs_taps::candidates::{
    build_candidates, contains_address, distinct_addresses, sort_by_descending_rank, Candidate,
};
use rs_taps::endpoint::{IpAddress, SocketAddress};

fn v4(a: u8, b: u8, c: u8, d: u8, port: u16) -> SocketAddress {
    SocketAddress::new(IpAddress::V4(u32::from_be_bytes([a, b, c, d])), port)
}

fn v6(last: u16, port: u16) -> SocketAddress {
    let ip = (0x2001_0db8u128 << 96) | u128::from(last);
    SocketAddress::new(IpAddress::V6(ip), port)
}

fn candidate(remote: SocketAddress, protocol: &'static str) -> Candidate {
    Candidate { remote, local: None, protocol }
}

#[test]
fn address_families() {
    assert!(v6(1, 443).is_ipv6());
    assert!(!v4(192, 0, 2, 1, 443).is_ipv6());
}

#[test]
fn repeated_addresses_are_dropped_in_place() {
    let a = v4(192, 0, 2, 1, 80);
    let b = v4(192, 0, 2, 2, 80);
    let c = v6(1, 80);
    let same_ip_other_port = v4(192, 0, 2, 1, 81);
    let found = vec![a, b, a, c, same_ip_other_port, b, c];
    assert_eq!(distinct_addresses(&found), vec![a, b, c, same_ip_other_port]);
    assert_eq!(distinct_addresses(&Vec::new()), Vec::new());
}

#[test]
fn contains_address_finds_what_is_there() {
    let a = v4(10, 0, 0, 1, 1);
    let b = v4(10, 0, 0, 2, 1);
    assert!(contains_address(&vec![a, b], b));
    assert!(!contains_address(&vec![a], b));
    assert!(!contains_address(&Vec::new(), a));
}

#[test]
fn stacks_are_ordered_by_descending_rank_and_ties_keep_their_order() {
    let ranks = vec![("tcp", 1u8), ("udp", 3u8), ("quic", 1u8), ("sctp", 2u8)];
    assert_eq!(
        sort_by_descending_rank(&ranks),
        vec![("udp", 3u8), ("sctp", 2u8), ("tcp", 1u8), ("quic", 1u8)]
    );
    assert_eq!(sort_by_descending_rank(&Vec::new()), Vec::new());
}

#[test]
fn happy_eyeballs_interleave() {
    let v6_1 = v6(1, 443);
    let v6_2 = v6(2, 443);
    let v4_1 = v4(192, 0, 2, 1, 443);
    let v4_2 = v4(192, 0, 2, 2, 443);
    let remotes = vec![v6_1, v6_2, v4_1, v4_2];
    let candidates = build_candidates(&remotes, None, &vec![("tcp", 2u8)]);
    assert_eq!(
        candidates,
        vec![
            candidate(v6_1, "tcp"),
            candidate(v4_1, "tcp"),
            candidate(v6_2, "tcp"),
            candidate(v4_2, "tcp"),
        ]
    );
}

#[test]
fn interleave_starts_with_ipv6_whatever_the_resolver_order() {
    let v6_1 = v6(1, 443);
    let v4_1 = v4(192, 0, 2, 1, 443);
    let v4_2 = v4(192, 0, 2, 2, 443);
    let v4_3 = v4(192, 0, 2, 3, 443);
    let remotes = vec![v4_1, v4_2, v6_1, v4_3];
    let candidates = build_candidates(&remotes, None, &vec![("quic", 0u8)]);
    assert_eq!(
        candidates,
        vec![
            candidate(v6_1, "quic"),
            candidate(v4_1, "quic"),
            candidate(v4_2, "quic"),
            candidate(v4_3, "quic"),
        ]
    );
}

#[test]
fn ipv6_candidate_n_stands_at_most_at_twice_n() {
    let v6s: Vec<SocketAddress> = (1..=5).map(|i| v6(i, 443)).collect();
    let v4s: Vec<SocketAddress> = (1..=2).map(|i| v4(192, 0, 2, i, 443)).collect();
    let mut remotes = v4s.clone();
    remotes.extend(v6s.iter().copied());
    let candidates = build_candidates(&remotes, None, &vec![("tcp", 0u8)]);
    assert_eq!(candidates.len(), 7);
    for (n, address) in v6s.iter().enumerate() {
        let index = candidates.iter().position(|c| c.remote == *address).unwrap();
        assert!(index <= 2 * n);
    }
    let order: Vec<SocketAddress> = candidates.iter().map(|c| c.remote).collect();
    assert_eq!(order, vec![v6s[0], v4s[0], v6s[1], v4s[1], v6s[2], v6s[3], v6s[4]]);
}

#[test]
fn higher_ranked_stacks_come_first() {
    let v6_1 = v6(1, 443);
    let v4_1 = v4(192, 0, 2, 1, 443);
    let remotes = vec![v4_1, v6_1];
    let ranks = vec![("tcp", 0u8), ("udp", 0u8), ("quic", 1u8)];
    let candidates = build_candidates(&remotes, None, &ranks);
    assert_eq!(
        candidates,
        vec![
            candidate(v6_1, "quic"),
            candidate(v4_1, "quic"),
            candidate(v6_1, "tcp"),
            candidate(v4_1, "tcp"),
            candidate(v6_1, "udp"),
            candidate(v4_1, "udp"),
        ]
    );
}

#[test]
fn candidates_carry_the_local_address() {
    let local = v4(127, 0, 0, 1, 12000);
    let remote = v4(127, 0, 0, 1, 13370);
    let candidates = build_candidates(&vec![remote, remote], Some(local), &vec![("udp", 0u8)]);
    assert_eq!(candidates, vec![Candidate { remote, local: Some(local), protocol: "udp" }]);
}

#[test]
fn no_addresses_no_candidates() {
    assert_eq!(build_candidates(&Vec::new(), None, &vec![("tcp", 1u8)]), Vec::new());
    assert_eq!(build_candidates(&vec![v6(1, 1)], None, &Vec::new()), Vec::new());
}
