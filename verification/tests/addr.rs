use swarm_p2p_core::addr::{relay_circuit_addr, sorted_addrs};
use swarm_p2p_core::libp2p::multiaddr::Protocol;
use swarm_p2p_core::libp2p::{Multiaddr, PeerId};
use swarm_p2p_core::peer::{contains_peer, join_peers};

fn addr(text: &str) -> Multiaddr {
    text.parse().unwrap()
}

#[test]
fn relay_address_gets_the_peer_and_the_circuit_marker() {
    let relay = PeerId::random();
    let out = relay_circuit_addr(&addr("/ip4/203.0.113.7/tcp/4001"), &relay);
    let expected = addr(&format!("/ip4/203.0.113.7/tcp/4001/p2p/{relay}/p2p-circuit"));
    assert_eq!(out, expected);
}

#[test]
fn relay_address_keeps_a_peer_that_is_named_already() {
    let relay = PeerId::random();
    let base = addr(&format!("/ip4/203.0.113.7/udp/4001/quic-v1/p2p/{relay}"));
    let out = relay_circuit_addr(&base, &relay);
    assert_eq!(out, addr(&format!("/ip4/203.0.113.7/udp/4001/quic-v1/p2p/{relay}/p2p-circuit")));

    // any segment that names a peer counts, also one of another peer
    let other = PeerId::random();
    let base = addr(&format!("/ip4/203.0.113.7/tcp/4001/p2p/{other}"));
    let out = relay_circuit_addr(&base, &relay);
    assert_eq!(out, addr(&format!("/ip4/203.0.113.7/tcp/4001/p2p/{other}/p2p-circuit")));
}

#[test]
fn relay_address_of_an_empty_address() {
    let relay = PeerId::random();
    let out = relay_circuit_addr(&Multiaddr::empty(), &relay);
    assert_eq!(out, addr(&format!("/p2p/{relay}/p2p-circuit")));
}

#[test]
fn addresses_come_sorted_and_once() {
    let a = addr("/ip4/10.0.0.1/tcp/1");
    let b = addr("/ip4/10.0.0.1/tcp/2");
    let c = addr("/ip4/10.0.0.2/tcp/1");
    let d = addr("/ip6/::1/tcp/1");
    let listeners = vec![c.clone(), a.clone(), d.clone(), a.clone()];
    let external = vec![b.clone(), c.clone()];
    let out = sorted_addrs(&listeners, &external);

    let mut expected = vec![c.clone(), a.clone(), d.clone(), a.clone(), b.clone(), c.clone()];
    expected.sort();
    expected.dedup();
    assert_eq!(out, expected);
    assert_eq!(out, vec![a, b, c, d]);
}

#[test]
fn shorter_address_comes_before_its_extension() {
    let short = addr("/ip4/10.0.0.1");
    let long = addr("/ip4/10.0.0.1/tcp/1");
    assert_eq!(sorted_addrs(&vec![long.clone()], &vec![short.clone()]), vec![short, long]);
}

#[test]
fn no_addresses_give_none() {
    assert_eq!(sorted_addrs(&vec![], &vec![]), Vec::<Multiaddr>::new());
    let a = addr("/ip4/10.0.0.1/tcp/1");
    assert_eq!(sorted_addrs(&vec![], &vec![a.clone(), a.clone()]), vec![a]);
}

#[test]
fn peers_are_found_and_told_apart() {
    let a = PeerId::random();
    let b = PeerId::random();
    let c = PeerId::random();
    assert!(contains_peer(&vec![a, b], &a));
    assert!(contains_peer(&vec![a, b], &b));
    assert!(!contains_peer(&vec![a, b], &c));
    assert!(!contains_peer(&vec![], &a));
}

#[test]
fn peers_are_joined_without_repetition() {
    let a = PeerId::random();
    let b = PeerId::random();
    let c = PeerId::random();
    let mut held = vec![a, b];
    join_peers(&mut held, &vec![b, c, c, a]);
    assert_eq!(held, vec![a, b, c]);
    join_peers(&mut held, &vec![]);
    assert_eq!(held, vec![a, b, c]);
    let mut none: Vec<PeerId> = vec![];
    join_peers(&mut none, &vec![c, c]);
    assert_eq!(none, vec![c]);
}

#[test]
fn relay_address_names_a_peer_before_the_circuit_marker() {
    let relay = PeerId::random();
    let other = PeerId::random();
    let bases = vec![
        addr("/ip4/203.0.113.7/tcp/4001"),
        addr(&format!("/ip4/203.0.113.7/tcp/4001/p2p/{relay}")),
        addr(&format!("/ip4/203.0.113.7/tcp/4001/p2p/{other}/p2p-circuit/p2p/{relay}")),
        Multiaddr::empty(),
    ];
    for base in bases {
        let out = relay_circuit_addr(&base, &relay);
        let flags: Vec<bool> = out.iter().map(|segment| matches!(segment, Protocol::P2p(_))).collect();
        let before: Vec<bool> = base.iter().map(|segment| matches!(segment, Protocol::P2p(_))).collect();
        assert_eq!(flags.last(), Some(&false));
        assert!(matches!(out.iter().last(), Some(Protocol::P2pCircuit)));
        assert!(flags[..flags.len() - 1].contains(&true));
        assert_eq!(&flags[..before.len()], &before[..]);
        let added = if before.contains(&true) { 1 } else { 2 };
        assert_eq!(flags.len(), before.len() + added);
    }
}
