use udp_broadcast::addr::PeerAddr;
use udp_broadcast::client::ClientTXMessage;
use udp_broadcast::server::{Dispatch, Server};

fn peer(port: u16) -> PeerAddr {
    PeerAddr::V4 { ip: 0x0a00_0001, port: port }
}

/// Runs every session's private mailbox, the broadcaster, then every
/// session's subscription mailbox, until nothing is left to do, and returns
/// what the writer would send.
fn settle(s: &mut Server) -> Vec<(PeerAddr, Vec<u8>)> {
    loop {
        let mut progressed = false;
        for i in 0..s.session_count() {
            while s.step_private(i) {
                progressed = true;
            }
        }
        while s.step_broadcaster() {
            progressed = true;
        }
        for i in 0..s.session_count() {
            while s.step_subscription(i) {
                progressed = true;
            }
        }
        if !progressed {
            break;
        }
    }
    let mut sent = Vec::new();
    while let Some(out) = s.next_outgoing() {
        match out.message {
            ClientTXMessage::Datagram(v) => sent.push((out.addr, v)),
        }
    }
    sent
}

#[test]
fn first_contact_creates_session_without_forwarding() {
    let mut s = Server::new();
    assert_eq!(s.session_count(), 0);
    assert_eq!(s.on_datagram(peer(1), b"hello".to_vec()), Dispatch::Created(0));
    assert_eq!(s.session_count(), 1);
    assert_eq!(s.find_session(&peer(1)), Some(0));
    assert!(settle(&mut s).is_empty());
}

#[test]
fn hello_world_scenario() {
    let mut s = Server::new();
    assert_eq!(s.on_datagram(peer(1), b"hello".to_vec()), Dispatch::Created(0));
    assert!(settle(&mut s).is_empty());
    assert_eq!(s.on_datagram(peer(1), b"world".to_vec()), Dispatch::Forwarded(0));
    let sent = settle(&mut s);
    assert_eq!(sent, vec![(peer(1), b"world".to_vec())]);
    assert!(sent.iter().all(|(_, p)| p != &b"hello".to_vec()));
}

#[test]
fn distinct_new_peers_get_distinct_sessions() {
    let mut s = Server::new();
    assert_eq!(s.on_datagram(peer(1), vec![1]), Dispatch::Created(0));
    assert_eq!(s.on_datagram(peer(2), vec![2]), Dispatch::Created(1));
    assert_eq!(s.session_count(), 2);
    assert_eq!(s.find_session(&peer(1)), Some(0));
    assert_eq!(s.find_session(&peer(2)), Some(1));
}

#[test]
fn known_peer_is_routed_not_recreated() {
    let mut s = Server::new();
    s.on_datagram(peer(1), vec![1]);
    s.on_datagram(peer(2), vec![2]);
    assert_eq!(s.on_datagram(peer(2), vec![3]), Dispatch::Forwarded(1));
    assert_eq!(s.on_datagram(peer(2), vec![4]), Dispatch::Forwarded(1));
    assert_eq!(s.session_count(), 2);
}

#[test]
fn round_trip_reaches_every_earlier_peer() {
    let mut s = Server::new();
    for port in 1..=3 {
        s.on_datagram(peer(port), vec![0]);
    }
    assert!(settle(&mut s).is_empty());
    s.on_datagram(peer(2), b"D1".to_vec());
    let mut sent = settle(&mut s);
    sent.sort_by_key(|(a, _)| match a {
        PeerAddr::V4 { port, .. } => *port,
        PeerAddr::V6 { port, .. } => *port,
    });
    assert_eq!(
        sent,
        vec![
            (peer(1), b"D1".to_vec()),
            (peer(2), b"D1".to_vec()),
            (peer(3), b"D1".to_vec()),
        ]
    );
}

#[test]
fn same_port_on_different_hosts_are_different_peers() {
    let mut s = Server::new();
    let a = PeerAddr::V4 { ip: 1, port: 5000 };
    let b = PeerAddr::V4 { ip: 2, port: 5000 };
    let c = PeerAddr::V6 { ip: 1, port: 5000, flowinfo: 0, scope_id: 0 };
    assert_eq!(s.on_datagram(a, vec![]), Dispatch::Created(0));
    assert_eq!(s.on_datagram(b, vec![]), Dispatch::Created(1));
    assert_eq!(s.on_datagram(c, vec![]), Dispatch::Created(2));
}

#[test]
fn closed_session_drops_later_datagrams() {
    let mut s = Server::new();
    s.on_datagram(peer(1), vec![0]);
    s.on_datagram(peer(2), vec![0]);
    assert!(s.close_session(&peer(1)));
    assert!(!s.close_session(&peer(9)));
    assert!(settle(&mut s).is_empty());
    assert!(!s.close_session(&peer(1)));
    assert_eq!(s.on_datagram(peer(1), vec![7]), Dispatch::Undeliverable(0));
    assert_eq!(s.session_count(), 2);
    s.on_datagram(peer(2), vec![8]);
    assert_eq!(settle(&mut s), vec![(peer(2), vec![8])]);
}

#[test]
fn close_directive_stops_processing_of_queued_messages() {
    let mut s = Server::new();
    s.on_datagram(peer(1), vec![0]);
    s.on_datagram(peer(1), vec![1]);
    assert!(s.close_session(&peer(1)));
    assert!(s.step_private(0));
    assert!(s.step_private(0));
    assert!(!s.step_private(0));
    assert!(s.step_broadcaster());
    assert!(!s.step_subscription(0));
    assert!(s.next_outgoing().is_none());
}

#[test]
fn writer_takes_actions_in_order() {
    let mut s = Server::new();
    s.on_datagram(peer(1), vec![0]);
    s.on_datagram(peer(1), vec![1]);
    s.on_datagram(peer(1), vec![2]);
    assert_eq!(settle(&mut s), vec![(peer(1), vec![1]), (peer(1), vec![2])]);
    assert!(s.next_outgoing().is_none());
}

#[test]
fn ten_thousand_sessions_receive_one_broadcast() {
    let mut s = Server::new();
    for port in 0..10_000u16 {
        assert_eq!(s.on_datagram(peer(port), vec![]), Dispatch::Created(port as usize));
    }
    s.on_datagram(peer(0), b"x".to_vec());
    assert!(s.step_private(0));
    assert!(s.step_broadcaster());
    assert!(!s.step_broadcaster());
    let sent = settle(&mut s);
    assert_eq!(sent.len(), 10_000);
    assert!(sent.iter().all(|(_, p)| p == &b"x".to_vec()));
}
