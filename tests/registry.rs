use udp_broadcast::addr::PeerAddr;
use udp_broadcast::broadcast::{new_message, BroadcastClientList, BroadcastEnum, BroadcastMessage, Broadcaster};
use udp_broadcast::client::{Client, ClientRXMessage, ClientTXMessage};

fn bytes_of(m: &BroadcastMessage) -> Vec<u8> {
    match &**m {
        BroadcastEnum::Datagram(v) => v.clone(),
    }
}

fn peer(port: u16) -> PeerAddr {
    PeerAddr::V4 { ip: 0x7f00_0001, port: port }
}

#[test]
fn new_client_hands_out_consecutive_handles() {
    let mut list = BroadcastClientList::new();
    assert_eq!(list.len(), 0);
    assert_eq!(list.new_client(), 0);
    assert_eq!(list.new_client(), 1);
    assert_eq!(list.new_client(), 2);
    assert_eq!(list.len(), 3);
}

#[test]
fn deliver_reaches_every_mailbox_in_order() {
    let mut list = BroadcastClientList::new();
    let a = list.new_client();
    let b = list.new_client();
    list.deliver(&new_message(b"one".to_vec()));
    list.deliver(&new_message(b"two".to_vec()));
    for id in [a, b] {
        assert_eq!(bytes_of(&list.take(id).unwrap()), b"one".to_vec());
        assert_eq!(bytes_of(&list.take(id).unwrap()), b"two".to_vec());
        assert!(list.take(id).is_none());
    }
}

#[test]
fn take_on_empty_mailbox_is_none() {
    let mut list = BroadcastClientList::new();
    let a = list.new_client();
    assert!(list.take(a).is_none());
}

#[test]
fn broadcaster_with_nothing_published_does_nothing() {
    let mut b = Broadcaster::new(BroadcastClientList::new());
    let id = b.new_client();
    assert!(!b.run_once());
    assert!(b.take(id).is_none());
}

#[test]
fn every_subscriber_gets_one_copy_in_publish_order() {
    let mut b = Broadcaster::new(BroadcastClientList::new());
    let ids: Vec<usize> = (0..5).map(|_| b.new_client()).collect();
    b.publish(new_message(vec![1]));
    b.publish(new_message(vec![2]));
    assert!(b.run_once());
    assert!(b.run_once());
    assert!(!b.run_once());
    for id in ids {
        assert_eq!(bytes_of(&b.take(id).unwrap()), vec![1]);
        assert_eq!(bytes_of(&b.take(id).unwrap()), vec![2]);
        assert!(b.take(id).is_none());
    }
}

#[test]
fn late_subscriber_misses_earlier_deliveries() {
    let mut b = Broadcaster::new(BroadcastClientList::new());
    let early = b.new_client();
    b.publish(new_message(vec![1]));
    assert!(b.run_once());
    let late = b.new_client();
    b.publish(new_message(vec![2]));
    assert!(b.run_once());
    assert_eq!(bytes_of(&b.take(early).unwrap()), vec![1]);
    assert_eq!(bytes_of(&b.take(early).unwrap()), vec![2]);
    assert_eq!(bytes_of(&b.take(late).unwrap()), vec![2]);
    assert!(b.take(late).is_none());
}

#[test]
fn ten_thousand_subscribers_each_get_the_message() {
    let mut b = Broadcaster::new(BroadcastClientList::new());
    for _ in 0..10_000 {
        b.new_client();
    }
    b.publish(new_message(b"all".to_vec()));
    assert!(b.run_once());
    for id in 0..10_000usize {
        assert_eq!(bytes_of(&b.take(id).unwrap()), b"all".to_vec());
        assert!(b.take(id).is_none());
    }
}

#[test]
fn session_turns_datagram_into_publication() {
    let mut c = Client::new(peer(1), 0);
    assert!(matches!(c.on_private(), (false, None)));
    c.send(ClientRXMessage::Datagram(b"hi".to_vec()));
    let (done, published) = c.on_private();
    assert!(done);
    assert_eq!(bytes_of(&published.unwrap()), b"hi".to_vec());
    assert!(!c.is_closed());
}

#[test]
fn session_addresses_broadcasts_to_its_peer() {
    let c = Client::new(peer(7), 3);
    assert_eq!(c.subscription(), 3);
    let out = c.on_broadcast(&new_message(vec![9, 8])).unwrap();
    assert_eq!(out.addr, peer(7));
    match out.message {
        ClientTXMessage::Datagram(v) => assert_eq!(v, vec![9, 8]),
    }
}

#[test]
fn closed_session_processes_nothing_more() {
    let mut c = Client::new(peer(2), 0);
    c.send(ClientRXMessage::ShouldClose);
    c.send(ClientRXMessage::Datagram(vec![1]));
    let (done, published) = c.on_private();
    assert!(done);
    assert!(published.is_none());
    assert!(c.is_closed());
    assert!(matches!(c.on_private(), (false, None)));
    assert!(c.on_broadcast(&new_message(vec![5])).is_none());
}
