use shadowghost::network::{DeliveryStatus, NetworkError, NetworkManager, PeerData};
use shadowghost::node::Peer;

fn peer(id: &str) -> PeerData {
    PeerData {
        id: id.to_string(),
        name: "n".to_string(),
        address: "a".to_string(),
        public_key: vec![],
        connected_at: 1,
        last_seen: 2,
        bytes_sent: 0,
        bytes_received: 0,
    }
}

fn manager() -> NetworkManager {
    NetworkManager::new(Peer::with_address("me".to_string(), "127.0.0.1".to_string(), 8080)).unwrap()
}

#[test]
fn peers_are_counted_and_replaced_by_id() {
    let mut m = manager();
    m.add_peer(peer("a"));
    m.add_peer(peer("b"));
    m.add_peer(peer("a"));
    assert_eq!(m.get_peer_count(), 2);
    assert_eq!(m.get_stats().unwrap().connected_peers, 2);
    assert_eq!(m.get_stats().unwrap().total_connections, 2);
    assert!(m.is_peer_connected("a"));
    m.remove_peer("a");
    assert!(!m.is_peer_connected("a"));
    assert!(m.is_peer_connected("b"));
    assert_eq!(m.get_stats().unwrap().connected_peers, 1);
    assert!(m.get_peer_by_id("zz").is_none());
}

#[test]
fn idle_layer_refuses_to_send_and_connect() {
    let mut m = manager();
    match m.send_chat_message_by_name("bob", "hi") {
        Err(NetworkError::SendFailed(msg)) => assert_eq!(msg, "Network not active"),
        _ => panic!("expected refusal"),
    }
    match m.connect_to_peer("1.2.3.4:5") {
        Err(NetworkError::ConnectionFailed(msg)) => assert_eq!(msg, "Network not active"),
        _ => panic!("expected refusal"),
    }
    assert_eq!(m.get_chat_messages("bob").unwrap().len(), 0);
}

#[test]
fn sent_and_received_messages_join_the_chat() {
    let mut m = manager();
    m.start().unwrap();
    let id = m.send_chat_message_at("bob", "hello", "m1".to_string(), 42).unwrap();
    assert_eq!(id, "m1");
    let r = m.receive_message_at("bob", "hi back", "m2".to_string(), 43);
    assert_eq!(r.to, "me");
    assert_eq!(r.delivery_status, DeliveryStatus::Delivered);
    let chat = m.get_chat_messages("bob").unwrap();
    assert_eq!(chat.len(), 2);
    assert_eq!(chat[0].from, "me");
    assert_eq!(chat[0].to, "bob");
    assert_eq!(chat[0].delivery_status, DeliveryStatus::Sent);
    assert_eq!(chat[1].content, "hi back");
    assert!(m.get_chat_messages("carol").unwrap().is_empty());
    assert_eq!(m.get_stats().unwrap().messages_sent, 1);
}

#[test]
fn connect_disconnect_and_ping() {
    let mut m = manager();
    m.start().unwrap();
    m.connect_to_peer_at("9.9.9.9:1", "peer_x".to_string(), 100).unwrap();
    assert_eq!(m.ping_peer("peer_x").unwrap(), 50);
    let p = m.get_peer_by_id("peer_x").unwrap();
    assert_eq!(p.name, "Unknown");
    assert_eq!(p.connected_at, 100);
    m.disconnect_from_peer("peer_x").unwrap();
    match m.ping_peer("peer_x") {
        Err(NetworkError::ConnectionFailed(msg)) => assert_eq!(msg, "Peer not connected"),
        _ => panic!("expected error"),
    }
    m.connect_to_peer("8.8.8.8:53").unwrap();
    assert_eq!(m.get_peer_count(), 1);
    assert!(m.get_connected_peers()[0].id.starts_with("peer_"));
}

#[test]
fn counters_and_reset() {
    let mut m = manager();
    m.start().unwrap();
    m.update_stats(10, 20);
    m.increment_messages_received();
    m.send_message_with_id("héllo", "x".to_string()).unwrap();
    let s = m.get_stats().unwrap();
    assert_eq!(s.bytes_sent, 16);
    assert_eq!(s.bytes_received, 20);
    assert_eq!(s.total_messages_received, 1);
    assert_eq!(s.total_messages_sent, 1);
    m.reset_stats();
    assert_eq!(m.get_stats().unwrap().bytes_sent, 0);
    m.stop().unwrap();
    assert!(!m.is_active());
}

#[test]
fn network_error_messages() {
    assert_eq!(NetworkError::SendFailed("x".to_string()).message(), "Send failed: x");
    assert_eq!(NetworkError::InvalidAddress("y".to_string()).message(), "Invalid address: y");
}
