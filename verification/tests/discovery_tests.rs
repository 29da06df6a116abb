use shadowghost::discovery::{broadcast_targets, NetworkDiscovery, DISCOVERY_PORT};
use shadowghost::network::AnnouncementMessage;

fn heard(id: &str, name: &str, caps: &[&str], at: u64) -> AnnouncementMessage {
    AnnouncementMessage {
        peer_id: id.to_string(),
        peer_name: name.to_string(),
        port: 8080,
        public_key: vec![1, 2],
        protocol_version: 1,
        capabilities: caps.iter().map(|c| c.to_string()).collect(),
        timestamp: at,
    }
}

fn registry() -> NetworkDiscovery {
    NetworkDiscovery::new(8081, "me".to_string(), "Me".to_string(), vec![9])
}

#[test]
fn announcements_fill_the_registry() {
    let mut d = registry();
    assert_eq!(d.get_peer_count(), 0);
    d.process_announcement(heard("a", "Alice", &["chat"], 100), "10.0.0.5".to_string());
    d.process_announcement(heard("b", "Bob", &["chat", "file_transfer"], 200), "10.0.0.6".to_string());
    d.process_announcement(heard("a", "Alice2", &["chat"], 300), "10.0.0.7".to_string());
    assert_eq!(d.get_peer_count(), 2);
    let a = d.find_peer_by_id("a").unwrap();
    assert_eq!((a.name.as_str(), a.address.as_str(), a.last_seen, a.port), ("Alice2", "10.0.0.7", 300, 8080));
    assert!(d.find_peer_by_id("z").is_none());
    assert_eq!(d.find_peer_by_name("Bob").unwrap().id, "b");
    assert!(d.find_peer_by_name("Alice").is_none());
    let mut ids: Vec<String> = d.get_discovered_peers().into_iter().map(|p| p.id).collect();
    ids.sort();
    assert_eq!(ids, vec!["a".to_string(), "b".to_string()]);
    let files: Vec<String> = d.get_peers_by_capability("file_transfer").into_iter().map(|p| p.id).collect();
    assert_eq!(files, vec!["b".to_string()]);
    assert_eq!(d.get_peers_by_capability("chat").len(), 2);
}

#[test]
fn cleanup_forgets_silent_peers() {
    let mut d = registry();
    d.process_announcement(heard("a", "A", &[], 100), "ip".to_string());
    d.process_announcement(heard("b", "B", &[], 950), "ip".to_string());
    d.cleanup_old_peers_at(1000, 60);
    assert!(d.find_peer_by_id("a").is_none());
    assert!(d.find_peer_by_id("b").is_some());
    d.cleanup_old_peers_at(1000, 50);
    assert_eq!(d.get_peer_count(), 0);
}

#[test]
fn statistics_count_active_peers_and_capabilities() {
    let mut d = registry();
    d.process_announcement(heard("a", "A", &["chat", "voice"], 100), "ip".to_string());
    d.process_announcement(heard("b", "B", &["chat", "file_transfer", "chat"], 900), "ip".to_string());
    let st = d.get_discovery_statistics_at(1000, 5);
    assert_eq!(st.total_discovered, 2);
    assert_eq!(st.active_peers, 1);
    assert_eq!(st.unique_capabilities, 3);
    assert_eq!(st.discovery_uptime, 0);
    assert_eq!(st.last_discovery, 5);
}

#[test]
fn the_node_announces_itself() {
    let mut d = registry();
    assert!(!d.is_running());
    d.mark_started();
    assert!(d.is_running());
    let a = d.announcement(77);
    assert_eq!((a.peer_id.as_str(), a.peer_name.as_str(), a.port, a.timestamp), ("me", "Me", 8081, 77));
    assert_eq!(a.public_key, vec![9]);
    assert_eq!(a.capabilities, vec!["chat".to_string(), "file_transfer".to_string()]);
    assert_eq!(a.protocol_version, 1);
    d.process_announcement(heard("x", "X", &[], 1), "ip".to_string());
    d.stop_discovery();
    assert!(!d.is_running());
    assert_eq!(d.get_peer_count(), 0);
    assert_eq!(broadcast_targets()[0], format!("255.255.255.255:{}", DISCOVERY_PORT));
    assert_eq!(broadcast_targets().len(), 5);
}
