use shadowghost::api::{
    CoreHandle,
    address_from_report, connect_to_peer, connection_test_result, disconnect_from_peer, enable_auto_discovery,
    get_network_stats, is_network_active, is_valid_address, ping_peer, scan_for_peers, set_network_config,
    start_discovery, stop_discovery,
};
use shadowghost::network::{ContactStatus, NetworkStats, TrustLevel};

#[test]
fn addresses_the_interface_accepts() {
    assert!(is_valid_address("127.0.0.1:8080"));
    assert!(!is_valid_address("127.0.0.1:0"));
    assert!(!is_valid_address("127.0.0.1"));
    assert!(!is_valid_address("a:b:1"));
    assert!(!is_valid_address("h:65536"));
    assert!(is_valid_address(":1"));
}

#[test]
fn connect_replies() {
    assert_eq!(connect_to_peer(true, ""), Err("Peer address cannot be empty".to_string()));
    assert_eq!(connect_to_peer(false, ""), Err("Peer address cannot be empty".to_string()));
    assert_eq!(connect_to_peer(false, "h:1"), Err("Core not initialized".to_string()));
    assert_eq!(connect_to_peer(true, "nope"), Err("Invalid peer address format".to_string()));
    assert_eq!(connect_to_peer(true, "h:1"), Ok("Successfully initiated connection to h:1".to_string()));
}

#[test]
fn network_settings_replies() {
    assert_eq!(set_network_config(false, 10, 2000), Err("Core not initialized".to_string()));
    assert_eq!(set_network_config(true, 5, 80), Err("Port must be >= 1024".to_string()));
    assert_eq!(set_network_config(true, 0, 2000), Err("Max peers must be > 0".to_string()));
    assert_eq!(set_network_config(true, 10, 2000), Ok("Network config updated: max_peers=10, port=2000".to_string()));
}

#[test]
fn connection_tests() {
    assert!(connection_test_result("", 1).is_err());
    let bad = connection_test_result("x", 1).unwrap();
    assert!(!bad.success);
    assert_eq!(bad.error, Some("Invalid address format".to_string()));
    let good = connection_test_result("h:2", 12).unwrap();
    assert!(good.success);
    assert_eq!(good.ping_time, 12);
    assert_eq!(good.peer_info.unwrap().supported_protocols, vec!["SG/1.0".to_string()]);
}

#[test]
fn address_is_read_from_the_report() {
    assert_eq!(address_from_report("Local: x\nAddress: 10.0.0.5:9000\n"), "10.0.0.5");
    assert_eq!(address_from_report("Address:  host \r\nAddress: other"), "host");
    assert_eq!(address_from_report("Local Address: 127.0.0.1:8080\nServer Status: Running"), "127.0.0.1:8080");
    assert_eq!(address_from_report(""), "127.0.0.1:8080");
}

#[test]
fn peer_requests_check_the_identifier_first() {
    assert_eq!(disconnect_from_peer(false, ""), Err("Peer ID cannot be empty".to_string()));
    assert_eq!(disconnect_from_peer(false, "p"), Err("Core not initialized".to_string()));
    assert_eq!(disconnect_from_peer(true, "p"), Ok("Successfully disconnected from peer p".to_string()));
    assert_eq!(ping_peer(true, "", 3), Err("Peer ID cannot be empty".to_string()));
    assert_eq!(ping_peer(false, "p", 3), Err("Core not initialized".to_string()));
    assert_eq!(ping_peer(true, "p", 13), Ok(13));
}

#[test]
fn discovery_requests_need_a_core() {
    assert_eq!(start_discovery(true), Ok("Discovery started successfully".to_string()));
    assert_eq!(stop_discovery(true), Ok("Discovery stopped successfully".to_string()));
    assert_eq!(start_discovery(false), Err("Core not initialized".to_string()));
    assert_eq!(stop_discovery(false), Err("Core not initialized".to_string()));
    assert_eq!(enable_auto_discovery(true, true), Ok("Auto-discovery enabled".to_string()));
    assert_eq!(enable_auto_discovery(true, false), Ok("Auto-discovery disabled".to_string()));
    assert!(enable_auto_discovery(false, true).is_err());
    assert!(scan_for_peers(false, 0).is_err());
    let found = scan_for_peers(true, 42).unwrap();
    assert_eq!(found.len(), 2);
    assert_eq!((found[0].id.as_str(), found[0].signal_strength, found[0].last_seen), ("peer1", 85, 42));
    assert_eq!((found[1].address.as_str(), found[1].signal_strength), ("192.168.1.101:8080", 70));
}

#[test]
fn network_activity_needs_a_connected_peer() {
    assert!(!is_network_active(None));
    assert!(!is_network_active(Some(NetworkStats::zero())));
    assert!(is_network_active(Some(NetworkStats::with_peers(2))));
    assert_eq!(get_network_stats(None), NetworkStats::zero());
    assert_eq!(get_network_stats(Some(NetworkStats::with_peers(3))).connected_peers, 3);
}

#[test]
fn the_core_handle_follows_its_lifecycle() {
    let mut h = CoreHandle::new();
    assert!(!h.is_core_initialized());
    assert_eq!(h.generate_my_link(), Err("Core not initialized".to_string()));
    assert_eq!(h.start_server(), Err("Core not initialized".to_string()));
    assert_eq!(h.shutdown_core(), Err("Core not initialized".to_string()));
    assert_eq!(h.initialize_core(), Ok("Core initialized successfully".to_string()));
    assert!(h.is_core_initialized());
    let link = h.generate_my_link().unwrap();
    assert!(link.starts_with("sg://"));
    assert_eq!(h.start_server(), Ok("Server started successfully".to_string()));
    assert_eq!(h.shutdown_core(), Ok("Core shutdown successfully".to_string()));
    assert!(!h.is_core_initialized());
}

#[test]
fn contact_requests_go_through_the_handle() {
    let mut h = CoreHandle::new();
    assert_eq!(h.add_contact("Bob".to_string(), "h:1".to_string()).unwrap_err(), "Core not initialized");
    assert!(h.get_contacts().is_err());
    h.initialize_core().unwrap();
    let bob = h.add_contact("Bob".to_string(), "h:1".to_string()).unwrap();
    assert_eq!(bob.id.len(), 36);
    assert_eq!(bob.status, ContactStatus::Offline);
    assert_eq!(bob.trust_level, TrustLevel::Unknown);
    assert!(bob.last_seen.is_some());
    h.add_contact("Carol".to_string(), "h:2".to_string()).unwrap();
    assert_eq!(h.get_contacts().unwrap().len(), 2);
    assert_eq!(h.get_contact_by_id(&bob.id).unwrap().name, "Bob");
    assert_eq!(h.get_contact_by_id("nope").unwrap_err(), "Contact not found");
    assert_eq!(h.search_contacts("CAR").unwrap().len(), 1);
    assert_eq!(h.update_contact_trust_level(&bob.id, TrustLevel::Trusted), Ok("Contact trust level updated".to_string()));
    let st = h.get_contact_stats().unwrap();
    assert_eq!((st.total_contacts, st.trusted_contacts, st.blocked_contacts), (2, 1, 0));
    assert_eq!(h.remove_contact(&bob.id), Ok("Contact removed successfully".to_string()));
    let err = h.remove_contact(&bob.id).unwrap_err();
    assert!(err.starts_with("Failed to remove contact: Contact error: Contact not found: "));
    assert!(h.update_contact_trust_level("nope", TrustLevel::Low).is_err());
}
