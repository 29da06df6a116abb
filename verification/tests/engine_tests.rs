use shadowghost::engine::{create_message_id, format_chat_message, ShadowGhostCore};
use shadowghost::network::{ChatMessageType, Contact, ContactStatus, DeliveryStatus, PeerData, TrustLevel};
use shadowghost::node::CoreError;

fn contact(id: &str, name: &str, address: &str) -> Contact {
    Contact {
        id: id.to_string(),
        name: name.to_string(),
        address: address.to_string(),
        status: ContactStatus::Offline,
        trust_level: TrustLevel::Pending,
        last_seen: None,
    }
}

fn peer(id: &str, name: &str) -> PeerData {
    PeerData {
        id: id.to_string(),
        name: name.to_string(),
        address: "10.0.0.2:8080".to_string(),
        public_key: vec![],
        connected_at: 0,
        last_seen: 0,
        bytes_sent: 0,
        bytes_received: 0,
    }
}

fn ready() -> ShadowGhostCore {
    let mut core = ShadowGhostCore::new().unwrap();
    core.initialize(Some("alice".to_string())).unwrap();
    core
}

#[test]
fn a_new_core_waits_for_initialization() {
    let mut core = ShadowGhostCore::new().unwrap();
    assert!(!core.is_initialized());
    assert_eq!(core.get_peer_info(), None);
    assert_eq!(core.get_server_status(), "Stopped");
    match core.start_server() {
        Err(CoreError::InvalidState(m)) => assert_eq!(m, "Core not initialized"),
        _ => panic!("expected refusal"),
    }
    assert!(core.generate_sg_link().is_err());
    match core.send_message("bob", "hi") {
        Err(CoreError::InvalidState(m)) => assert_eq!(m, "Core not initialized"),
        _ => panic!("expected refusal"),
    }
}

#[test]
fn initialization_without_a_name_uses_user() {
    let mut core = ShadowGhostCore::new().unwrap();
    core.initialize(None).unwrap();
    assert!(core.is_initialized());
    assert_eq!(core.get_peer_info().unwrap(), "user (127.0.0.1:8080)");
}

#[test]
fn sending_needs_a_running_server_and_a_known_name() {
    let mut core = ready();
    match core.send_message("bob", "hi") {
        Err(CoreError::InvalidState(m)) => assert_eq!(m, "Server not running"),
        _ => panic!("expected refusal"),
    }
    core.start_server().unwrap();
    assert_eq!(core.get_server_status(), "Running");
    match core.send_message("bob", "hi") {
        Err(CoreError::Contact(m)) => assert_eq!(m, "Contact 'bob' not found"),
        _ => panic!("expected refusal"),
    }
    core.add_contact_from_link_peer(&peer("b1", "bob")).unwrap();
    let m = core.send_message_at("bob", "hi", 42).unwrap();
    assert_eq!(m.from, "alice");
    assert_eq!(m.to, "bob");
    assert_eq!(m.content, "hi");
    assert_eq!(m.timestamp, 42);
    assert_eq!(m.delivery_status, DeliveryStatus::Sent);
    assert_eq!(m.id.len(), 36);
    assert_eq!(core.get_network_stats().unwrap().messages_sent, 1);
}

#[test]
fn one_cannot_add_oneself_or_a_known_contact() {
    let mut core = ready();
    match core.add_contact_from_link_peer(&peer("x", "alice")) {
        Err(CoreError::Contact(m)) => assert_eq!(m, "Cannot add yourself as contact"),
        _ => panic!("expected refusal"),
    }
    let c = core.add_contact_from_link_peer(&peer("b1", "bob")).unwrap();
    assert_eq!(c.name, "bob");
    assert_eq!(c.trust_level, TrustLevel::Pending);
    match core.add_contact_from_link_peer(&peer("b1", "bobby")) {
        Err(CoreError::Contact(m)) => assert_eq!(m, "Contact exists: Contact with ID b1 already exists"),
        _ => panic!("expected refusal"),
    }
    assert_eq!(core.get_contact_count(), 1);
}

#[test]
fn a_generated_link_reads_back_as_the_user() {
    let core = ready();
    let link = core.generate_sg_link().unwrap();
    assert!(link.starts_with("sg://"));
    let json = core.link_payload(&link).unwrap();
    assert!(json.contains("\"name\":\"alice\""));
    assert!(json.contains("\"address\":\"127.0.0.1:8080\""));
    match core.link_payload("http://x") {
        Err(CoreError::Contact(m)) => assert_eq!(m, "Invalid SG link format"),
        _ => panic!("expected refusal"),
    }
}

#[test]
fn link_json_has_the_fixed_shape() {
    let core = ready();
    assert_eq!(
        core.link_json("id1", "T"),
        "{\"id\":\"id1\",\"name\":\"alice\",\"address\":\"127.0.0.1:8080\",\"public_key\":[],\"connected_at\":\"T\",\"last_seen\":\"T\"}"
    );
}

#[test]
fn unread_counts_grow_reset_and_clear() {
    let mut core = ready();
    assert_eq!(core.get_unread_count_cached("bob"), 0);
    core.increment_unread_count("bob");
    core.increment_unread_count("bob");
    assert_eq!(core.get_unread_count_cached("bob"), 2);
    core.reset_unread_count("bob");
    assert_eq!(core.get_unread_count_cached("bob"), 0);
    core.increment_unread_count("eve");
    core.clear_unread_cache();
    assert_eq!(core.get_unread_count_cached("eve"), 0);
}

#[test]
fn restart_needs_initialization() {
    let mut core = ShadowGhostCore::new().unwrap();
    assert!(core.restart_server().is_err());
    core.initialize(None).unwrap();
    core.restart_server().unwrap();
    assert_eq!(core.get_server_status(), "Running");
    assert!(core.shutdown().is_ok());
    assert!(core.stop_server().is_ok());
    assert_eq!(
        core.get_connection_info().unwrap(),
        "Local Address: 127.0.0.1:8080\nExternal Address: Not available\nServer Status: Running"
    );
}

#[test]
fn contact_operations_go_through_the_core() {
    let mut core = ready();
    core.add_contact_manual(contact("1", "Bob", "h:1")).unwrap();
    core.add_contact_manual(contact("2", "Carol", "h:2")).unwrap();
    match core.add_contact_manual(contact("1", "Dup", "h:3")) {
        Err(CoreError::Contact(m)) => assert_eq!(m, "Contact exists: Contact with ID 1 already exists"),
        _ => panic!("expected refusal"),
    }
    assert_eq!(core.get_contacts().unwrap().len(), 2);
    assert_eq!(core.get_contact_by_id("2").unwrap().name, "Carol");
    assert!(core.get_contact_by_id("9").is_none());
    core.update_contact_trust_level("1", TrustLevel::Trusted).unwrap();
    assert_eq!(core.get_trusted_contacts().unwrap().len(), 1);
    assert_eq!(core.search_contacts("car").unwrap().len(), 1);
    assert_eq!(core.get_online_contacts().unwrap().len(), 0);
    core.block_contact("2").unwrap();
    let st = core.get_contact_stats().unwrap();
    assert_eq!(st.total_contacts, 2);
    assert_eq!(st.trusted_contacts, 1);
    assert_eq!(st.blocked_contacts, 1);
    assert_eq!(st.pending_contacts, 1);
    core.unblock_contact("2").unwrap();
    assert!(core.unblock_contact("2").is_err());
    assert!(core.block_contact("9").is_err());
    core.remove_contact_by_id("1").unwrap();
    match core.remove_contact_by_id("1") {
        Err(CoreError::Contact(m)) => assert!(m.starts_with("Contact not found: ")),
        _ => panic!("expected refusal"),
    }
    assert!(core.get_contact_by_name("Carol").is_some());
    assert!(core.check_contact_online("Carol"));
    core.clear_all_contacts().unwrap();
    assert_eq!(core.get_contact_count(), 0);
}

#[test]
fn renaming_changes_the_link_identity() {
    let mut core = ready();
    core.update_user_name("zed".to_string()).unwrap();
    assert_eq!(core.get_peer_info().unwrap(), "zed (127.0.0.1:8080)");
}

#[test]
fn formatted_messages_are_fresh_and_pending() {
    let m = format_chat_message("a", "b", "hi", ChatMessageType::Text);
    assert_eq!((m.from.as_str(), m.to.as_str(), m.content.as_str()), ("a", "b", "hi"));
    assert_eq!(m.delivery_status, DeliveryStatus::Pending);
    assert_eq!(m.msg_type, ChatMessageType::Text);
    assert_eq!(m.id.len(), 36);
    assert!(m.timestamp > 0);
    assert_ne!(create_message_id(), create_message_id());
}

#[test]
fn sent_messages_are_kept_per_chat() {
    let mut core = ready();
    core.start_server().unwrap();
    core.add_contact_from_link_peer(&peer("b1", "bob")).unwrap();
    core.add_contact_from_link_peer(&peer("c1", "carol")).unwrap();
    assert!(core.get_chat_messages("bob").unwrap().is_empty());
    let first = core.send_message("bob", "one").unwrap();
    let second = core.send_message_at("bob", "two", 7).unwrap();
    assert!(core.send_message("dave", "lost").is_err());
    let kept = core.get_chat_messages("bob").unwrap();
    assert_eq!(kept.len(), 2);
    assert_eq!(kept[0].id, first.id);
    assert_eq!(kept[0].from, "alice");
    assert_eq!(kept[1].content, "two");
    assert_eq!(kept[1].id, second.id);
    assert!(core.get_chat_messages("carol").unwrap().is_empty());
    assert!(core.get_chat_messages("dave").unwrap().is_empty());
}

#[test]
fn stored_contacts_are_restored_once_each() {
    let mut core = ready();
    core.add_contact_manual(contact("a1", "ann", "10.0.0.1:1")).unwrap();
    let taken = core.restore_contacts(
        vec![
            contact("a1", "other", "10.0.0.9:9"),
            contact("b1", "bob", "10.0.0.2:2"),
            contact("b1", "bobby", "10.0.0.3:3"),
        ],
        vec![("b1".to_string(), true), ("a1".to_string(), false), ("zz".to_string(), true)],
    );
    assert_eq!(taken, 1);
    assert_eq!(core.get_contact_count(), 2);
    assert_eq!(core.get_contact_by_id("a1").unwrap().name, "ann");
    assert_eq!(core.get_contact_by_id("b1").unwrap().name, "bob");
    let blocked = core.get_blocked_contacts().unwrap();
    assert_eq!(blocked.len(), 1);
    assert_eq!(blocked[0].id, "b1");
}

#[test]
fn message_ids_are_version_four_uuids() {
    let id = create_message_id();
    assert_eq!(id.len(), 36);
    for (i, c) in id.chars().enumerate() {
        if i == 8 || i == 13 || i == 18 || i == 23 {
            assert_eq!(c, '-');
        } else {
            assert!(c.is_ascii_digit() || ('a'..='f').contains(&c));
        }
    }
    assert_eq!(id.as_bytes()[14], b'4');
    assert!(b"89ab".contains(&id.as_bytes()[19]));
}
