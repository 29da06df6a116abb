use shadowghost::contact_manager::{
    create_contact_from_peer_data, ContactGroup, ContactIssueType, ContactManager, IssueSeverity,
};
use shadowghost::contacts::ContactError;
use shadowghost::network::{Contact, ContactStatus, PeerData, TrustLevel};

fn contact(id: &str, name: &str, address: &str) -> Contact {
    Contact {
        id: id.to_string(),
        name: name.to_string(),
        address: address.to_string(),
        status: ContactStatus::Offline,
        trust_level: TrustLevel::Pending,
        last_seen: None,
    }
}

fn manager() -> ContactManager {
    ContactManager::new("contacts.json".to_string()).unwrap()
}

#[test]
fn adding_a_known_identifier_is_refused() {
    let mut m = manager();
    m.add_contact(contact("1", "A", "a:1")).unwrap();
    match m.add_contact(contact("1", "Z", "z:1")) {
        Err(ContactError::ContactExists(msg)) => assert_eq!(msg, "Contact with ID 1 already exists"),
        _ => panic!("expected refusal"),
    }
    assert_eq!(m.get_contact("1").unwrap().name, "A");
    assert_eq!(m.get_contact_count(), 1);
}

#[test]
fn peer_records_become_pending_offline_contacts() {
    let pd = PeerData {
        id: "p".to_string(),
        name: "Peer".to_string(),
        address: "h:1".to_string(),
        public_key: vec![1],
        connected_at: 5,
        last_seen: 6,
        bytes_sent: 0,
        bytes_received: 0,
    };
    let c = create_contact_from_peer_data(&pd);
    assert_eq!(c.status, ContactStatus::Offline);
    assert_eq!(c.trust_level, TrustLevel::Pending);
    assert_eq!(c.last_seen, Some(6));
    let mut m = manager();
    m.add_contact_from_peer_data(&pd).unwrap();
    assert!(m.add_contact_from_peer_data(&pd).is_err());
}

#[test]
fn searches_and_selections() {
    let mut m = manager();
    m.add_contact(contact("1", "Alice", "10.0.0.1:80")).unwrap();
    m.add_contact(contact("2", "Bob", "alice.example:90")).unwrap();
    m.set_trust_level("2", TrustLevel::Trusted).unwrap();
    m.update_contact_status("1", ContactStatus::Online).unwrap();
    assert_eq!(m.search_contacts("ALICE").len(), 2);
    assert_eq!(m.get_trusted_contacts()[0].id, "2");
    assert_eq!(m.get_online_contacts()[0].id, "1");
    assert_eq!(m.get_contacts_by_trust_level(TrustLevel::Pending).len(), 1);
    assert_eq!(m.get_contact_by_name("Bob").unwrap().id, "2");
    assert!(m.get_contact_by_name("bob").is_none());
    let s = m.get_contact_stats();
    assert_eq!((s.total_contacts, s.online_contacts, s.trusted_contacts, s.pending_contacts), (2, 1, 1, 1));
}

#[test]
fn presence_and_interaction() {
    let mut m = manager();
    m.add_contact(contact("1", "A", "a:1")).unwrap();
    m.update_contact_activity_at("1", 1_000).unwrap();
    let c = m.get_contact("1").unwrap();
    assert_eq!((c.status, c.last_seen), (ContactStatus::Online, Some(1_000)));
    let day = 86_400_000i64;
    let st = m.get_contact_interaction_stats_at("1", 1_000 + 3 * day + 5).unwrap();
    assert_eq!(st.days_since_last_seen, 3);
    assert!(!st.is_blocked);
    assert_eq!(m.mark_contacts_offline_before(2_000).unwrap(), 1);
    assert_eq!(m.get_contact("1").unwrap().status, ContactStatus::Offline);
    assert!(m.get_contact_interaction_stats_at("9", 0).is_err());
    m.update_last_seen_at("1", 7).unwrap();
    assert_eq!(m.get_contact("1").unwrap().last_seen, Some(7));
}

#[test]
fn addresses_and_data_checks() {
    assert!(ContactManager::is_valid_address("host:0"));
    assert!(ContactManager::is_valid_address("h:8080"));
    assert!(!ContactManager::is_valid_address(""));
    assert!(!ContactManager::is_valid_address("h"));
    assert!(!ContactManager::is_valid_address("a:b:1"));
    let mut m = manager();
    m.add_contact(contact("1", " ", "bad")).unwrap();
    let issues = m.validate_contact_data();
    assert_eq!(issues.len(), 2);
    assert_eq!(issues[0].issue_type, ContactIssueType::EmptyName);
    assert_eq!(issues[0].severity, IssueSeverity::Medium);
    assert_eq!(issues[1].issue_type, ContactIssueType::InvalidAddress);
    assert_eq!(issues[1].description, "Invalid address format: bad");
}

#[test]
fn imports_and_batches() {
    let mut m = manager();
    m.add_contact(contact("1", "A", "a:1")).unwrap();
    let n = m.import_contacts(vec![contact("1", "X", "x"), contact("2", "B", "b")]).unwrap();
    assert_eq!(n, 1);
    assert_eq!(m.get_contact("1").unwrap().name, "A");
    assert_eq!(m.batch_block_contacts(vec!["1".to_string(), "3".to_string()]).unwrap(), 1);
    assert!(m.is_contact_blocked("1"));
    assert_eq!(m.batch_unblock_contacts(vec!["1".to_string()]).unwrap(), 1);
    m.clear_all_contacts();
    assert_eq!(m.get_contact_count(), 0);
}

#[test]
fn groups_hold_each_member_once() {
    let mut g = ContactGroup::with_id("g".to_string(), "Friends".to_string(), 1);
    g.add_contact_at("a".to_string(), 2);
    g.add_contact_at("a".to_string(), 3);
    assert_eq!(g.contact_ids, vec!["a".to_string()]);
    assert_eq!(g.updated_at, 2);
    assert!(g.contains_contact("a"));
    g.remove_contact_at("a", 4);
    assert!(!g.contains_contact("a"));
    assert_eq!(g.updated_at, 4);
}

#[test]
fn import_takes_the_first_of_repeated_ids() {
    let mut m = manager();
    let n = m.import_contacts(vec![contact("5", "E", "e"), contact("5", "E2", "e2"), contact("6", "F", "f")]).unwrap();
    assert_eq!(n, 2);
    assert_eq!(m.get_contact("5").unwrap().name, "E");
    assert_eq!(m.get_contact_count(), 2);
}
