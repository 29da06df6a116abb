use shadowghost::contacts::{BlockedContactInfo, ContactBook, ContactError};
use shadowghost::network::{Contact, ContactStatus, TrustLevel};

fn contact(id: &str, name: &str, address: &str) -> Contact {
    Contact {
        id: id.to_string(),
        name: name.to_string(),
        address: address.to_string(),
        status: ContactStatus::Offline,
        trust_level: TrustLevel::Pending,
        last_seen: None,
    }
}

fn info(at: i64) -> BlockedContactInfo {
    BlockedContactInfo { blocked_at: at, reason: "r".to_string(), blocked_by_user: true }
}

#[test]
fn add_get_update_remove() {
    let mut b = ContactBook::new();
    b.add_contact(contact("1", "Alice", "a:1")).unwrap();
    b.add_contact(contact("2", "Bob", "b:2")).unwrap();
    assert_eq!(b.get_contacts_count(), 2);
    assert_eq!(b.get_contact("1").unwrap().name, "Alice");
    b.update_contact_status("1", ContactStatus::Online).unwrap();
    assert_eq!(b.get_contact("1").unwrap().status, ContactStatus::Online);
    match b.update_contact_status("9", ContactStatus::Online) {
        Err(ContactError::ContactNotFound(m)) => assert_eq!(m, "Contact with ID 9 not found"),
        _ => panic!("expected not found"),
    }
    b.block_contact("2").unwrap();
    assert!(b.is_blocked("2"));
    b.remove_contact("2").unwrap();
    assert!(!b.has_contact("2"));
    assert!(!b.is_blocked("2"));
    assert!(b.remove_contact("2").is_err());
}

#[test]
fn blocking_needs_a_contact_and_unblocking_a_block() {
    let mut b = ContactBook::new();
    b.add_contact(contact("1", "A", "a")).unwrap();
    assert!(b.block_contact("7").is_err());
    b.block_contact_with_reason("1", "spam".to_string()).unwrap();
    assert_eq!(b.get_blocked_contact_info("1").unwrap().reason, "spam");
    assert_eq!(b.get_blocked_contact_ids(), vec!["1".to_string()]);
    assert_eq!(b.get_blocked_contacts()[0].name, "A");
    b.unblock_contact("1").unwrap();
    match b.unblock_contact("1") {
        Err(ContactError::ContactNotFound(m)) => assert_eq!(m, "Blocked contact with ID 1 not found"),
        _ => panic!("expected not found"),
    }
}

#[test]
fn search_ignores_letter_case() {
    let mut b = ContactBook::new();
    b.add_contact(contact("1", "Alice Smith", "10.0.0.1:80")).unwrap();
    b.add_contact(contact("2", "Bob", "example.ORG:1")).unwrap();
    assert_eq!(b.find_contacts_by_name("SMITH").len(), 1);
    assert_eq!(b.find_contacts_by_address("org").len(), 1);
    assert_eq!(b.find_contacts_by_name("zzz").len(), 0);
}

#[test]
fn bulk_and_import_count_contacts_only() {
    let mut b = ContactBook::new();
    b.add_contact(contact("1", "A", "a")).unwrap();
    b.add_contact(contact("2", "B", "b")).unwrap();
    let n = b.bulk_block_contacts(vec!["1".to_string(), "x".to_string(), "2".to_string()], "why".to_string());
    assert_eq!(n, 2);
    assert_eq!(b.get_blocked_count(), 2);
    assert_eq!(b.bulk_unblock_contacts(vec!["1".to_string(), "1".to_string()]), 1);
    let imported = b.import_blocked_list(vec![("1".to_string(), info(5)), ("q".to_string(), info(6))]);
    assert_eq!(imported, 1);
    assert!(b.is_blocked("1"));
}

#[test]
fn cleanup_forgets_old_blocks() {
    let mut b = ContactBook::new();
    b.add_contact(contact("1", "A", "a")).unwrap();
    b.add_contact(contact("2", "B", "b")).unwrap();
    b.block_contact_with_reason_at("1", "old".to_string(), 100).unwrap();
    b.block_contact_with_reason_at("2", "new".to_string(), 900).unwrap();
    assert_eq!(b.cleanup_blocked_before(500), 1);
    assert!(!b.is_blocked("1"));
    assert!(b.is_blocked("2"));
    assert_eq!(b.cleanup_old_blocked_contacts(0), 1);
    assert!(!b.is_blocked("2"));
    assert_eq!(b.cleanup_old_blocked_contacts(0), 0);
}

#[test]
fn merge_adds_updates_and_reports_conflicts() {
    let mut mine = ContactBook::new();
    mine.add_contact(contact("1", "A", "a")).unwrap();
    mine.add_contact(contact("2", "B", "b")).unwrap();
    let mut theirs = ContactBook::new();
    theirs.add_contact(contact("1", "A", "a")).unwrap();
    theirs.add_contact(contact("2", "B2", "b")).unwrap();
    theirs.add_contact(contact("3", "C", "c")).unwrap();
    theirs.block_contact_with_reason_at("3", "x".to_string(), 1).unwrap();
    let r = mine.merge_contact_book_at(&theirs, 77).unwrap();
    assert_eq!(r.contacts_added, 1);
    assert_eq!(r.contacts_updated, 1);
    assert_eq!(r.conflicts.len(), 1);
    assert_eq!(r.conflicts[0].contact_id, "2");
    assert_eq!(r.merge_time, 77);
    assert_eq!(mine.get_contact("2").unwrap().name, "B");
    assert!(mine.is_blocked("3"));
}

#[test]
fn integrity_problems_are_listed() {
    let b = ContactBook::from_entries(
        vec![("k".to_string(), contact("other", " ", "a")), ("2".to_string(), contact("2", "B", ""))],
        vec![("ghost".to_string(), info(1))],
    );
    assert_eq!(
        b.validate_integrity(),
        vec![
            "Contact ID mismatch: other vs k".to_string(),
            "Contact k has empty name".to_string(),
            "Contact 2 has empty address".to_string(),
            "Blocked contact ghost not found in contacts".to_string(),
        ]
    );
    let mut ok = ContactBook::new();
    ok.add_contact(contact("1", "A", "a:1")).unwrap();
    assert!(ok.validate_integrity().is_empty());
}

#[test]
fn contact_error_messages() {
    assert_eq!(ContactError::ContactExists("d".to_string()).message(), "Contact exists: d");
    assert_eq!(ContactError::IoError("e".to_string()).message(), "IO error: e");
}

#[test]
fn merge_conflicts_keep_both_contacts() {
    let mut mine = ContactBook::new();
    mine.add_contact(contact("2", "B", "b")).unwrap();
    let mut theirs = ContactBook::new();
    theirs.add_contact(contact("2", "B2", "b")).unwrap();
    theirs.add_contact(contact("4", "D", "d")).unwrap();
    let r = mine.merge_contact_book_at(&theirs, 5).unwrap();
    assert_eq!(r.contacts_added + r.contacts_updated + r.conflicts.len() as u32, 2);
    assert_eq!(r.conflicts[0].existing_contact.name, "B");
    assert_eq!(r.conflicts[0].incoming_contact.name, "B2");
    assert_eq!(mine.get_contacts_count(), 2);
}
