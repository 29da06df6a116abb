use shadowghost::crypto::{PublicKey, SecurityLevelType};
use shadowghost::events::{AppEvent, CryptoEvent};
use shadowghost::node::Config;
use shadowghost::security::SecurityManager;

fn manager() -> SecurityManager {
    SecurityManager::new(Config::for_profile("p", "id".to_string(), 7)).unwrap()
}

#[test]
fn a_new_manager_knows_no_peer() {
    let mut m = manager();
    assert!(!m.is_peer_trusted("a"));
    assert!(!m.is_peer_blocked("a"));
    let st = m.get_trust_stats();
    assert_eq!((st.trusted_peers, st.blocked_peers, st.total_known_peers), (0, 0, 0));
    assert_eq!(m.get_public_key().key_data, (32u8..64).collect::<Vec<u8>>());
    assert!(matches!(m.initialize(), Ok(AppEvent::Crypto(CryptoEvent::KeyPairGenerated))));
}

#[test]
fn blocking_wins_over_trust() {
    let mut m = manager();
    m.add_trusted_key("a".to_string(), PublicKey::new(vec![1, 2]));
    assert_eq!(m.get_security_level("a").level, SecurityLevelType::Trusted);
    assert_eq!(m.get_security_level("a").description, "This peer is trusted and verified");
    m.block_peer("a".to_string());
    assert!(m.is_peer_blocked("a"));
    assert_eq!(m.get_security_level("a").level, SecurityLevelType::Blocked);
    m.unblock_peer("a");
    assert!(!m.is_peer_blocked("a"));
    assert_eq!(m.get_security_level("a").level, SecurityLevelType::Trusted);
    assert_eq!(m.get_security_level("z").level, SecurityLevelType::Unknown);
    assert_eq!(
        m.get_security_level("z").description,
        "This peer's identity has not been verified"
    );
}

#[test]
fn identity_needs_the_same_key_bytes() {
    let mut m = manager();
    assert!(!m.validate_peer_identity("a", &PublicKey::new(vec![1])));
    m.add_trusted_key("a".to_string(), PublicKey::new(vec![1, 2, 3]));
    assert!(m.validate_peer_identity("a", &PublicKey::new(vec![1, 2, 3])));
    assert!(!m.validate_peer_identity("a", &PublicKey::new(vec![1, 2])));
    m.add_trusted_key("a".to_string(), PublicKey::new(vec![9]));
    assert!(m.validate_peer_identity("a", &PublicKey::new(vec![9])));
    m.remove_trusted_key("a");
    assert!(!m.is_peer_trusted("a"));
}

#[test]
fn stats_count_both_lists() {
    let mut m = manager();
    m.add_trusted_key("a".to_string(), PublicKey::new(vec![]));
    m.add_trusted_key("b".to_string(), PublicKey::new(vec![]));
    m.block_peer("c".to_string());
    m.block_peer("c".to_string());
    let st = m.get_trust_stats();
    assert_eq!((st.trusted_peers, st.blocked_peers, st.total_known_peers), (2, 1, 3));
    let mut blocked = m.get_blocked_peers();
    blocked.sort();
    assert_eq!(blocked, vec!["c".to_string()]);
    assert_eq!(m.get_trusted_keys().len(), 2);
    m.clear_all_trusted_keys();
    m.clear_all_blocked_peers();
    assert_eq!(m.get_trust_stats().total_known_peers, 0);
}

#[test]
fn import_takes_only_new_peers() {
    let mut m = manager();
    m.add_trusted_key("a".to_string(), PublicKey::new(vec![1]));
    let batch = vec![
        ("a".to_string(), PublicKey::new(vec![7])),
        ("b".to_string(), PublicKey::new(vec![2])),
    ];
    assert_eq!(m.import_trusted_keys(batch).unwrap(), 1);
    assert!(m.validate_peer_identity("a", &PublicKey::new(vec![1])));
    assert!(m.validate_peer_identity("b", &PublicKey::new(vec![2])));
    let again = vec![("b".to_string(), PublicKey::new(vec![2]))];
    assert_eq!(m.import_trusted_keys(again).unwrap(), 0);
}

#[test]
fn sealing_signing_and_hashing_go_through() {
    let m = manager();
    let key = m.get_public_key();
    let sealed = m.encrypt_message("hi", &key).unwrap();
    assert_eq!(sealed.data, b"hi".to_vec());
    assert_eq!(m.decrypt_message(&sealed).unwrap(), "hi");
    let mut bad = m.encrypt_message("x", &key).unwrap();
    bad.data = vec![0xff];
    let err = m.decrypt_message(&bad).unwrap_err();
    assert!(err.starts_with("Decryption failed: Decryption failed: "));
    assert_eq!(m.sign_data(&[1, 255]).unwrap(), vec![2, 0]);
    assert_eq!(m.verify_signature(&[1], &[2], &key), Ok(true));
    assert_eq!(m.derive_shared_secret(&key).unwrap(), (0u8..32).collect::<Vec<u8>>());
    let h = m.hash_data(&[1, 2]);
    assert_eq!(h.len(), 32);
    assert_eq!((h[0], h[1], h[2]), (1, 2, 0));
    assert_eq!(m.encrypt_for_storage(&[5, 6]).unwrap(), vec![5, 6]);
    assert_eq!(m.decrypt_from_storage(&[5, 6]).unwrap(), vec![5, 6]);
}
