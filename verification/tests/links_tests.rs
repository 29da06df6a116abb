use shadowghost::contacts::ContactError;
use shadowghost::links::{contact_from_link_peer, link_from_json, link_payload, link_peer_data};
use shadowghost::network::{ContactStatus, PeerData, TrustLevel};
use shadowghost::node::Peer;

#[test]
fn link_reads_back_to_its_json() {
    let json = "{\"id\":\"1\",\"name\":\"Zoë\"}";
    let link = link_from_json(json);
    assert!(link.starts_with("sg://"));
    assert_eq!(link, format!("sg://{}", "eyJpZCI6IjEiLCJuYW1lIjoiWm/DqyJ9"));
    assert_eq!(link_payload(&link).unwrap(), json);
}

#[test]
fn bad_links_are_refused() {
    match link_payload("http://x") {
        Err(ContactError::InvalidContact(m)) => assert_eq!(m, "Invalid SG link format"),
        _ => panic!("expected refusal"),
    }
    match link_payload("sg://!!!") {
        Err(ContactError::InvalidContact(m)) => assert!(m.starts_with("Decode error: ")),
        _ => panic!("expected refusal"),
    }
    match link_payload("sg:///w==") {
        Err(ContactError::InvalidContact(m)) => assert_eq!(m, "UTF-8 conversion failed"),
        _ => panic!("expected refusal"),
    }
}

#[test]
fn own_link_is_refused_and_others_become_contacts() {
    let pd = PeerData {
        id: "i".to_string(),
        name: "me".to_string(),
        address: "h:1".to_string(),
        public_key: vec![],
        connected_at: 1,
        last_seen: 2,
        bytes_sent: 0,
        bytes_received: 0,
    };
    match contact_from_link_peer(&pd, "me") {
        Err(ContactError::InvalidContact(m)) => assert_eq!(m, "Cannot add yourself as contact"),
        _ => panic!("expected refusal"),
    }
    let c = contact_from_link_peer(&pd, "you").unwrap();
    assert_eq!((c.status, c.trust_level, c.last_seen), (ContactStatus::Offline, TrustLevel::Pending, Some(2)));
}

#[test]
fn link_record_of_a_peer() {
    let p = Peer::with_address("n".to_string(), "1.2.3.4".to_string(), 99);
    let d = link_peer_data(&p, 5);
    assert_eq!(d.address, "1.2.3.4:99");
    assert_eq!((d.connected_at, d.last_seen, d.bytes_sent), (5, 5, 0));
}

#[test]
fn links_that_are_not_base64_are_refused() {
    match link_payload("sg://!!") {
        Err(ContactError::InvalidContact(m)) => assert!(m.starts_with("Decode error: ")),
        _ => panic!("expected a decode error"),
    }
    match link_payload("sg://TWFu") {
        Ok(t) => assert_eq!(t, "Man"),
        _ => panic!("expected the payload"),
    }
    assert_eq!(link_from_json("M"), "sg://TQ==");
}
