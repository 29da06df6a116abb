use shadowghost::node::{
    join_path, order_profiles, profiles_dir_under, Config, CoreError, Peer, Profile, ProfileManager,
};

#[test]
fn address_with_port_is_split() {
    let p = Peer::new("bob".to_string(), "10.1.2.3:9000".to_string());
    assert_eq!(p.address, "10.1.2.3");
    assert_eq!(p.port, 9000);
    assert_eq!(p.id.len(), 36);
    assert!(p.public_key.is_empty());
}

#[test]
fn address_without_valid_port_keeps_default() {
    assert_eq!(Peer::parse_address("host"), ("host".to_string(), 8080));
    assert_eq!(Peer::parse_address("host:notaport"), ("host:notaport".to_string(), 8080));
    assert_eq!(Peer::parse_address("host:70000"), ("host:70000".to_string(), 8080));
    assert_eq!(Peer::parse_address("[::1]:443"), ("[::1]".to_string(), 443));
    assert_eq!(Peer::parse_address("a:b:+12"), ("a:b".to_string(), 12));
}

#[test]
fn full_address_and_info() {
    let p = Peer::with_address("alice".to_string(), "1.2.3.4".to_string(), 5555);
    assert_eq!(p.get_full_address(), "1.2.3.4:5555");
    assert_eq!(p.get_info(), "alice (1.2.3.4:5555)");
}

#[test]
fn short_id_takes_eight_bytes() {
    let mut p = Peer::with_address("a".to_string(), "h".to_string(), 1);
    p.id = "0123456789".to_string();
    assert_eq!(p.get_short_id(), "01234567");
    p.id = "abc".to_string();
    assert_eq!(p.get_short_id(), "abc");
}

#[test]
fn entropy_id_joins_uuid_and_number() {
    assert_eq!(Peer::entropy_id("u".to_string(), 1234), "u_1234");
    let p = Peer::new_with_entropy("n".to_string(), "h:1".to_string());
    assert_eq!(&p.id[36..37], "_");
    assert!(p.id[37..].chars().all(|c| c.is_ascii_digit()));
}

#[test]
fn update_address_and_key() {
    let mut p = Peer::with_address("a".to_string(), "h".to_string(), 1);
    p.update_address("k".to_string(), 2);
    p.set_public_key(vec![5, 6]);
    assert_eq!((p.address.as_str(), p.port), ("k", 2));
    assert_eq!(p.public_key, vec![5, 6]);
}

#[test]
fn fresh_profile_config() {
    let c = Config::for_profile("/home/u/p", "pid".to_string(), 1999);
    assert_eq!(c.user_name, "User");
    assert_eq!(c.network.port, 8080 + 999);
    assert_eq!(c.network.max_peers, 50);
    assert_eq!(c.storage.data_path, "/home/u/p");
    let d = Config::default_for_profile("/x");
    assert!(d.network.port >= 8080 && d.network.port < 9080);
    assert_eq!(d.profile_id.len(), 36);
}

#[test]
fn paths_join_as_on_unix() {
    assert_eq!(join_path("/a", "b"), "/a/b");
    assert_eq!(join_path("/a/", "b"), "/a/b");
    assert_eq!(join_path("", "b"), "b");
    assert_eq!(join_path("/a", "/b"), "/b");
    assert_eq!(profiles_dir_under("/home/u/.local/share"), "/home/u/.local/share/shadowghost/profiles");
    let pm = ProfileManager::with_dir("/p".to_string());
    assert_eq!(pm.get_profile_path("abc"), "/p/abc");
}

#[test]
fn core_error_messages() {
    assert_eq!(CoreError::Network("x".to_string()).message(), "Network error: x");
    assert_eq!(CoreError::InvalidState("y".to_string()).message(), "Invalid state: y");
    assert_eq!(CoreError::Config("z".to_string()).message(), "Configuration error: z");
}

#[test]
fn a_full_address_reads_back() {
    for (host, port) in [("10.0.0.1", 9000u16), ("a:b", 0), ("", 65535), ("[::1]", 443)] {
        let text = format!("{}:{}", host, port);
        assert_eq!(Peer::parse_address(&text), (host.to_string(), port));
        let p = Peer::new("n".to_string(), text.clone());
        assert_eq!(p.get_full_address(), text);
    }
}

#[test]
fn profiles_are_ordered_by_last_use() {
    let p = |id: &str, used: i64| Profile { id: id.to_string(), name: id.to_string(), created_at: 0, last_used: used };
    let ordered = order_profiles(vec![p("a", 5), p("b", 9), p("c", 1), p("d", 9)]);
    let ids: Vec<&str> = ordered.iter().map(|x| x.id.as_str()).collect();
    assert_eq!(ids, vec!["b", "d", "a", "c"]);
    assert!(order_profiles(vec![]).is_empty());
}
