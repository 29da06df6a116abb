use shadowghost::stun::{
    create_stun_binding_request, extract_ip_from_xml, lines, parse_stun_response, parse_upnp_location, stun_binding_request,
    ConnectivityInfo, StunError,
};

fn header(len: u16) -> Vec<u8> {
    let mut v = vec![0x01, 0x01, (len >> 8) as u8, (len & 0xff) as u8, 0x21, 0x12, 0xA4, 0x42];
    v.extend_from_slice(&[0u8; 12]);
    v
}

#[test]
fn binding_request_layout() {
    let r = stun_binding_request([7u8; 12]);
    assert_eq!(&r[..8], &[0x00, 0x01, 0x00, 0x00, 0x21, 0x12, 0xA4, 0x42]);
    assert_eq!(&r[8..], &[7u8; 12]);
    assert_eq!(create_stun_binding_request().len(), 20);
}

#[test]
fn mapped_and_xor_mapped_addresses() {
    let mut d = header(12);
    d.extend_from_slice(&[0x00, 0x01, 0x00, 0x08, 0x00, 0x01, 0x1f, 0x90, 192, 168, 1, 2]);
    assert_eq!(parse_stun_response(&d), Ok([192, 168, 1, 2]));
    let mut x = header(24);
    x.extend_from_slice(&[0x80, 0x22, 0x00, 0x04, 1, 2, 3, 4]);
    x.extend_from_slice(&[0x00, 0x20, 0x00, 0x08, 0x00, 0x01, 0x00, 0x00, 0x21 ^ 10, 0x12 ^ 0, 0xA4 ^ 0, 0x42 ^ 1]);
    assert_eq!(parse_stun_response(&x), Ok([10, 0, 0, 1]));
}

#[test]
fn broken_responses() {
    assert_eq!(parse_stun_response(&[0u8; 10]), Err(StunError::TooShort));
    let mut d = header(0);
    d[4] = 0;
    assert_eq!(parse_stun_response(&d), Err(StunError::BadCookie));
    assert_eq!(parse_stun_response(&header(0)), Err(StunError::NoAddress));
    assert_eq!(StunError::BadCookie.message(), "Invalid STUN magic cookie");
}

#[test]
fn lines_follow_str_lines() {
    for t in ["a\r\nb\n", "a\n\nb", "", "x\r", "\n", "one"] {
        let ours = lines(t);
        let std: Vec<String> = t.lines().map(|l| l.to_string()).collect();
        assert_eq!(ours, std, "text {:?}", t);
    }
}

#[test]
fn upnp_location_and_router_address() {
    let reply = "HTTP/1.1 200 OK\r\nLOCATION: http://192.168.1.1:5000/desc.xml\r\nST: x\r\n\r\n";
    assert_eq!(parse_upnp_location(reply), Some("http://192.168.1.1:5000/desc.xml".to_string()));
    assert_eq!(parse_upnp_location("no\r\nheaders"), None);
    let xml = "<r><ExternalIPAddress>203.0.113.7</ExternalIPAddress></r>";
    assert_eq!(extract_ip_from_xml(xml), Some("203.0.113.7".to_string()));
    assert_eq!(extract_ip_from_xml("<ExternalIPAddress>1.2.3.4"), None);
    assert_eq!(extract_ip_from_xml("nothing"), None);
}

#[test]
fn recommended_ports_skip_blocked_ones() {
    let info = ConnectivityInfo {
        has_internet: true,
        external_ip: None,
        can_use_stun: false,
        can_use_upnp: false,
        blocked_ports: vec![80, 9000],
    };
    assert_eq!(info.get_recommended_ports(), vec![443, 8080, 8443, 8000, 3000]);
}

#[test]
fn the_summary_reads_as_the_user_sees_it() {
    let offline = ConnectivityInfo {
        has_internet: false,
        external_ip: None,
        can_use_stun: false,
        can_use_upnp: false,
        blocked_ports: vec![],
    };
    assert_eq!(
        offline.summary_lines(),
        vec![
            "\n🌐 Network Connectivity Summary:".to_string(),
            "================================".to_string(),
            "❌ Internet connectivity: Not available".to_string(),
        ]
    );
    let online = ConnectivityInfo {
        has_internet: true,
        external_ip: Some("1.2.3.4".to_string()),
        can_use_stun: true,
        can_use_upnp: false,
        blocked_ports: vec![80, 443, 8080, 8443, 8000],
    };
    let lines = online.summary_lines();
    assert_eq!(lines[3], "🌍 External IP: 1.2.3.4");
    assert_eq!(lines[4], "📡 STUN connectivity: Working");
    assert_eq!(lines[5], "🚫 UPnP connectivity: Not available");
    assert_eq!(lines[6], format!("⚠️ Blocked ports: {:?}", vec![80u16, 443, 8080, 8443, 8000]));
    assert_eq!(lines[7], "⚠️ Warning: Many ports blocked - you may be behind restrictive firewall");
    let clear = ConnectivityInfo { blocked_ports: vec![], ..online };
    assert_eq!(clear.summary_lines().last().unwrap(), "✅ Common ports: All accessible");
}
