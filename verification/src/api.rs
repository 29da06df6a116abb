//! Checks and replies of the operations offered to the user interface.
use vstd::prelude::*;
use crate::clock::utc_now_millis;
use crate::contact_manager::{count_char, port_of};
use crate::contacts::{ContactStats, matching_name, online_pred, trust_pred, trusted_pred};
use crate::engine::{ShadowGhostCore, link_record};
use crate::entropy::new_uuid_v4;
use crate::links::spec_link;
use crate::network::{Contact, ContactStatus, NetworkStats, TrustLevel};
use crate::text::{chars_of, decimal, has_prefix, last_index_of, push_decimal, spec_parse_u16, trim, trim_chars};

verus! {

/// An address the interface accepts: one colon, and after it a port number above zero.
pub open spec fn valid_address(a: Seq<char>) -> bool {
    &&& count_char(a, ':') == 1
    &&& (last_index_of(a, ':') matches Some(i) && (spec_parse_u16(a.subrange(i + 1, a.len() as int)) matches Some(p) && p > 0))
}

/// Whether `address` is one the interface accepts: `host:port` with one colon and a port
/// above zero.
pub fn is_valid_address(address: &str) -> (res: bool)
    ensures
        res == valid_address(address@),
{
    match port_of(address) {
        Some(p) => p > 0,
        None => false,
    }
}

/// The answer when no core is running.
pub open spec fn not_initialized() -> Seq<char> {
    "Core not initialized"@
}

/// The reply to a request to connect to `peer_address`, with a core running or not: an empty
/// address is refused first, then the request without a core, then a malformed address;
/// otherwise the notice that the connection began.
pub fn connect_to_peer(initialized: bool, peer_address: &str) -> (res: Result<String, String>)
    ensures
        peer_address@.len() == 0 ==> (res matches Err(e) && e@ == "Peer address cannot be empty"@),
        peer_address@.len() > 0 && !initialized ==> (res matches Err(e) && e@ == not_initialized()),
        peer_address@.len() > 0 && initialized && !valid_address(peer_address@) ==> (res matches Err(e) && e@
            == "Invalid peer address format"@),
        peer_address@.len() > 0 && initialized && valid_address(peer_address@) ==> (res matches Ok(m) && m@
            == "Successfully initiated connection to "@ + peer_address@),
{
    if chars_of(peer_address).len() == 0 {
        return Err("Peer address cannot be empty".to_string());
    }
    if !initialized {
        return Err("Core not initialized".to_string());
    }
    if !is_valid_address(peer_address) {
        return Err("Invalid peer address format".to_string());
    }
    let mut m = "Successfully initiated connection to ".to_string();
    m.append(peer_address);
    Ok(m)
}

/// The reply to a request to disconnect from `peer_id`: an empty identifier is refused first,
/// then the request without a core; otherwise the notice of the disconnection.
pub fn disconnect_from_peer(initialized: bool, peer_id: &str) -> (res: Result<String, String>)
    ensures
        peer_id@.len() == 0 ==> (res matches Err(e) && e@ == "Peer ID cannot be empty"@),
        peer_id@.len() > 0 && !initialized ==> (res matches Err(e) && e@ == not_initialized()),
        peer_id@.len() > 0 && initialized ==> (res matches Ok(m) && m@ == "Successfully disconnected from peer "@
            + peer_id@),
{
    if chars_of(peer_id).len() == 0 {
        return Err("Peer ID cannot be empty".to_string());
    }
    if !initialized {
        return Err("Core not initialized".to_string());
    }
    let mut m = "Successfully disconnected from peer ".to_string();
    m.append(peer_id);
    Ok(m)
}

/// The reply to a ping of `peer_id` that took `elapsed_ms` milliseconds: an empty identifier
/// is refused first, then the request without a core.
pub fn ping_peer(initialized: bool, peer_id: &str, elapsed_ms: u64) -> (res: Result<u64, String>)
    ensures
        peer_id@.len() == 0 ==> (res matches Err(e) && e@ == "Peer ID cannot be empty"@),
        peer_id@.len() > 0 && !initialized ==> (res matches Err(e) && e@ == not_initialized()),
        peer_id@.len() > 0 && initialized ==> res == Ok::<u64, String>(elapsed_ms),
{
    if chars_of(peer_id).len() == 0 {
        return Err("Peer ID cannot be empty".to_string());
    }
    if !initialized {
        return Err("Core not initialized".to_string());
    }
    Ok(elapsed_ms)
}

/// The reply to a request for new network settings: refused without a core, then for ports
/// below 1024, then for no peers; otherwise the notice of the settings.
pub fn set_network_config(initialized: bool, max_peers: u32, port: u16) -> (res: Result<String, String>)
    ensures
        !initialized ==> (res matches Err(e) && e@ == not_initialized()),
        initialized && port < 1024 ==> (res matches Err(e) && e@ == "Port must be >= 1024"@),
        initialized && port >= 1024 && max_peers == 0 ==> (res matches Err(e) && e@ == "Max peers must be > 0"@),
        initialized && port >= 1024 && max_peers > 0 ==> (res matches Ok(m) && m@
            == "Network config updated: max_peers="@ + decimal(max_peers as nat) + ", port="@ + decimal(
            port as nat,
        )),
{
    if !initialized {
        return Err("Core not initialized".to_string());
    }
    if port < 1024 {
        return Err("Port must be >= 1024".to_string());
    }
    if max_peers == 0 {
        return Err("Max peers must be > 0".to_string());
    }
    let mut m = "Network config updated: max_peers=".to_string();
    push_decimal(&mut m, max_peers as u128);
    m.append(", port=");
    push_decimal(&mut m, port as u128);
    Ok(m)
}

/// The reply to starting discovery: refused without a core.
pub fn start_discovery(initialized: bool) -> (res: Result<String, String>)
    ensures
        !initialized ==> (res matches Err(e) && e@ == not_initialized()),
        initialized ==> (res matches Ok(m) && m@ == "Discovery started successfully"@),
{
    if initialized {
        Ok("Discovery started successfully".to_string())
    } else {
        Err("Core not initialized".to_string())
    }
}

/// The reply to stopping discovery: refused without a core.
pub fn stop_discovery(initialized: bool) -> (res: Result<String, String>)
    ensures
        !initialized ==> (res matches Err(e) && e@ == not_initialized()),
        initialized ==> (res matches Ok(m) && m@ == "Discovery stopped successfully"@),
{
    if initialized {
        Ok("Discovery stopped successfully".to_string())
    } else {
        Err("Core not initialized".to_string())
    }
}

/// The reply to switching automatic discovery on or off: refused without a core.
pub fn enable_auto_discovery(initialized: bool, enabled: bool) -> (res: Result<String, String>)
    ensures
        !initialized ==> (res matches Err(e) && e@ == not_initialized()),
        initialized && enabled ==> (res matches Ok(m) && m@ == "Auto-discovery enabled"@),
        initialized && !enabled ==> (res matches Ok(m) && m@ == "Auto-discovery disabled"@),
{
    if !initialized {
        return Err("Core not initialized".to_string());
    }
    if enabled {
        Ok("Auto-discovery enabled".to_string())
    } else {
        Ok("Auto-discovery disabled".to_string())
    }
}

/// The network counters to report: those of the running core, or all zero without one.
pub fn get_network_stats(core_stats: Option<NetworkStats>) -> (res: NetworkStats)
    ensures
        res == (match core_stats {
            Some(s) => s,
            None => NetworkStats::spec_with_peers(0),
        }),
{
    match core_stats {
        Some(s) => s,
        None => NetworkStats::zero(),
    }
}

/// Whether the network counts as active: a running core with at least one connected peer.
pub fn is_network_active(core_stats: Option<NetworkStats>) -> (res: bool)
    ensures
        res == (core_stats matches Some(s) && s.connected_peers > 0),
{
    match core_stats {
        Some(s) => s.connected_peers > 0,
        None => false,
    }
}

/// A peer that a scan of the local network found.
#[derive(Debug, Clone)]
pub struct DiscoveredPeer {
    pub id: String,
    pub name: String,
    pub address: String,
    /// From 0 to 100.
    pub signal_strength: u8,
    /// Milliseconds since the Unix epoch.
    pub last_seen: i64,
}

/// The peers a scan at `now` (milliseconds since the Unix epoch) reports: two fixed local
/// peers, seen now; refused without a core.
pub fn scan_for_peers(initialized: bool, now: i64) -> (res: Result<Vec<DiscoveredPeer>, String>)
    ensures
        !initialized ==> (res matches Err(e) && e@ == not_initialized()),
        initialized ==> (res matches Ok(v) && v@.len() == 2 && v@[0].id@ == "peer1"@ && v@[0].name@
            == "Local Peer 1"@ && v@[0].address@ == "192.168.1.100:8080"@ && v@[0].signal_strength == 85
            && v@[0].last_seen == now && v@[1].id@ == "peer2"@ && v@[1].name@ == "Local Peer 2"@
            && v@[1].address@ == "192.168.1.101:8080"@ && v@[1].signal_strength == 70 && v@[1].last_seen == now),
{
    if !initialized {
        return Err("Core not initialized".to_string());
    }
    let mut v: Vec<DiscoveredPeer> = Vec::new();
    v.push(
        DiscoveredPeer {
            id: "peer1".to_string(),
            name: "Local Peer 1".to_string(),
            address: "192.168.1.100:8080".to_string(),
            signal_strength: 85,
            last_seen: now,
        },
    );
    v.push(
        DiscoveredPeer {
            id: "peer2".to_string(),
            name: "Local Peer 2".to_string(),
            address: "192.168.1.101:8080".to_string(),
            signal_strength: 70,
            last_seen: now,
        },
    );
    Ok(v)
}

/// What a peer says of itself when tested.
#[derive(Debug, Clone)]
pub struct PeerInfo {
    pub name: String,
    pub version: String,
    pub supported_protocols: Vec<String>,
}

/// The outcome of a connection test.
#[derive(Debug, Clone)]
pub struct ConnectionTestResult {
    pub success: bool,
    pub ping_time: u64,
    pub error: Option<String>,
    pub peer_info: Option<PeerInfo>,
}

/// The outcome of testing the connection to `peer_address`, the test taking `ping_time`
/// milliseconds: an error for an empty address; a failure for a malformed one; otherwise a
/// success with the test peer's description.
pub fn connection_test_result(peer_address: &str, ping_time: u64) -> (res: Result<ConnectionTestResult, String>)
    ensures
        peer_address@.len() == 0 ==> (res matches Err(e) && e@ == "Peer address cannot be empty"@),
        peer_address@.len() > 0 && !valid_address(peer_address@) ==> (res matches Ok(r) && !r.success
            && r.ping_time == 0 && (r.error matches Some(e) && e@ == "Invalid address format"@)
            && r.peer_info is None),
        peer_address@.len() > 0 && valid_address(peer_address@) ==> (res matches Ok(r) && r.success
            && r.ping_time == ping_time && r.error is None && (r.peer_info matches Some(p) && p.name@
            == "Test Peer"@ && p.version@ == "1.0.0"@ && p.supported_protocols@.len() == 1
            && p.supported_protocols@[0]@ == "SG/1.0"@)),
{
    if chars_of(peer_address).len() == 0 {
        return Err("Peer address cannot be empty".to_string());
    }
    if !is_valid_address(peer_address) {
        return Ok(ConnectionTestResult {
            success: false,
            ping_time: 0,
            error: Some("Invalid address format".to_string()),
            peer_info: None,
        });
    }
    let mut protocols: Vec<String> = Vec::new();
    protocols.push("SG/1.0".to_string());
    Ok(ConnectionTestResult {
        success: true,
        ping_time,
        error: None,
        peer_info: Some(PeerInfo {
            name: "Test Peer".to_string(),
            version: "1.0.0".to_string(),
            supported_protocols: protocols,
        }),
    })
}

/// Whether a line of `s` opens at `p` with `Address:`.
pub open spec fn address_line_at(s: Seq<char>, p: int) -> bool {
    0 <= p <= s.len() && (p == 0 || s[p - 1] == '\n') && has_prefix(s.subrange(p, s.len() as int), "Address:"@)
}

/// Where the field that starts at `q` ends: at the next colon or line break, or at the end.
pub open spec fn field_end(s: Seq<char>, q: int) -> int
    decreases s.len() - q,
{
    if q >= s.len() || s[q] == ':' || s[q] == '\n' {
        q
    } else {
        field_end(s, q + 1)
    }
}

/// The address that a connection report `info` gives on its first line opening with
/// `Address:` (the text after that, up to the next colon or the end of the line, trimmed);
/// `127.0.0.1:8080` where no line does.
pub open spec fn reported_address(s: Seq<char>) -> Seq<char> {
    match first_address_line(s, 0) {
        Some(p) => trim(s.subrange(p + 8, field_end(s, p + 8))),
        None => "127.0.0.1:8080"@,
    }
}

/// The first position from `p` on where a line opens with `Address:`.
pub open spec fn first_address_line(s: Seq<char>, p: int) -> Option<int>
    decreases s.len() + 1 - p,
{
    if p < 0 || p > s.len() {
        None
    } else if address_line_at(s, p) {
        Some(p)
    } else {
        first_address_line(s, p + 1)
    }
}

/// Where the field that starts at `q` of `cs` ends.
fn field_end_at(cs: &Vec<char>, q: usize) -> (e: usize)
    requires
        q <= cs@.len(),
    ensures
        e == field_end(cs@, q as int),
        q <= e <= cs@.len(),
{
    let n = cs.len();
    let mut e: usize = q;
    while e < n && cs[e] != ':' && cs[e] != '\n'
        invariant
            q <= e <= n,
            n == cs@.len(),
            field_end(cs@, q as int) == field_end(cs@, e as int),
        decreases n - e,
    {
        e = e + 1;
    }
    e
}

/// Whether a line of `cs` opens at `p` with `Address:`.
fn address_line_starts(cs: &Vec<char>, p: usize) -> (res: bool)
    requires
        p <= cs@.len(),
    ensures
        res == address_line_at(cs@, p as int),
{
    let at_start = p == 0 || cs[p - 1] == '\n';
    if !at_start {
        return false;
    }
    let prefix: Vec<char> = vec!['A', 'd', 'd', 'r', 'e', 's', 's', ':'];
    proof {
        reveal_strlit("Address:");
        assert(prefix@ =~= "Address:"@);
    }
    let rest = crate::text::slice_range(cs.as_slice(), p, cs.len());
    crate::text::starts_with_chars(rest.as_slice(), prefix.as_slice())
}

/// The trimmed field after `Address:` on the line that opens at `p` of `cs`.
fn field_after(cs: &Vec<char>, p: usize) -> (res: String)
    requires
        address_line_at(cs@, p as int),
    ensures
        res@ == trim(cs@.subrange(p + 8, field_end(cs@, p + 8))),
{
    proof {
        reveal_strlit("Address:");
        assert(has_prefix(cs@.subrange(p as int, cs@.len() as int), "Address:"@));
        assert("Address:"@.len() == 8);
    }
    let n = cs.len();
    assert(p + 8 <= n);
    let q = p + 8;
    let e = field_end_at(cs, q);
    let field = crate::text::slice_range(cs.as_slice(), q, e);
    let t = trim_chars(field.as_slice());
    crate::text::string_from_chars(t.as_slice())
}

/// The address that the connection report `info` gives.
pub fn address_from_report(info: &str) -> (res: String)
    ensures
        res@ == reported_address(info@),
{
    let cs = chars_of(info);
    let ghost s = info@;
    let n = cs.len();
    let mut p: usize = 0;
    while p < n
        invariant
            p <= n,
            n == s.len(),
            s == info@,
            cs@ == s,
            first_address_line(s, 0) == first_address_line(s, p as int),
        decreases n - p,
    {
        if address_line_starts(&cs, p) {
            assert(first_address_line(s, p as int) == Some(p as int));
            let r = field_after(&cs, p);
            assert(reported_address(s) == trim(s.subrange(p + 8, field_end(s, p + 8))));
            return r;
        }
        p = p + 1;
    }
    if address_line_starts(&cs, n) {
        assert(first_address_line(s, n as int) == Some(n as int));
        return field_after(&cs, n);
    }
    assert(first_address_line(s, n as int + 1) is None);
    "127.0.0.1:8080".to_string()
}

/// The name the user interface gives the user of the core it makes.
pub open spec fn interface_user() -> Seq<char> {
    "Flutter User"@
}

/// The messenger's core as the user interface holds it: none until one is made and
/// initialized, and none again after a shutdown.
pub struct CoreHandle {
    core: Option<ShadowGhostCore>,
}

impl CoreHandle {
    /// Whether a core is held.
    pub closed spec fn spec_present(&self) -> bool {
        self.core is Some
    }

    /// The name of the user of the core held.
    pub closed spec fn spec_user_name(&self) -> Seq<char> {
        match self.core {
            Some(c) => c.spec_user_name(),
            None => Seq::empty(),
        }
    }

    /// The contacts of the core held, by identifier.
    pub closed spec fn spec_contacts(&self) -> Map<Seq<char>, Contact> {
        match self.core {
            Some(c) => c.spec_contacts(),
            None => Map::empty(),
        }
    }

    /// The contacts of the core held, in the order they are kept.
    pub closed spec fn spec_contact_values(&self) -> Seq<Contact> {
        match self.core {
            Some(c) => c.spec_contact_values(),
            None => Seq::empty(),
        }
    }

    /// A core held is well formed and initialized.
    pub closed spec fn wf(&self) -> bool {
        self.core matches Some(c) ==> c.wf() && c.spec_initialized()
    }

    /// A handle holding no core.
    pub fn new() -> (res: CoreHandle)
        ensures
            res.wf(),
            !res.spec_present(),
    {
        CoreHandle { core: None }
    }

    /// Makes a core, initializes it for the interface's user, and holds it in place of any
    /// other.
    pub fn initialize_core(&mut self) -> (res: Result<String, String>)
        ensures
            final(self).wf(),
            final(self).spec_present(),
            final(self).spec_user_name() == interface_user(),
            res matches Ok(m) && m@ == "Core initialized successfully"@,
    {
        let mut core = match ShadowGhostCore::new() {
            Ok(c) => c,
            Err(e) => {
                let mut m = "Failed to create core: ".to_string();
                let t = e.message();
                m.append(t.as_str());
                return Err(m);
            },
        };
        match core.initialize(Some("Flutter User".to_string())) {
            Ok(()) => {},
            Err(e) => {
                let mut m = "Failed to initialize core: ".to_string();
                let t = e.message();
                m.append(t.as_str());
                return Err(m);
            },
        }
        self.core = Some(core);
        Ok("Core initialized successfully".to_string())
    }

    /// Drops the core held; refused where there is none.
    pub fn shutdown_core(&mut self) -> (res: Result<String, String>)
        ensures
            old(self).spec_present() ==> (res matches Ok(m) && m@ == "Core shutdown successfully"@
                && !final(self).spec_present() && final(self).wf()),
            !old(self).spec_present() ==> (res matches Err(e) && e@ == not_initialized() && *final(self) == *old(self)),
    {
        if self.core.is_some() {
            self.core = None;
            Ok("Core shutdown successfully".to_string())
        } else {
            Err("Core not initialized".to_string())
        }
    }

    /// Whether a core is held.
    pub fn is_core_initialized(&self) -> (res: bool)
        ensures
            res == self.spec_present(),
    {
        self.core.is_some()
    }

    /// The connection link of the user of the core held; refused where there is none.
    pub fn generate_my_link(&self) -> (res: Result<String, String>)
        requires
            self.wf(),
        ensures
            !self.spec_present() ==> (res matches Err(e) && e@ == not_initialized()),
            self.spec_present() ==> (res matches Ok(l) && exists|id: Seq<char>, now: Seq<char>| id.len() == 36
                && l@ == #[trigger] spec_link(link_record(id, self.spec_user_name(), now))),
    {
        match &self.core {
            Some(c) => match c.generate_sg_link() {
                Ok(link) => {
                    proof {
                        let (id, now) = choose|id: Seq<char>, now: Seq<char>| id.len() == 36 && link@
                            == #[trigger] spec_link(link_record(id, c.spec_user_name(), now))
                            && crate::links::spec_link_payload(link@) == Ok::<Seq<char>, Seq<char>>(
                            link_record(id, c.spec_user_name(), now),
                        );
                        assert(self.spec_user_name() == c.spec_user_name());
                        assert(link@ == spec_link(link_record(id, self.spec_user_name(), now)));
                    }
                    Ok(link)
                },
                Err(e) => {
                    let mut m = "Failed to generate link: ".to_string();
                    let t = e.message();
                    m.append(t.as_str());
                    Err(m)
                },
            },
            None => Err("Core not initialized".to_string()),
        }
    }

    /// Starts the server of the core held; refused where there is none.
    pub fn start_server(&mut self) -> (res: Result<String, String>)
        requires
            old(self).wf(),
        ensures
            final(self).wf(),
            final(self).spec_present() == old(self).spec_present(),
            final(self).spec_user_name() == old(self).spec_user_name(),
            !old(self).spec_present() ==> (res matches Err(e) && e@ == not_initialized()),
            old(self).spec_present() ==> (res matches Ok(m) && m@ == "Server started successfully"@),
    {
        match &mut self.core {
            Some(c) => match c.start_server() {
                Ok(()) => Ok("Server started successfully".to_string()),
                Err(e) => {
                    let mut m = "Failed to start server: ".to_string();
                    let t = e.message();
                    m.append(t.as_str());
                    Err(m)
                },
            },
            None => Err("Core not initialized".to_string()),
        }
    }

    /// Files a new contact named `name` at `address`: a fresh identifier, offline, of unknown
    /// trust, seen now; refused where no core is held.
    pub fn add_contact(&mut self, name: String, address: String) -> (res: Result<Contact, String>)
        requires
            old(self).wf(),
        ensures
            final(self).wf(),
            final(self).spec_present() == old(self).spec_present(),
            !old(self).spec_present() ==> (res matches Err(e) && e@ == not_initialized()),
            res matches Ok(c) ==> c.id@.len() == 36 && c.name@ == name@ && c.address@ == address@ && c.status
                == ContactStatus::Offline && c.trust_level == TrustLevel::Unknown && c.last_seen is Some
                && !old(self).spec_contacts().dom().contains(c.id@) && final(self).spec_contacts()
                == old(self).spec_contacts().insert(c.id@, c),
            res is Err ==> final(self).spec_contacts() == old(self).spec_contacts(),
            old(self).spec_present() && res is Err ==> exists|id: Seq<char>| #![trigger old(self).spec_contacts().dom().contains(id)]
                id.len() == 36 && old(self).spec_contacts().dom().contains(id) && (res matches Err(e) && e@
                == "Failed to add contact: Contact error: Contact exists: Contact with ID "@ + id + " already exists"@),
    {
        match &mut self.core {
            Some(core) => {
                let contact = Contact {
                    id: new_uuid_v4(),
                    name,
                    address,
                    status: ContactStatus::Offline,
                    trust_level: TrustLevel::Unknown,
                    last_seen: Some(utc_now_millis()),
                };
                let copy = contact.duplicate();
                match core.add_contact_manual(contact) {
                    Ok(()) => Ok(copy),
                    Err(e) => {
                        let mut m = "Failed to add contact: ".to_string();
                        let t = e.message();
                        m.append(t.as_str());
                        proof {
                            reveal_strlit("Failed to add contact: ");
                            reveal_strlit("Contact error: ");
                            reveal_strlit("Contact exists: ");
                            reveal_strlit("Contact with ID ");
                            reveal_strlit("Failed to add contact: Contact error: Contact exists: Contact with ID ");
                            assert(m@ =~= "Failed to add contact: Contact error: Contact exists: Contact with ID "@
                                + copy.id@ + " already exists"@);
                        }
                        Err(m)
                    },
                }
            },
            None => Err("Core not initialized".to_string()),
        }
    }

    /// Every contact of the core held, once each; refused where no core is held.
    pub fn get_contacts(&self) -> (res: Result<Vec<Contact>, String>)
        requires
            self.wf(),
        ensures
            !self.spec_present() ==> (res matches Err(e) && e@ == not_initialized()),
            self.spec_present() ==> (res matches Ok(v) && v@.len() == self.spec_contacts().dom().len() && (forall|c: Contact|
                v@.contains(c) <==> exists|k: Seq<char>| #[trigger] self.spec_contacts().dom().contains(k)
                && self.spec_contacts()[k] == c)),
    {
        match &self.core {
            Some(core) => match core.get_contacts() {
                Ok(v) => Ok(v),
                Err(e) => {
                    let mut m = "Failed to get contacts: ".to_string();
                    let t = e.message();
                    m.append(t.as_str());
                    Err(m)
                },
            },
            None => Err("Core not initialized".to_string()),
        }
    }

    /// Removes the contact `contact_id`; refused where no core is held or there is no such
    /// contact.
    pub fn remove_contact(&mut self, contact_id: &str) -> (res: Result<String, String>)
        requires
            old(self).wf(),
        ensures
            final(self).wf(),
            final(self).spec_present() == old(self).spec_present(),
            !old(self).spec_present() ==> (res matches Err(e) && e@ == not_initialized()),
            old(self).spec_present() && old(self).spec_contacts().dom().contains(contact_id@) ==> (res matches Ok(m)
                && m@ == "Contact removed successfully"@ && final(self).spec_contacts() == old(self).spec_contacts().remove(
                contact_id@,
            )),
            old(self).spec_present() && !old(self).spec_contacts().dom().contains(contact_id@) ==> (res matches Err(e)
                && e@ == "Failed to remove contact: Contact error: Contact not found: "@ + crate::contacts::not_found_text(
                contact_id@,
            ) && final(self).spec_contacts() == old(self).spec_contacts()),
    {
        match &mut self.core {
            Some(core) => match core.remove_contact_by_id(contact_id) {
                Ok(()) => Ok("Contact removed successfully".to_string()),
                Err(e) => {
                    let mut m = "Failed to remove contact: ".to_string();
                    let t = e.message();
                    m.append(t.as_str());
                    proof {
                        reveal_strlit("Failed to remove contact: ");
                        reveal_strlit("Contact error: ");
                        reveal_strlit("Failed to remove contact: Contact error: Contact not found: ");
                        reveal_strlit("Contact not found: ");
                    }
                    Err(m)
                },
            },
            None => Err("Core not initialized".to_string()),
        }
    }

    /// Sets the trust level of the contact `contact_id`; refused where no core is held or there
    /// is no such contact.
    pub fn update_contact_trust_level(&mut self, contact_id: &str, trust_level: TrustLevel) -> (res: Result<String, String>)
        requires
            old(self).wf(),
        ensures
            final(self).wf(),
            final(self).spec_present() == old(self).spec_present(),
            !old(self).spec_present() ==> (res matches Err(e) && e@ == not_initialized()),
            old(self).spec_present() && old(self).spec_contacts().dom().contains(contact_id@) ==> (res matches Ok(m)
                && m@ == "Contact trust level updated"@ && final(self).spec_contacts() == old(self).spec_contacts().insert(
                contact_id@,
                Contact { trust_level, ..old(self).spec_contacts()[contact_id@] },
            )),
            old(self).spec_present() && !old(self).spec_contacts().dom().contains(contact_id@) ==> (res is Err
                && final(self).spec_contacts() == old(self).spec_contacts()),
    {
        match &mut self.core {
            Some(core) => match core.update_contact_trust_level(contact_id, trust_level) {
                Ok(()) => Ok("Contact trust level updated".to_string()),
                Err(e) => {
                    let mut m = "Failed to update contact trust: ".to_string();
                    let t = e.message();
                    m.append(t.as_str());
                    Err(m)
                },
            },
            None => Err("Core not initialized".to_string()),
        }
    }

    /// The contact `contact_id`; refused where no core is held or there is no such contact.
    pub fn get_contact_by_id(&self, contact_id: &str) -> (res: Result<Contact, String>)
        requires
            self.wf(),
        ensures
            !self.spec_present() ==> (res matches Err(e) && e@ == not_initialized()),
            self.spec_present() && self.spec_contacts().dom().contains(contact_id@) ==> res == Ok::<Contact, String>(
                self.spec_contacts()[contact_id@],
            ),
            self.spec_present() && !self.spec_contacts().dom().contains(contact_id@) ==> (res matches Err(e) && e@
                == "Contact not found"@),
    {
        match &self.core {
            Some(core) => match core.get_contact_by_id(contact_id) {
                Some(c) => Ok(c),
                None => Err("Contact not found".to_string()),
            },
            None => Err("Core not initialized".to_string()),
        }
    }

    /// The contacts whose name holds `query`, letter case aside, in the order they are kept;
    /// refused where no core is held.
    pub fn search_contacts(&self, query: &str) -> (res: Result<Vec<Contact>, String>)
        requires
            self.wf(),
        ensures
            !self.spec_present() ==> (res matches Err(e) && e@ == not_initialized()),
            self.spec_present() ==> (res matches Ok(v) && v@ == self.spec_contact_values().filter(matching_name(query@))),
    {
        match &self.core {
            Some(core) => Ok(core.find_contacts_by_name(query)),
            None => Err("Core not initialized".to_string()),
        }
    }

    /// Counts over the contacts of the core held: all, online, trusted, none blocked, and
    /// pending; refused where no core is held.
    pub fn get_contact_stats(&self) -> (res: Result<ContactStats, String>)
        requires
            self.wf(),
        ensures
            !self.spec_present() ==> (res matches Err(e) && e@ == not_initialized()),
            self.spec_present() ==> (res matches Ok(st) && st.total_contacts == self.spec_contacts().dom().len()
                && st.online_contacts == self.spec_contact_values().filter(online_pred()).len()
                && st.trusted_contacts == self.spec_contact_values().filter(trusted_pred()).len()
                && st.blocked_contacts == 0 && st.pending_contacts == self.spec_contact_values().filter(
                trust_pred(TrustLevel::Pending),
            ).len()),
    {
        match &self.core {
            Some(core) => match core.get_contact_stats() {
                Ok(st) => Ok(ContactStats { blocked_contacts: 0, ..st }),
                Err(e) => {
                    let mut m = "Failed to get contact stats: ".to_string();
                    let t = e.message();
                    m.append(t.as_str());
                    Err(m)
                },
            },
            None => Err("Core not initialized".to_string()),
        }
    }
}

} // verus!
