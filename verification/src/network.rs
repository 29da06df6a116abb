//! Contacts, chat messages and the bookkeeping of connected peers.
use vstd::prelude::*;
use crate::clock::unix_time_secs;
use crate::entropy::new_uuid_v4;
use crate::node::Peer;

verus! {

/// Errors of the network layer.
#[derive(Debug)]
pub enum NetworkError {
    ConnectionFailed(String),
    SendFailed(String),
    InvalidAddress(String),
}

impl NetworkError {
    /// The error's message: `Connection failed: `, `Send failed: ` or `Invalid address: `,
    /// then the detail.
    pub fn message(&self) -> (res: String)
        ensures
            res@ == match self {
                NetworkError::ConnectionFailed(m) => "Connection failed: "@ + m@,
                NetworkError::SendFailed(m) => "Send failed: "@ + m@,
                NetworkError::InvalidAddress(m) => "Invalid address: "@ + m@,
            },
    {
        let (mut head, detail) = match self {
            NetworkError::ConnectionFailed(m) => ("Connection failed: ".to_string(), m),
            NetworkError::SendFailed(m) => ("Send failed: ".to_string(), m),
            NetworkError::InvalidAddress(m) => ("Invalid address: ".to_string(), m),
        };
        head.append(detail.as_str());
        head
    }
}

/// Whether a contact can be reached.
#[derive(Debug, Clone, Copy, PartialEq, Eq, Structural)]
pub enum ContactStatus {
    Online,
    Offline,
    Away,
    Busy,
}

/// How far a contact is trusted.
#[derive(Debug, Clone, Copy, PartialEq, Eq, Structural)]
pub enum TrustLevel {
    Unknown,
    Pending,
    Low,
    Medium,
    High,
    Trusted,
    Blocked,
}

/// A person one can write to.
#[derive(Debug, Clone)]
pub struct Contact {
    pub id: String,
    pub name: String,
    pub address: String,
    pub status: ContactStatus,
    pub trust_level: TrustLevel,
    /// When the contact was last seen, in milliseconds since the Unix epoch.
    pub last_seen: Option<i64>,
}

impl Contact {
    /// A copy of the contact.
    pub fn duplicate(&self) -> (res: Self)
        ensures
            res == *self,
    {
        Contact {
            id: self.id.clone(),
            name: self.name.clone(),
            address: self.address.clone(),
            status: self.status,
            trust_level: self.trust_level,
            last_seen: self.last_seen,
        }
    }
}

/// What a chat message carries.
#[derive(Debug, Clone, Copy, PartialEq, Eq, Structural)]
pub enum ChatMessageType {
    Text,
    File,
    Image,
    Voice,
}

/// How far a chat message got.
#[derive(Debug, Clone, Copy, PartialEq, Eq, Structural)]
pub enum DeliveryStatus {
    Pending,
    Sent,
    Delivered,
    Read,
    Failed,
}

/// One message of a chat.
#[derive(Debug, Clone)]
pub struct ChatMessage {
    pub id: String,
    pub from: String,
    pub to: String,
    pub content: String,
    pub msg_type: ChatMessageType,
    /// Seconds since the Unix epoch.
    pub timestamp: u64,
    pub delivery_status: DeliveryStatus,
}

impl ChatMessage {
    /// A copy of the message.
    pub fn duplicate(&self) -> (res: Self)
        ensures
            res == *self,
    {
        ChatMessage {
            id: self.id.clone(),
            from: self.from.clone(),
            to: self.to.clone(),
            content: self.content.clone(),
            msg_type: self.msg_type,
            timestamp: self.timestamp,
            delivery_status: self.delivery_status,
        }
    }
}

/// A copy of the messages `v`.
pub fn duplicate_messages(v: &Vec<ChatMessage>) -> (res: Vec<ChatMessage>)
    ensures
        res@ == v@,
{
    let mut res: Vec<ChatMessage> = Vec::new();
    let mut i: usize = 0;
    while i < v.len()
        invariant
            i <= v@.len(),
            res@ == v@.subrange(0, i as int),
        decreases v@.len() - i,
    {
        res.push(v[i].duplicate());
        i = i + 1;
        assert(res@ =~= v@.subrange(0, i as int));
    }
    assert(v@.subrange(0, v@.len() as int) =~= v@);
    res
}

/// Counters of the network layer.
#[derive(Debug, Clone, Copy, PartialEq, Eq, Structural)]
pub struct NetworkStats {
    pub connected_peers: u32,
    pub total_messages_sent: u64,
    pub total_messages_received: u64,
    pub bytes_sent: u64,
    pub bytes_received: u64,
    pub uptime_seconds: u64,
    pub messages_sent: u64,
    pub messages_received: u64,
    pub total_connections: u32,
}

impl NetworkStats {
    /// All counters at zero.
    pub fn zero() -> (res: Self)
        ensures
            res == NetworkStats::spec_with_peers(0),
    {
        NetworkStats::with_peers(0)
    }

    /// Counters at zero but for `peers` connections.
    pub open spec fn spec_with_peers(peers: u32) -> Self {
        NetworkStats {
            connected_peers: peers,
            total_messages_sent: 0,
            total_messages_received: 0,
            bytes_sent: 0,
            bytes_received: 0,
            uptime_seconds: 0,
            messages_sent: 0,
            messages_received: 0,
            total_connections: peers,
        }
    }

    /// Counters at zero but for `peers` connections.
    pub fn with_peers(peers: u32) -> (res: Self)
        ensures
            res == NetworkStats::spec_with_peers(peers),
    {
        NetworkStats {
            connected_peers: peers,
            total_messages_sent: 0,
            total_messages_received: 0,
            bytes_sent: 0,
            bytes_received: 0,
            uptime_seconds: 0,
            messages_sent: 0,
            messages_received: 0,
            total_connections: peers,
        }
    }
}

/// A peer connected now.
#[derive(Debug, Clone)]
pub struct PeerData {
    pub id: String,
    pub name: String,
    pub address: String,
    pub public_key: Vec<u8>,
    /// Milliseconds since the Unix epoch.
    pub connected_at: i64,
    /// Milliseconds since the Unix epoch.
    pub last_seen: i64,
    pub bytes_sent: u64,
    pub bytes_received: u64,
}

impl PeerData {
    /// A copy of the peer's record.
    pub fn duplicate(&self) -> (res: Self)
        ensures
            res.id@ == self.id@,
            res.name@ == self.name@,
            res.address@ == self.address@,
            res.public_key@ == self.public_key@,
            res.connected_at == self.connected_at,
            res.last_seen == self.last_seen,
            res.bytes_sent == self.bytes_sent,
            res.bytes_received == self.bytes_received,
    {
        PeerData {
            id: self.id.clone(),
            name: self.name.clone(),
            address: self.address.clone(),
            public_key: crate::crypto::copy_bytes(&self.public_key),
            connected_at: self.connected_at,
            last_seen: self.last_seen,
            bytes_sent: self.bytes_sent,
            bytes_received: self.bytes_received,
        }
    }
}

/// What a peer announces of itself on the local network.
#[derive(Debug, Clone)]
pub struct AnnouncementMessage {
    pub peer_id: String,
    pub peer_name: String,
    pub port: u16,
    pub public_key: Vec<u8>,
    pub protocol_version: u8,
    pub capabilities: Vec<String>,
    /// Seconds since the Unix epoch.
    pub timestamp: u64,
}

/// The messages of one chat, under its key.
#[derive(Debug, Clone)]
pub struct ChatLog {
    pub key: String,
    pub messages: Vec<ChatMessage>,
}

/// The key of the chat with `name`: `chat_` then the name.
pub open spec fn chat_key(name: Seq<char>) -> Seq<char> {
    "chat_"@ + name
}

/// The identifiers of `peers`.
pub open spec fn ids_of(peers: Seq<PeerData>) -> Seq<Seq<char>> {
    peers.map_values(|p: PeerData| p.id@)
}

/// No two of `peers` share an identifier.
pub open spec fn unique_ids(peers: Seq<PeerData>) -> bool {
    forall|i: int, j: int| 0 <= i < j < peers.len() ==> peers[i].id@ != peers[j].id@
}

/// No two of `logs` share a key.
pub open spec fn unique_keys(logs: Seq<ChatLog>) -> bool {
    forall|i: int, j: int| 0 <= i < j < logs.len() ==> logs[i].key@ != logs[j].key@
}

/// The messages under `key` in `logs`, empty where there are none.
pub open spec fn messages_under(logs: Seq<ChatLog>, key: Seq<char>) -> Seq<ChatMessage>
    decreases logs.len(),
{
    if logs.len() == 0 {
        Seq::empty()
    } else if logs.last().key@ == key {
        logs.last().messages@
    } else {
        messages_under(logs.drop_last(), key)
    }
}

/// Whether a peer with identifier `id` is among `peers`.
pub open spec fn has_peer(peers: Seq<PeerData>, id: Seq<char>) -> bool {
    exists|i: int| 0 <= i < peers.len() && #[trigger] peers[i].id@ == id
}

/// The network layer's state: whether it runs, who is connected, its counters and the chats
/// it has carried.
pub struct NetworkManager {
    peer: Peer,
    is_active: bool,
    connected_peers: Vec<PeerData>,
    stats: NetworkStats,
    chats: Vec<ChatLog>,
}

/// The counters after `peers` changed: both connection counters are the number of peers,
/// cut to 32 bits.
pub open spec fn stats_with_count(s: NetworkStats, n: nat) -> NetworkStats {
    NetworkStats { connected_peers: n as u32, total_connections: n as u32, ..s }
}

/// The counters after one message of `n` bytes was sent.
pub open spec fn sent_stats(s: NetworkStats, n: nat) -> NetworkStats {
    NetworkStats {
        total_messages_sent: (s.total_messages_sent + 1) as u64,
        bytes_sent: (s.bytes_sent + n) as u64,
        ..s
    }
}

impl NetworkManager {
    /// The local peer.
    pub closed spec fn spec_peer(&self) -> Peer {
        self.peer
    }

    /// Whether the layer runs.
    pub closed spec fn spec_active(&self) -> bool {
        self.is_active
    }

    /// The connected peers.
    pub closed spec fn spec_peers(&self) -> Seq<PeerData> {
        self.connected_peers@
    }

    /// The counters.
    pub closed spec fn spec_stats(&self) -> NetworkStats {
        self.stats
    }

    /// The chats, each under its key.
    pub closed spec fn spec_chats(&self) -> Seq<ChatLog> {
        self.chats@
    }

    /// The messages of the chat with `name`.
    pub open spec fn spec_chat(&self, name: Seq<char>) -> Seq<ChatMessage> {
        messages_under(self.spec_chats(), chat_key(name))
    }

    /// That the local peer, the connected peers and the chats are those of `other`.
    pub open spec fn same_records(&self, other: &Self) -> bool {
        &&& self.spec_peer() == other.spec_peer()
        &&& self.spec_peers() == other.spec_peers()
        &&& self.spec_chats() == other.spec_chats()
    }

    /// Peers are known by distinct identifiers and chats by distinct keys.
    pub open spec fn wf(&self) -> bool {
        &&& unique_ids(self.spec_peers())
        &&& unique_keys(self.spec_chats())
    }

    /// An idle layer for `peer`, with nobody connected, no chats and zero counters.
    pub fn new(peer: Peer) -> (res: Result<Self, NetworkError>)
        ensures
            res matches Ok(m) && m.wf() && m.spec_peer() == peer && !m.spec_active()
                && m.spec_peers().len() == 0 && m.spec_chats().len() == 0 && m.spec_stats()
                == NetworkStats::spec_with_peers(0),
    {
        Ok(NetworkManager {
            peer,
            is_active: false,
            connected_peers: Vec::new(),
            stats: NetworkStats::zero(),
            chats: Vec::new(),
        })
    }

    /// An idle layer for a local peer named `default_user` at `127.0.0.1:8080`.
    pub fn new_default() -> (res: Result<Self, NetworkError>)
        ensures
            res matches Ok(m) && m.wf() && m.spec_peer().name@ == "default_user"@
                && !m.spec_active() && m.spec_peers().len() == 0 && m.spec_chats().len() == 0,
    {
        let peer = Peer::new("default_user".to_string(), "127.0.0.1:8080".to_string());
        NetworkManager::new(peer)
    }

    /// Starts the layer.
    pub fn start(&mut self) -> (res: Result<(), NetworkError>)
        ensures
            res is Ok,
            final(self).spec_active(),
            final(self).same_records(old(self)),
            final(self).spec_stats() == old(self).spec_stats(),
    {
        self.is_active = true;
        Ok(())
    }

    /// Starts accepting connections; the layer is then active.
    pub fn start_server(&mut self) -> (res: Result<(), NetworkError>)
        ensures
            res is Ok,
            final(self).spec_active(),
            final(self).same_records(old(self)),
            final(self).spec_stats() == old(self).spec_stats(),
    {
        self.is_active = true;
        Ok(())
    }

    /// Stops the layer and drops every connection.
    pub fn stop(&mut self) -> (res: Result<(), NetworkError>)
        ensures
            res is Ok,
            old(self).wf() ==> final(self).wf(),
            !final(self).spec_active(),
            final(self).spec_peers().len() == 0,
            final(self).spec_stats() == (NetworkStats { connected_peers: 0, ..old(self).spec_stats() }),
            final(self).spec_chats() == old(self).spec_chats(),
            final(self).spec_peer() == old(self).spec_peer(),
    {
        self.is_active = false;
        self.connected_peers = Vec::new();
        self.stats.connected_peers = 0;
        Ok(())
    }

    /// Whether the layer runs.
    pub fn is_active(&self) -> (res: bool)
        ensures
            res == self.spec_active(),
    {
        self.is_active
    }

    /// Whether the layer runs.
    pub fn is_running(&self) -> (res: bool)
        ensures
            res == self.spec_active(),
    {
        self.is_active
    }

    /// The local peer.
    pub fn get_peer(&self) -> (res: &Peer)
        ensures
            *res == self.spec_peer(),
    {
        &self.peer
    }

    /// The counters.
    pub fn get_stats(&self) -> (res: Result<NetworkStats, NetworkError>)
        ensures
            res matches Ok(s) && s == self.spec_stats(),
    {
        Ok(self.stats)
    }

    /// The position of the peer with identifier `id`.
    fn find_peer(&self, id: &str) -> (res: Option<usize>)
        ensures
            res matches Some(i) ==> i < self.spec_peers().len() && self.spec_peers()[i as int].id@
                == id@,
            res is None ==> !has_peer(self.spec_peers(), id@),
    {
        let target = id.to_owned();
        let mut i: usize = 0;
        while i < self.connected_peers.len()
            invariant
                i <= self.connected_peers@.len(),
                target@ == id@,
                forall|j: int| 0 <= j < i ==> self.connected_peers@[j].id@ != id@,
            decreases self.connected_peers@.len() - i,
        {
            if self.connected_peers[i].id == target {
                return Some(i);
            }
            i = i + 1;
        }
        None
    }

    /// Records `peer_data` as connected, in place of any peer with its identifier, and sets
    /// both connection counters to the number of peers.
    pub fn add_peer(&mut self, peer_data: PeerData)
        requires
            old(self).wf(),
        ensures
            final(self).wf(),
            has_peer(final(self).spec_peers(), peer_data.id@),
            forall|i: int| 0 <= i < final(self).spec_peers().len() && final(self).spec_peers()[i].id@
                == peer_data.id@ ==> final(self).spec_peers()[i] == peer_data,
            forall|id: Seq<char>| id != peer_data.id@ ==> (has_peer(final(self).spec_peers(), id)
                == has_peer(old(self).spec_peers(), id)),
            has_peer(old(self).spec_peers(), peer_data.id@) ==> final(self).spec_peers().len()
                == old(self).spec_peers().len(),
            !has_peer(old(self).spec_peers(), peer_data.id@) ==> final(self).spec_peers()
                == old(self).spec_peers().push(peer_data),
            final(self).spec_stats() == stats_with_count(old(self).spec_stats(), final(self).spec_peers().len()),
            final(self).spec_active() == old(self).spec_active(),
            final(self).spec_chats() == old(self).spec_chats(),
            final(self).spec_peer() == old(self).spec_peer(),
    {
        let ghost before = self.connected_peers@;
        match self.find_peer(peer_data.id.as_str()) {
            Some(i) => {
                let ghost id = peer_data.id@;
                self.connected_peers.set(i, peer_data);
                proof {
                    assert forall|x: Seq<char>| x != id implies has_peer(self.connected_peers@, x)
                        == has_peer(before, x) by {
                        if has_peer(before, x) {
                            let k = choose|k: int| 0 <= k < before.len() && #[trigger] before[k].id@ == x;
                            assert(self.connected_peers@[k].id@ == x);
                        }
                        if has_peer(self.connected_peers@, x) {
                            let k = choose|k: int| 0 <= k < self.connected_peers@.len()
                                && #[trigger] self.connected_peers@[k].id@ == x;
                            assert(before[k].id@ == x);
                        }
                    }
                    assert(self.connected_peers@[i as int].id@ == id);
                }
            },
            None => {
                self.connected_peers.push(peer_data);
                proof {
                    let n = before.len() as int;
                    assert(self.connected_peers@[n].id@ == peer_data.id@);
                    assert forall|x: Seq<char>| x != peer_data.id@ implies has_peer(
                        self.connected_peers@,
                        x,
                    ) == has_peer(before, x) by {
                        if has_peer(before, x) {
                            let k = choose|k: int| 0 <= k < before.len() && #[trigger] before[k].id@ == x;
                            assert(self.connected_peers@[k].id@ == x);
                        }
                        if has_peer(self.connected_peers@, x) {
                            let k = choose|k: int| 0 <= k < self.connected_peers@.len()
                                && #[trigger] self.connected_peers@[k].id@ == x;
                            assert(before[k].id@ == x);
                        }
                    }
                }
            },
        }
        let n = self.connected_peers.len() as u32;
        self.stats.connected_peers = n;
        self.stats.total_connections = n;
    }

    /// Forgets the peer with identifier `peer_id`, if connected, and sets both connection
    /// counters to the number of peers left.
    pub fn remove_peer(&mut self, peer_id: &str)
        requires
            old(self).wf(),
        ensures
            final(self).wf(),
            !has_peer(final(self).spec_peers(), peer_id@),
            forall|id: Seq<char>| id != peer_id@ ==> (has_peer(final(self).spec_peers(), id)
                == has_peer(old(self).spec_peers(), id)),
            !has_peer(old(self).spec_peers(), peer_id@) ==> final(self).spec_peers() == old(self).spec_peers(),
            has_peer(old(self).spec_peers(), peer_id@) ==> final(self).spec_peers().len() + 1
                == old(self).spec_peers().len(),
            final(self).spec_stats() == stats_with_count(old(self).spec_stats(), final(self).spec_peers().len()),
            final(self).spec_active() == old(self).spec_active(),
            final(self).spec_chats() == old(self).spec_chats(),
            final(self).spec_peer() == old(self).spec_peer(),
    {
        self.drop_peer(peer_id);
        let n = self.connected_peers.len() as u32;
        self.stats.connected_peers = n;
        self.stats.total_connections = n;
    }

    /// Takes the peer with identifier `peer_id` out of the list, if it is there.
    fn drop_peer(&mut self, peer_id: &str)
        requires
            old(self).wf(),
        ensures
            final(self).wf(),
            !has_peer(final(self).spec_peers(), peer_id@),
            forall|id: Seq<char>| id != peer_id@ ==> (has_peer(final(self).spec_peers(), id)
                == has_peer(old(self).spec_peers(), id)),
            !has_peer(old(self).spec_peers(), peer_id@) ==> final(self).spec_peers() == old(self).spec_peers(),
            has_peer(old(self).spec_peers(), peer_id@) ==> final(self).spec_peers().len() + 1
                == old(self).spec_peers().len(),
            final(self).spec_stats() == old(self).spec_stats(),
            final(self).spec_active() == old(self).spec_active(),
            final(self).spec_chats() == old(self).spec_chats(),
            final(self).spec_peer() == old(self).spec_peer(),
    {
        let ghost before = self.connected_peers@;
        match self.find_peer(peer_id) {
            Some(i) => {
                self.connected_peers.remove(i);
                let ghost after = self.connected_peers@;
                proof {
                    assert(after =~= before.remove(i as int));
                    assert forall|x: Seq<char>| x != peer_id@ implies has_peer(after, x) == has_peer(
                        before,
                        x,
                    ) by {
                        if has_peer(before, x) {
                            let k = choose|k: int| 0 <= k < before.len() && #[trigger] before[k].id@ == x;
                            if k < i {
                                assert(after[k].id@ == x);
                            } else {
                                assert(after[k - 1].id@ == x);
                            }
                        }
                        if has_peer(after, x) {
                            let k = choose|k: int| 0 <= k < after.len() && #[trigger] after[k].id@ == x;
                            if k < i {
                                assert(before[k].id@ == x);
                            } else {
                                assert(before[k + 1].id@ == x);
                            }
                        }
                    }
                    if has_peer(after, peer_id@) {
                        let k = choose|k: int| 0 <= k < after.len() && #[trigger] after[k].id@ == peer_id@;
                        if k < i {
                            assert(before[k].id@ == before[i as int].id@);
                        } else {
                            assert(before[k + 1].id@ == before[i as int].id@);
                        }
                    }
                }
            },
            None => {},
        }
    }

    /// The connected peers.
    pub fn get_connected_peers(&self) -> (res: Vec<PeerData>)
        ensures
            res@.len() == self.spec_peers().len(),
            forall|i: int| 0 <= i < res@.len() ==> #[trigger] res@[i].id@ == self.spec_peers()[i].id@
                && res@[i].name@ == self.spec_peers()[i].name@ && res@[i].address@
                == self.spec_peers()[i].address@ && res@[i].public_key@
                == self.spec_peers()[i].public_key@ && res@[i].connected_at
                == self.spec_peers()[i].connected_at && res@[i].last_seen
                == self.spec_peers()[i].last_seen && res@[i].bytes_sent
                == self.spec_peers()[i].bytes_sent && res@[i].bytes_received
                == self.spec_peers()[i].bytes_received,
    {
        let mut res: Vec<PeerData> = Vec::new();
        let mut i: usize = 0;
        while i < self.connected_peers.len()
            invariant
                i <= self.connected_peers@.len(),
                res@.len() == i,
                forall|j: int| 0 <= j < i ==> #[trigger] res@[j].id@ == self.connected_peers@[j].id@
                    && res@[j].name@ == self.connected_peers@[j].name@ && res@[j].address@
                    == self.connected_peers@[j].address@ && res@[j].public_key@
                    == self.connected_peers@[j].public_key@ && res@[j].connected_at
                    == self.connected_peers@[j].connected_at && res@[j].last_seen
                    == self.connected_peers@[j].last_seen && res@[j].bytes_sent
                    == self.connected_peers@[j].bytes_sent && res@[j].bytes_received
                    == self.connected_peers@[j].bytes_received,
            decreases self.connected_peers@.len() - i,
        {
            res.push(self.connected_peers[i].duplicate());
            i = i + 1;
        }
        res
    }

    /// The peer with identifier `peer_id`, if connected.
    pub fn get_peer_by_id(&self, peer_id: &str) -> (res: Option<&PeerData>)
        ensures
            res matches Some(p) ==> p.id@ == peer_id@ && self.spec_peers().contains(*p),
            res is None ==> !has_peer(self.spec_peers(), peer_id@),
    {
        match self.find_peer(peer_id) {
            Some(i) => Some(&self.connected_peers[i]),
            None => None,
        }
    }

    /// Whether the peer with identifier `peer_id` is connected.
    pub fn is_peer_connected(&self, peer_id: &str) -> (res: bool)
        ensures
            res == has_peer(self.spec_peers(), peer_id@),
    {
        self.find_peer(peer_id).is_some()
    }

    /// How many peers are connected.
    pub fn get_peer_count(&self) -> (res: usize)
        ensures
            res == self.spec_peers().len(),
    {
        self.connected_peers.len()
    }

    /// Connects to `peer_address` under a fresh identifier `peer_` followed by a random
    /// identifier, at the time `now` (milliseconds since the Unix epoch); refused while the
    /// layer is idle.
    pub fn connect_to_peer_at(&mut self, peer_address: &str, peer_id: String, now: i64) -> (res: Result<(), NetworkError>)
        requires
            old(self).wf(),
        ensures
            final(self).wf(),
            !old(self).spec_active() ==> (res matches Err(NetworkError::ConnectionFailed(m)) && m@
                == "Network not active"@ && *final(self) == *old(self)),
            old(self).spec_active() ==> (res is Ok && has_peer(final(self).spec_peers(), peer_id@)
                && forall|id: Seq<char>| id != peer_id@ ==> (has_peer(final(self).spec_peers(), id)
                == has_peer(old(self).spec_peers(), id))),
            old(self).spec_active() ==> forall|i: int| 0 <= i < final(self).spec_peers().len()
                && final(self).spec_peers()[i].id@ == peer_id@ ==> final(self).spec_peers()[i] == (PeerData {
                id: peer_id,
                name: final(self).spec_peers()[i].name,
                address: final(self).spec_peers()[i].address,
                public_key: final(self).spec_peers()[i].public_key,
                connected_at: now,
                last_seen: now,
                bytes_sent: 0,
                bytes_received: 0,
            }) && final(self).spec_peers()[i].name@ == "Unknown"@ && final(self).spec_peers()[i].address@
                == peer_address@ && final(self).spec_peers()[i].public_key@.len() == 0,
            final(self).spec_active() == old(self).spec_active(),
            final(self).spec_chats() == old(self).spec_chats(),
    {
        if !self.is_active {
            return Err(NetworkError::ConnectionFailed("Network not active".to_string()));
        }
        let peer_data = PeerData {
            id: peer_id,
            name: "Unknown".to_string(),
            address: peer_address.to_owned(),
            public_key: Vec::new(),
            connected_at: now,
            last_seen: now,
            bytes_sent: 0,
            bytes_received: 0,
        };
        self.add_peer(peer_data);
        Ok(())
    }

    /// Connects to `peer_address` under a fresh random identifier, now; refused while the
    /// layer is idle.
    pub fn connect_to_peer(&mut self, peer_address: &str) -> (res: Result<(), NetworkError>)
        requires
            old(self).wf(),
        ensures
            final(self).wf(),
            !old(self).spec_active() ==> (res matches Err(NetworkError::ConnectionFailed(m)) && m@
                == "Network not active"@ && *final(self) == *old(self)),
            old(self).spec_active() ==> (res is Ok && final(self).spec_peers().len() >= old(self).spec_peers().len()),
            final(self).spec_active() == old(self).spec_active(),
            final(self).spec_chats() == old(self).spec_chats(),
    {
        let mut peer_id = "peer_".to_string();
        let uuid = new_uuid_v4();
        peer_id.append(uuid.as_str());
        let now = crate::clock::utc_now_millis();
        let ghost before = self.spec_peers();
        let res = self.connect_to_peer_at(peer_address, peer_id, now);
        proof {
            if old(self).spec_active() {
                assert forall|i: int| 0 <= i < before.len() implies has_peer(
                    self.spec_peers(),
                    #[trigger] before[i].id@,
                ) by {
                    if before[i].id@ != peer_id@ {
                        assert(has_peer(before, before[i].id@));
                    }
                }
                lemma_unique_count(before, self.spec_peers());
            }
        }
        res
    }

    /// Disconnects the peer with identifier `peer_id`, if connected.
    pub fn disconnect_from_peer(&mut self, peer_id: &str) -> (res: Result<(), NetworkError>)
        requires
            old(self).wf(),
        ensures
            res is Ok,
            final(self).wf(),
            !has_peer(final(self).spec_peers(), peer_id@),
            forall|id: Seq<char>| id != peer_id@ ==> (has_peer(final(self).spec_peers(), id)
                == has_peer(old(self).spec_peers(), id)),
            final(self).spec_stats() == (NetworkStats {
                connected_peers: final(self).spec_peers().len() as u32,
                ..old(self).spec_stats()
            }),
            final(self).spec_active() == old(self).spec_active(),
            final(self).spec_chats() == old(self).spec_chats(),
    {
        self.drop_peer(peer_id);
        self.stats.connected_peers = self.connected_peers.len() as u32;
        Ok(())
    }

    /// The round-trip time to a connected peer, a fixed 50 ms; an error for a peer that is
    /// not connected.
    pub fn ping_peer(&self, peer_id: &str) -> (res: Result<u64, NetworkError>)
        ensures
            has_peer(self.spec_peers(), peer_id@) ==> (res matches Ok(t) && t == 50),
            !has_peer(self.spec_peers(), peer_id@) ==> (res matches Err(
                NetworkError::ConnectionFailed(m),
            ) && m@ == "Peer not connected"@),
    {
        if self.find_peer(peer_id).is_some() {
            Ok(50)
        } else {
            Err(NetworkError::ConnectionFailed("Peer not connected".to_string()))
        }
    }

    /// The address the layer listens on.
    pub fn get_address(&self) -> (res: Result<String, NetworkError>)
        ensures
            res matches Ok(a) && a@ == "127.0.0.1:8080"@,
    {
        Ok("127.0.0.1:8080".to_string())
    }

    /// Adds the bytes sent and received to the counters.
    pub fn update_stats(&mut self, bytes_sent: u64, bytes_received: u64)
        requires
            old(self).spec_stats().bytes_sent + bytes_sent <= u64::MAX,
            old(self).spec_stats().bytes_received + bytes_received <= u64::MAX,
        ensures
            final(self).same_records(old(self)),
            final(self).spec_active() == old(self).spec_active(),
            final(self).spec_stats() == (NetworkStats {
                    bytes_sent: (old(self).spec_stats().bytes_sent + bytes_sent) as u64,
                    bytes_received: (old(self).spec_stats().bytes_received + bytes_received) as u64,
                    ..old(self).spec_stats()
                }),
    {
        self.stats.bytes_sent = self.stats.bytes_sent + bytes_sent;
        self.stats.bytes_received = self.stats.bytes_received + bytes_received;
    }

    /// Counts one message sent.
    pub fn increment_messages_sent(&mut self)
        requires
            old(self).spec_stats().total_messages_sent < u64::MAX,
            old(self).spec_stats().messages_sent < u64::MAX,
        ensures
            final(self).same_records(old(self)),
            final(self).spec_active() == old(self).spec_active(),
            final(self).spec_stats() == (NetworkStats {
                    total_messages_sent: (old(self).spec_stats().total_messages_sent + 1) as u64,
                    messages_sent: (old(self).spec_stats().messages_sent + 1) as u64,
                    ..old(self).spec_stats()
                }),
    {
        self.stats.total_messages_sent = self.stats.total_messages_sent + 1;
        self.stats.messages_sent = self.stats.messages_sent + 1;
    }

    /// Counts one message received.
    pub fn increment_messages_received(&mut self)
        requires
            old(self).spec_stats().total_messages_received < u64::MAX,
            old(self).spec_stats().messages_received < u64::MAX,
        ensures
            final(self).same_records(old(self)),
            final(self).spec_active() == old(self).spec_active(),
            final(self).spec_stats() == (NetworkStats {
                    total_messages_received: (old(self).spec_stats().total_messages_received + 1) as u64,
                    messages_received: (old(self).spec_stats().messages_received + 1) as u64,
                    ..old(self).spec_stats()
                }),
    {
        self.stats.total_messages_received = self.stats.total_messages_received + 1;
        self.stats.messages_received = self.stats.messages_received + 1;
    }

    /// Sets every counter to zero but the connection counters, which become the number of
    /// peers.
    pub fn reset_stats(&mut self)
        ensures
            final(self).same_records(old(self)),
            final(self).spec_active() == old(self).spec_active(),
            final(self).spec_stats() == NetworkStats::spec_with_peers(old(self).spec_peers().len() as u32),
    {
        let n = self.connected_peers.len() as u32;
        self.stats = NetworkStats::with_peers(n);
    }

    /// Counts a message of `content` sent to a contact: one more message, and the content's
    /// bytes; refused while the layer is idle. The message's identifier is `message_id`.
    pub fn send_message_with_id(&mut self, content: &str, message_id: String) -> (res: Result<String, NetworkError>)
        requires
            old(self).spec_stats().total_messages_sent < u64::MAX,
            old(self).spec_stats().bytes_sent + vstd::utf8::encode_utf8(content@).len() <= u64::MAX,
            vstd::utf8::encode_utf8(content@).len() <= usize::MAX,
        ensures
            final(self).same_records(old(self)),
            final(self).spec_active() == old(self).spec_active(),
            !old(self).spec_active() ==> (res matches Err(NetworkError::SendFailed(m)) && m@
                == "Network not active"@ && final(self).spec_stats() == old(self).spec_stats()),
            old(self).spec_active() ==> (res matches Ok(id) && id == message_id),
            old(self).spec_active() ==> final(self).spec_stats() == sent_stats(
                old(self).spec_stats(),
                vstd::utf8::encode_utf8(content@).len(),
            ),
    {
        if !self.is_active {
            return Err(NetworkError::SendFailed("Network not active".to_string()));
        }
        self.stats.total_messages_sent = self.stats.total_messages_sent + 1;
        let n = content.len() as u64;
        self.stats.bytes_sent = self.stats.bytes_sent + n;
        Ok(message_id)
    }

    /// Counts a message of `content` sent to a contact, under a fresh random identifier that
    /// it returns; refused while the layer is idle.
    pub fn send_message(&mut self, _contact_id: &str, content: &str) -> (res: Result<String, NetworkError>)
        requires
            old(self).spec_stats().total_messages_sent < u64::MAX,
            old(self).spec_stats().bytes_sent + vstd::utf8::encode_utf8(content@).len() <= u64::MAX,
            vstd::utf8::encode_utf8(content@).len() <= usize::MAX,
        ensures
            final(self).same_records(old(self)),
            final(self).spec_active() == old(self).spec_active(),
            !old(self).spec_active() ==> (res matches Err(NetworkError::SendFailed(m)) && m@
                == "Network not active"@ && final(self).spec_stats() == old(self).spec_stats()),
            old(self).spec_active() ==> (res matches Ok(id) && id@.len() == 36),
            old(self).spec_active() ==> final(self).spec_stats() == sent_stats(
                old(self).spec_stats(),
                vstd::utf8::encode_utf8(content@).len(),
            ),
    {
        if !self.is_active {
            return Err(NetworkError::SendFailed("Network not active".to_string()));
        }
        let id = new_uuid_v4();
        self.send_message_with_id(content, id)
    }

    /// The position of the chat under `key`.
    fn find_chat(&self, key: &String) -> (res: Option<usize>)
        requires
            self.wf(),
        ensures
            res matches Some(i) ==> i < self.spec_chats().len() && self.spec_chats()[i as int].key@ == key@
                && messages_under(self.spec_chats(), key@) == self.spec_chats()[i as int].messages@,
            res is None ==> (forall|j: int| 0 <= j < self.spec_chats().len() ==> self.spec_chats()[j].key@
                != key@) && messages_under(self.spec_chats(), key@).len() == 0,
    {
        let mut i: usize = 0;
        while i < self.chats.len()
            invariant
                i <= self.chats@.len(),
                unique_keys(self.chats@),
                forall|j: int| 0 <= j < i ==> self.chats@[j].key@ != key@,
            decreases self.chats@.len() - i,
        {
            if self.chats[i].key == *key {
                proof {
                    lemma_messages_under_at(self.chats@, key@, i as int);
                }
                return Some(i);
            }
            i = i + 1;
        }
        proof {
            lemma_messages_under_absent(self.chats@, key@);
        }
        None
    }

    /// Appends `message` to the chat under `key`, opening the chat where there is none.
    fn append_to_chat(&mut self, key: String, message: ChatMessage)
        requires
            old(self).wf(),
        ensures
            final(self).wf(),
            forall|k: Seq<char>| k != key@ ==> messages_under(final(self).spec_chats(), k)
                == messages_under(old(self).spec_chats(), k),
            messages_under(final(self).spec_chats(), key@) == messages_under(
                old(self).spec_chats(),
                key@,
            ).push(message),
            final(self).spec_peers() == old(self).spec_peers(),
            final(self).spec_stats() == old(self).spec_stats(),
            final(self).spec_active() == old(self).spec_active(),
            final(self).spec_peer() == old(self).spec_peer(),
    {
        let ghost before = self.chats@;
        match self.find_chat(&key) {
            Some(i) => {
                let mut log = self.chats.remove(i);
                log.messages.push(message);
                let ghost updated = log;
                self.chats.insert(i, log);
                proof {
                    assert(self.chats@ =~= before.update(i as int, updated));
                    assert forall|k: Seq<char>| #![trigger messages_under(self.chats@, k)]
                        true implies messages_under(self.chats@, k) == if k == key@ {
                        updated.messages@
                    } else {
                        messages_under(before, k)
                    } by {
                        lemma_messages_under_update(before, i as int, updated, k);
                    }
                }
            },
            None => {
                let mut messages: Vec<ChatMessage> = Vec::new();
                messages.push(message);
                let log = ChatLog { key, messages };
                let ghost added = log;
                self.chats.push(log);
                proof {
                    assert forall|k: Seq<char>| #![trigger messages_under(self.chats@, k)]
                        true implies messages_under(self.chats@, k) == if k == key@ {
                        added.messages@
                    } else {
                        messages_under(before, k)
                    } by {
                        assert(self.chats@.drop_last() =~= before);
                    }
                    assert(added.messages@ =~= seq![message]);
                    assert(messages_under(before, key@) =~= Seq::<ChatMessage>::empty());
                }
            },
        }
    }

    /// Sends `content` to the contact `contact_name` at `timestamp` under `message_id`: the
    /// message joins that chat as sent from the local peer and is counted; refused while the
    /// layer is idle.
    pub fn send_chat_message_at(
        &mut self,
        contact_name: &str,
        content: &str,
        message_id: String,
        timestamp: u64,
    ) -> (res: Result<String, NetworkError>)
        requires
            old(self).wf(),
            old(self).spec_stats().total_messages_sent < u64::MAX,
            old(self).spec_stats().messages_sent < u64::MAX,
        ensures
            final(self).wf(),
            !old(self).spec_active() ==> (res matches Err(NetworkError::SendFailed(m)) && m@
                == "Network not active"@ && *final(self) == *old(self)),
            old(self).spec_active() ==> (res matches Ok(id) && id == message_id),
            old(self).spec_active() ==> final(self).spec_chat(contact_name@) == old(self).spec_chat(
                contact_name@,
            ).push(
                ChatMessage {
                    id: message_id,
                    from: old(self).spec_peer().name,
                    to: final(self).spec_chat(contact_name@).last().to,
                    content: final(self).spec_chat(contact_name@).last().content,
                    msg_type: ChatMessageType::Text,
                    timestamp,
                    delivery_status: DeliveryStatus::Sent,
                },
            ) && final(self).spec_chat(contact_name@).last().to@ == contact_name@ && final(self).spec_chat(contact_name@).last().content@ == content@,
            old(self).spec_active() ==> forall|name: Seq<char>| name != contact_name@ ==> final(self).spec_chat(name) == old(self).spec_chat(name),
            old(self).spec_active() ==> final(self).spec_stats() == (NetworkStats {
                total_messages_sent: (old(self).spec_stats().total_messages_sent + 1) as u64,
                messages_sent: (old(self).spec_stats().messages_sent + 1) as u64,
                ..old(self).spec_stats()
            }),
            final(self).spec_peers() == old(self).spec_peers(),
            final(self).spec_active() == old(self).spec_active(),
            final(self).spec_peer() == old(self).spec_peer(),
    {
        if !self.is_active {
            return Err(NetworkError::SendFailed("Network not active".to_string()));
        }
        let message = ChatMessage {
            id: message_id.clone(),
            from: self.peer.name.clone(),
            to: contact_name.to_owned(),
            content: content.to_owned(),
            msg_type: ChatMessageType::Text,
            timestamp,
            delivery_status: DeliveryStatus::Sent,
        };
        let mut key = "chat_".to_string();
        key.append(contact_name);
        proof {
            assert forall|name: Seq<char>| name != contact_name@ implies chat_key(name) != key@ by {
                lemma_chat_key_injective(name, contact_name@);
            }
        }
        self.append_to_chat(key, message);
        self.stats.total_messages_sent = self.stats.total_messages_sent + 1;
        self.stats.messages_sent = self.stats.messages_sent + 1;
        Ok(message_id)
    }

    /// Sends `content` to the contact `contact_name` now, under a fresh random identifier that
    /// it returns; refused while the layer is idle.
    pub fn send_chat_message_by_name(&mut self, contact_name: &str, content: &str) -> (res: Result<String, NetworkError>)
        requires
            old(self).wf(),
            old(self).spec_stats().total_messages_sent < u64::MAX,
            old(self).spec_stats().messages_sent < u64::MAX,
        ensures
            final(self).wf(),
            !old(self).spec_active() ==> (res matches Err(NetworkError::SendFailed(m)) && m@
                == "Network not active"@ && *final(self) == *old(self)),
            old(self).spec_active() ==> (res matches Ok(id) && id@.len() == 36
                && final(self).spec_chat(contact_name@).len() == old(self).spec_chat(contact_name@).len() + 1
                && final(self).spec_chat(contact_name@).last().id == id
                && final(self).spec_chat(contact_name@).last().content@ == content@),
            final(self).spec_peers() == old(self).spec_peers(),
    {
        if !self.is_active {
            return Err(NetworkError::SendFailed("Network not active".to_string()));
        }
        let id = new_uuid_v4();
        let now = unix_time_secs();
        self.send_chat_message_at(contact_name, content, id, now)
    }

    /// The messages of the chat with `contact_name`, empty where there is none.
    pub fn get_chat_messages(&self, contact_name: &str) -> (res: Result<Vec<ChatMessage>, NetworkError>)
        requires
            self.wf(),
        ensures
            res matches Ok(v) && v@ == self.spec_chat(contact_name@),
    {
        let mut key = "chat_".to_string();
        key.append(contact_name);
        match self.find_chat(&key) {
            Some(i) => Ok(duplicate_messages(&self.chats[i].messages)),
            None => Ok(Vec::new()),
        }
    }

    /// Records `content` received from `from` at `timestamp` under `message_id`: it joins the
    /// chat with `from`, addressed to the local peer, as delivered. Returns the message, for
    /// the caller to announce.
    pub fn receive_message_at(&mut self, from: &str, content: &str, message_id: String, timestamp: u64) -> (res: ChatMessage)
        requires
            old(self).wf(),
        ensures
            final(self).wf(),
            res.id == message_id,
            res.from@ == from@,
            res.to == old(self).spec_peer().name,
            res.content@ == content@,
            res.msg_type == ChatMessageType::Text,
            res.timestamp == timestamp,
            res.delivery_status == DeliveryStatus::Delivered,
            final(self).spec_chat(from@) == old(self).spec_chat(from@).push(res),
            forall|name: Seq<char>| name != from@ ==> final(self).spec_chat(name) == old(self).spec_chat(name),
            final(self).spec_peers() == old(self).spec_peers(),
            final(self).spec_stats() == old(self).spec_stats(),
            final(self).spec_active() == old(self).spec_active(),
    {
        let message = ChatMessage {
            id: message_id,
            from: from.to_owned(),
            to: self.peer.name.clone(),
            content: content.to_owned(),
            msg_type: ChatMessageType::Text,
            timestamp,
            delivery_status: DeliveryStatus::Delivered,
        };
        let copy = message.duplicate();
        let mut key = "chat_".to_string();
        key.append(from);
        proof {
            assert forall|name: Seq<char>| name != from@ implies chat_key(name) != key@ by {
                lemma_chat_key_injective(name, from@);
            }
        }
        self.append_to_chat(key, message);
        copy
    }

    /// Records `content` received from `from` now, under a fresh random identifier.
    pub fn simulate_message_received(&mut self, from: &str, content: &str) -> (res: Result<ChatMessage, NetworkError>)
        requires
            old(self).wf(),
        ensures
            final(self).wf(),
            res matches Ok(m) && m.from@ == from@ && m.content@ == content@ && m.id@.len() == 36
                && final(self).spec_chat(from@) == old(self).spec_chat(from@).push(m),
            forall|name: Seq<char>| name != from@ ==> final(self).spec_chat(name) == old(self).spec_chat(name),
            final(self).spec_peers() == old(self).spec_peers(),
    {
        let id = new_uuid_v4();
        let now = unix_time_secs();
        Ok(self.receive_message_at(from, content, id, now))
    }
}

/// Distinct names have distinct chat keys.
proof fn lemma_chat_key_injective(a: Seq<char>, b: Seq<char>)
    ensures
        chat_key(a) == chat_key(b) ==> a == b,
{
    let p = "chat_"@;
    if chat_key(a) == chat_key(b) {
        assert(a =~= chat_key(a).subrange(p.len() as int, chat_key(a).len() as int));
        assert(b =~= chat_key(b).subrange(p.len() as int, chat_key(b).len() as int));
    }
}

/// Where `logs` has distinct keys and `key` sits at `i`, the messages under `key` are those
/// at `i`.
proof fn lemma_messages_under_at(logs: Seq<ChatLog>, key: Seq<char>, i: int)
    requires
        unique_keys(logs),
        0 <= i < logs.len(),
        logs[i].key@ == key,
    ensures
        messages_under(logs, key) == logs[i].messages@,
    decreases logs.len(),
{
    if i < logs.len() - 1 {
        lemma_messages_under_at(logs.drop_last(), key, i);
    }
}

/// Where no log of `logs` has `key`, there are no messages under it.
proof fn lemma_messages_under_absent(logs: Seq<ChatLog>, key: Seq<char>)
    requires
        forall|j: int| 0 <= j < logs.len() ==> logs[j].key@ != key,
    ensures
        messages_under(logs, key).len() == 0,
    decreases logs.len(),
{
    if logs.len() > 0 {
        lemma_messages_under_absent(logs.drop_last(), key);
    }
}

/// Replacing the log at `i` by one with the same key changes only the messages under that key.
proof fn lemma_messages_under_update(logs: Seq<ChatLog>, i: int, log: ChatLog, k: Seq<char>)
    requires
        unique_keys(logs),
        0 <= i < logs.len(),
        logs[i].key@ == log.key@,
    ensures
        messages_under(logs.update(i, log), k) == if k == log.key@ {
            log.messages@
        } else {
            messages_under(logs, k)
        },
    decreases logs.len(),
{
    let u = logs.update(i, log);
    if i == logs.len() - 1 {
        assert(u.drop_last() =~= logs.drop_last());
    } else {
        assert(u.drop_last() =~= logs.drop_last().update(i, log));
        lemma_messages_under_update(logs.drop_last(), i, log, k);
    }
}

/// Two lists of distinct identifiers, where every identifier of the first is in the second:
/// the second is no shorter.
proof fn lemma_unique_count(a: Seq<PeerData>, b: Seq<PeerData>)
    requires
        unique_ids(a),
        unique_ids(b),
        forall|i: int| 0 <= i < a.len() ==> has_peer(b, #[trigger] a[i].id@),
    ensures
        a.len() <= b.len(),
{
    let ia = ids_of(a);
    let ib = ids_of(b);
    assert(ia.no_duplicates()) by {
        assert forall|i: int, j: int| 0 <= i < ia.len() && 0 <= j < ia.len() && i != j implies ia[i] != ia[j] by {
            if i < j {} else {}
        }
    }
    assert(ib.no_duplicates()) by {
        assert forall|i: int, j: int| 0 <= i < ib.len() && 0 <= j < ib.len() && i != j implies ib[i] != ib[j] by {
            if i < j {} else {}
        }
    }
    assert(ia.to_set().subset_of(ib.to_set())) by {
        assert forall|x: Seq<char>| ia.to_set().contains(x) implies ib.to_set().contains(x) by {
            let k = choose|k: int| 0 <= k < ia.len() && ia[k] == x;
            assert(has_peer(b, a[k].id@));
            let m = choose|m: int| 0 <= m < b.len() && #[trigger] b[m].id@ == a[k].id@;
            assert(ib[m] == x);
        }
    }
    ia.unique_seq_to_set();
    ib.unique_seq_to_set();
    vstd::set_lib::lemma_len_subset(ia.to_set(), ib.to_set());
}

} // verus!
