//! Finding peers on the local network: what this node announces, and the registry of the
//! peers whose announcements it heard.
use vstd::prelude::*;
use crate::chats::duplicate_names;
use crate::crypto::copy_bytes;
use crate::keyed::{find_key, keys_unique, lemma_pairs_map_at, lemma_pairs_map_dom, lemma_pairs_map_len, map_insert, pairs_map};
use crate::commands::find_named;
use crate::network::AnnouncementMessage;

verus! {

/// The UDP port on which announcements are heard.
pub const DISCOVERY_PORT: u16 = 9999;

/// Seconds between two announcements.
pub const ANNOUNCE_INTERVAL_SECS: u64 = 30;

/// A peer heard from within this many seconds counts as active.
pub const ACTIVE_WINDOW_SECS: u64 = 300;

/// A peer heard on the local network.
#[derive(Debug)]
pub struct DiscoveredPeer {
    pub id: String,
    /// The IP address the announcement came from, as text.
    pub address: String,
    pub port: u16,
    pub name: String,
    /// Seconds since the Unix epoch, as the peer announced it.
    pub last_seen: u64,
    pub public_key: Vec<u8>,
    pub protocol_version: u8,
    pub capabilities: Vec<String>,
}

/// A discovered peer as plain values.
pub open spec fn peer_view(p: DiscoveredPeer) -> (Seq<char>, Seq<char>, u16, Seq<char>, u64, Seq<u8>, u8, Seq<String>) {
    (p.id@, p.address@, p.port, p.name@, p.last_seen, p.public_key@, p.protocol_version, p.capabilities@)
}

impl DiscoveredPeer {
    /// A copy of the peer.
    pub fn duplicate(&self) -> (res: Self)
        ensures
            peer_view(res) == peer_view(*self),
    {
        DiscoveredPeer {
            id: self.id.clone(),
            address: self.address.clone(),
            port: self.port,
            name: self.name.clone(),
            last_seen: self.last_seen,
            public_key: copy_bytes(&self.public_key),
            protocol_version: self.protocol_version,
            capabilities: duplicate_names(&self.capabilities),
        }
    }
}

/// Counts over the registry.
#[derive(Debug, Clone, Copy)]
pub struct DiscoveryStatistics {
    pub total_discovered: usize,
    pub active_peers: usize,
    pub unique_capabilities: usize,
    pub discovery_uptime: u64,
    /// When the counts were taken, in milliseconds since the Unix epoch.
    pub last_discovery: i64,
}

/// The peer that an announcement from `from_ip` makes known.
pub open spec fn announced_peer(a: AnnouncementMessage, from_ip: String) -> DiscoveredPeer {
    DiscoveredPeer {
        id: a.peer_id,
        address: from_ip,
        port: a.port,
        name: a.peer_name,
        last_seen: a.timestamp,
        public_key: a.public_key,
        protocol_version: a.protocol_version,
        capabilities: a.capabilities,
    }
}

/// Whether `p` offers the capability `cap`.
pub open spec fn offers(p: DiscoveredPeer, cap: Seq<char>) -> bool {
    exists|i: int| 0 <= i < p.capabilities@.len() && #[trigger] p.capabilities@[i]@ == cap
}

/// Whether `p` was heard within `max_age` seconds before `now`.
pub open spec fn heard_within(p: DiscoveredPeer, now: u64, max_age: u64) -> bool {
    now - p.last_seen < max_age
}

/// The capabilities that the entries `s` offer, each once.
pub open spec fn capabilities_of(s: Seq<(String, DiscoveredPeer)>) -> Set<Seq<char>> {
    Set::new(|c: Seq<char>| exists|j: int| 0 <= j < s.len() && #[trigger] offers(s[j].1, c))
}

/// Whether an entry was heard within `ACTIVE_WINDOW_SECS` before `now`.
pub open spec fn active_at(now: u64) -> spec_fn((String, DiscoveredPeer)) -> bool {
    |e: (String, DiscoveredPeer)| heard_within(e.1, now, ACTIVE_WINDOW_SECS)
}

/// The texts of `v`.
pub open spec fn texts(v: Seq<String>) -> Seq<Seq<char>> {
    v.map_values(|x: String| x@)
}

/// The capabilities this node announces.
pub open spec fn own_capabilities() -> Seq<Seq<char>> {
    seq!["chat"@, "file_transfer"@]
}

/// The addresses an announcement goes to: the broadcast and multicast addresses, then three
/// common subnets.
pub open spec fn broadcast_addresses() -> Seq<Seq<char>> {
    seq![
        "255.255.255.255:9999"@,
        "224.0.0.1:9999"@,
        "192.168.1.255:9999"@,
        "10.0.0.255:9999"@,
        "172.16.255.255:9999"@,
    ]
}

/// The addresses an announcement goes to.
pub fn broadcast_targets() -> (res: Vec<String>)
    ensures
        res@.map_values(|s: String| s@) == broadcast_addresses(),
{
    let mut v: Vec<String> = Vec::new();
    v.push("255.255.255.255:9999".to_string());
    v.push("224.0.0.1:9999".to_string());
    v.push("192.168.1.255:9999".to_string());
    v.push("10.0.0.255:9999".to_string());
    v.push("172.16.255.255:9999".to_string());
    assert(v@.map_values(|s: String| s@) =~= broadcast_addresses());
    v
}

/// The discovery of peers on the local network: this node's identity, whether it runs, and
/// the peers heard.
pub struct NetworkDiscovery {
    local_port: u16,
    local_peer_id: String,
    local_peer_name: String,
    public_key: Vec<u8>,
    running: bool,
    discovered_peers: Vec<(String, DiscoveredPeer)>,
}

impl NetworkDiscovery {
    /// The peers heard, in the order they were first heard.
    pub closed spec fn spec_entries(&self) -> Seq<(String, DiscoveredPeer)> {
        self.discovered_peers@
    }

    /// The peers heard, by identifier.
    pub open spec fn spec_peers(&self) -> Map<Seq<char>, DiscoveredPeer> {
        pairs_map(self.spec_entries())
    }

    /// Whether discovery runs.
    pub closed spec fn spec_running(&self) -> bool {
        self.running
    }

    /// This node's port, identifier, name and key.
    pub closed spec fn spec_local(&self) -> (u16, Seq<char>, Seq<char>, Seq<u8>) {
        (self.local_port, self.local_peer_id@, self.local_peer_name@, self.public_key@)
    }

    /// Each peer is heard under one entry, kept under its own identifier.
    pub open spec fn wf(&self) -> bool {
        &&& keys_unique(self.spec_entries())
        &&& forall|k: Seq<char>| #[trigger] self.spec_peers().dom().contains(k) ==> self.spec_peers()[k].id@ == k
    }

    /// A stopped discovery for this node, having heard no one.
    pub fn new(local_port: u16, peer_id: String, peer_name: String, public_key: Vec<u8>) -> (res: Self)
        ensures
            res.wf(),
            !res.spec_running(),
            res.spec_entries().len() == 0,
            res.spec_local() == (local_port, peer_id@, peer_name@, public_key@),
    {
        let r = NetworkDiscovery {
            local_port,
            local_peer_id: peer_id,
            local_peer_name: peer_name,
            public_key,
            running: false,
            discovered_peers: Vec::new(),
        };
        assert(r.spec_peers() =~= Map::empty());
        r
    }

    /// Whether discovery runs.
    pub fn is_running(&self) -> (res: bool)
        ensures
            res == self.spec_running(),
    {
        self.running
    }

    /// Notes that the sockets are open and discovery runs.
    pub fn mark_started(&mut self)
        ensures
            final(self).spec_running(),
            final(self).spec_entries() == old(self).spec_entries(),
            final(self).spec_local() == old(self).spec_local(),
    {
        self.running = true;
    }

    /// Stops discovery and forgets every peer heard.
    pub fn stop_discovery(&mut self)
        ensures
            !final(self).spec_running(),
            final(self).wf(),
            final(self).spec_entries().len() == 0,
            final(self).spec_local() == old(self).spec_local(),
    {
        self.running = false;
        self.discovered_peers = Vec::new();
        assert(self.spec_peers() =~= Map::empty());
    }

    /// What this node announces at `timestamp` (seconds since the Unix epoch).
    pub fn announcement(&self, timestamp: u64) -> (res: AnnouncementMessage)
        ensures
            (res.port, res.peer_id@, res.peer_name@, res.public_key@) == self.spec_local(),
            res.protocol_version == 1,
            res.capabilities@.map_values(|s: String| s@) == own_capabilities(),
            res.timestamp == timestamp,
    {
        let mut caps: Vec<String> = Vec::new();
        caps.push("chat".to_string());
        caps.push("file_transfer".to_string());
        assert(caps@.map_values(|s: String| s@) =~= own_capabilities());
        AnnouncementMessage {
            peer_id: self.local_peer_id.clone(),
            peer_name: self.local_peer_name.clone(),
            port: self.local_port,
            public_key: copy_bytes(&self.public_key),
            protocol_version: 1,
            capabilities: caps,
            timestamp,
        }
    }

    /// Records the peer that `announcement`, heard from `from_ip`, makes known, in place of any
    /// entry under its identifier.
    pub fn process_announcement(&mut self, announcement: AnnouncementMessage, from_ip: String)
        requires
            old(self).wf(),
        ensures
            final(self).wf(),
            final(self).spec_peers() == old(self).spec_peers().insert(
                announcement.peer_id@,
                announced_peer(announcement, from_ip),
            ),
            final(self).spec_running() == old(self).spec_running(),
            final(self).spec_local() == old(self).spec_local(),
    {
        let key = announcement.peer_id.clone();
        let ghost kv = key@;
        let peer = DiscoveredPeer {
            id: announcement.peer_id,
            address: from_ip,
            port: announcement.port,
            name: announcement.peer_name,
            last_seen: announcement.timestamp,
            public_key: announcement.public_key,
            protocol_version: announcement.protocol_version,
            capabilities: announcement.capabilities,
        };
        map_insert(&mut self.discovered_peers, key, peer);
        proof {
            assert forall|k: Seq<char>| #[trigger] self.spec_peers().dom().contains(k) implies self.spec_peers()[k].id@
                == k by {
                if k != kv {
                    assert(old(self).spec_peers().dom().contains(k));
                }
            }
        }
    }

    /// How many peers were heard.
    pub fn get_peer_count(&self) -> (res: usize)
        requires
            self.wf(),
        ensures
            res == self.spec_peers().dom().len(),
    {
        proof {
            lemma_pairs_map_len(self.discovered_peers@);
        }
        self.discovered_peers.len()
    }

    /// The peer heard under `id`.
    pub fn find_peer_by_id(&self, id: &str) -> (res: Option<DiscoveredPeer>)
        requires
            self.wf(),
        ensures
            self.spec_peers().dom().contains(id@) <==> res is Some,
            res matches Some(p) ==> peer_view(p) == peer_view(self.spec_peers()[id@]),
    {
        match find_key(&self.discovered_peers, id) {
            Some(i) => {
                proof {
                    lemma_pairs_map_at(self.discovered_peers@, i as int);
                }
                Some(self.discovered_peers[i].1.duplicate())
            },
            None => None,
        }
    }

    /// Every peer heard, once each.
    pub fn get_discovered_peers(&self) -> (res: Vec<DiscoveredPeer>)
        requires
            self.wf(),
        ensures
            res@.len() == self.spec_peers().dom().len(),
            forall|i: int| 0 <= i < res@.len() ==> self.spec_peers().dom().contains(#[trigger] res@[i].id@)
                && peer_view(res@[i]) == peer_view(self.spec_peers()[res@[i].id@]),
            forall|k: Seq<char>| #[trigger] self.spec_peers().dom().contains(k) ==> exists|i: int| 0 <= i < res@.len()
                && res@[i].id@ == k,
            forall|i: int, j: int| 0 <= i < j < res@.len() ==> res@[i].id@ != res@[j].id@,
    {
        let ghost s = self.discovered_peers@;
        let mut res: Vec<DiscoveredPeer> = Vec::new();
        let mut i: usize = 0;
        while i < self.discovered_peers.len()
            invariant
                self.wf(),
                s == self.discovered_peers@,
                i <= s.len(),
                res@.len() == i,
                forall|j: int| 0 <= j < i ==> peer_view(#[trigger] res@[j]) == peer_view(s[j].1) && res@[j].id@ == s[j].0@,
            decreases s.len() - i,
        {
            proof {
                lemma_pairs_map_at(s, i as int);
                assert(self.spec_peers().dom().contains(s[i as int].0@));
                assert(self.spec_peers()[s[i as int].0@].id@ == s[i as int].0@);
            }
            res.push(self.discovered_peers[i].1.duplicate());
            i = i + 1;
        }
        proof {
            lemma_pairs_map_len(s);
            assert forall|j: int| 0 <= j < res@.len() implies self.spec_peers().dom().contains(#[trigger] res@[j].id@)
                && peer_view(res@[j]) == peer_view(self.spec_peers()[res@[j].id@]) by {
                lemma_pairs_map_at(s, j);
            }
            assert forall|k: Seq<char>| #[trigger] self.spec_peers().dom().contains(k) implies exists|j: int| 0 <= j < res@.len()
                && res@[j].id@ == k by {
                lemma_pairs_map_dom(s, k);
                let j = choose|j: int| 0 <= j < s.len() && #[trigger] s[j].0@ == k;
                assert(res@[j].id@ == k);
            }
        }
        res
    }

    /// A peer heard under the name `name`, where there is one.
    pub fn find_peer_by_name(&self, name: &str) -> (res: Option<DiscoveredPeer>)
        requires
            self.wf(),
        ensures
            res is None <==> !exists|k: Seq<char>| #[trigger] self.spec_peers().dom().contains(k)
                && self.spec_peers()[k].name@ == name@,
            res matches Some(p) ==> self.spec_peers().dom().contains(p.id@) && peer_view(p) == peer_view(
                self.spec_peers()[p.id@],
            ) && p.name@ == name@,
    {
        let ghost s = self.discovered_peers@;
        let target = name.to_owned();
        let mut i: usize = 0;
        while i < self.discovered_peers.len()
            invariant
                self.wf(),
                s == self.discovered_peers@,
                i <= s.len(),
                target@ == name@,
                forall|j: int| 0 <= j < i ==> (#[trigger] s[j]).1.name@ != name@,
            decreases s.len() - i,
        {
            if self.discovered_peers[i].1.name == target {
                proof {
                    lemma_pairs_map_at(s, i as int);
                    assert(self.spec_peers().dom().contains(s[i as int].0@));
                    assert(self.spec_peers()[s[i as int].0@].id@ == s[i as int].0@);
                    assert(self.spec_peers()[s[i as int].0@].name@ == name@);
                }
                return Some(self.discovered_peers[i].1.duplicate());
            }
            i = i + 1;
        }
        proof {
            if exists|k: Seq<char>| #[trigger] self.spec_peers().dom().contains(k) && self.spec_peers()[k].name@ == name@ {
                let k = choose|k: Seq<char>| #[trigger] self.spec_peers().dom().contains(k) && self.spec_peers()[k].name@
                    == name@;
                lemma_pairs_map_dom(s, k);
                let j = choose|j: int| 0 <= j < s.len() && #[trigger] s[j].0@ == k;
                lemma_pairs_map_at(s, j);
                assert(s[j].1.name@ != name@);
            }
        }
        None
    }

    /// The peers heard that offer the capability `capability`, once each.
    pub fn get_peers_by_capability(&self, capability: &str) -> (res: Vec<DiscoveredPeer>)
        requires
            self.wf(),
        ensures
            forall|i: int| 0 <= i < res@.len() ==> self.spec_peers().dom().contains(#[trigger] res@[i].id@)
                && peer_view(res@[i]) == peer_view(self.spec_peers()[res@[i].id@]) && offers(res@[i], capability@),
            forall|k: Seq<char>| #[trigger] self.spec_peers().dom().contains(k) && offers(self.spec_peers()[k], capability@)
                ==> exists|i: int| 0 <= i < res@.len() && res@[i].id@ == k,
            forall|i: int, j: int| 0 <= i < j < res@.len() ==> res@[i].id@ != res@[j].id@,
    {
        let ghost s = self.discovered_peers@;
        let mut res: Vec<DiscoveredPeer> = Vec::new();
        let ghost mut from: Seq<int> = Seq::empty();
        let mut i: usize = 0;
        while i < self.discovered_peers.len()
            invariant
                self.wf(),
                s == self.discovered_peers@,
                i <= s.len(),
                from.len() == res@.len(),
                forall|j: int| 0 <= j < res@.len() ==> 0 <= #[trigger] from[j] < i && peer_view(res@[j]) == peer_view(
                    s[from[j]].1,
                ) && res@[j].id@ == s[from[j]].0@ && offers(res@[j], capability@),
                forall|a: int, b: int| 0 <= a < b < from.len() ==> from[a] < from[b],
                forall|t: int| 0 <= t < i && offers(#[trigger] s[t].1, capability@) ==> exists|j: int| 0 <= j < from.len()
                    && from[j] == t,
            decreases s.len() - i,
        {
            proof {
                lemma_pairs_map_at(s, i as int);
                assert(self.spec_peers().dom().contains(s[i as int].0@));
                assert(self.spec_peers()[s[i as int].0@].id@ == s[i as int].0@);
            }
            let ghost old_from = from;
            if has_capability(&self.discovered_peers[i].1, capability) {
                let p = self.discovered_peers[i].1.duplicate();
                proof {
                    assert(offers(p, capability@) == offers(s[i as int].1, capability@)) by {
                        assert(p.capabilities@ == s[i as int].1.capabilities@);
                    }
                    from = from.push(i as int);
                }
                res.push(p);
                proof {
                    assert forall|t: int| 0 <= t < i + 1 && offers(#[trigger] s[t].1, capability@) implies exists|j: int| 0 <= j
                        < from.len() && from[j] == t by {
                        if t == i {
                            assert(from[from.len() - 1] == t);
                        } else {
                            let j = choose|j: int| 0 <= j < old_from.len() && old_from[j] == t;
                            assert(from[j] == t);
                        }
                    }
                }
            }
            i = i + 1;
        }
        proof {
            assert forall|j: int| 0 <= j < res@.len() implies self.spec_peers().dom().contains(#[trigger] res@[j].id@)
                && peer_view(res@[j]) == peer_view(self.spec_peers()[res@[j].id@]) && offers(res@[j], capability@) by {
                lemma_pairs_map_at(s, from[j]);
            }
            assert forall|k: Seq<char>| #[trigger] self.spec_peers().dom().contains(k) && offers(self.spec_peers()[k], capability@)
                implies exists|j: int| 0 <= j < res@.len() && res@[j].id@ == k by {
                lemma_pairs_map_dom(s, k);
                let t = choose|t: int| 0 <= t < s.len() && #[trigger] s[t].0@ == k;
                lemma_pairs_map_at(s, t);
                let j = choose|j: int| 0 <= j < from.len() && from[j] == t;
                assert(res@[j].id@ == k);
            }
            assert forall|a: int, b: int| 0 <= a < b < res@.len() implies res@[a].id@ != res@[b].id@ by {
                assert(from[a] < from[b]);
            }
        }
        res
    }

    /// Forgets every peer not heard within `max_age_seconds` before `now` (seconds since the
    /// Unix epoch). No peer may claim to have been heard after `now`.
    pub fn cleanup_old_peers_at(&mut self, now: u64, max_age_seconds: u64)
        requires
            old(self).wf(),
            forall|k: Seq<char>| #[trigger] old(self).spec_peers().dom().contains(k) ==> old(self).spec_peers()[k].last_seen
                <= now,
        ensures
            final(self).wf(),
            forall|k: Seq<char>| #[trigger] final(self).spec_peers().dom().contains(k) <==> (old(self).spec_peers().dom().contains(k)
                && heard_within(old(self).spec_peers()[k], now, max_age_seconds)),
            forall|k: Seq<char>| #[trigger] final(self).spec_peers().dom().contains(k) ==> final(self).spec_peers()[k]
                == old(self).spec_peers()[k],
            final(self).spec_running() == old(self).spec_running(),
            final(self).spec_local() == old(self).spec_local(),
    {
        let ghost s = self.discovered_peers@;
        proof {
            assert forall|t: int| 0 <= t < s.len() implies (#[trigger] s[t]).1.last_seen <= now by {
                lemma_pairs_map_at(s, t);
                assert(old(self).spec_peers().dom().contains(s[t].0@));
            }
        }
        let mut all: Vec<(String, DiscoveredPeer)> = Vec::new();
        std::mem::swap(&mut all, &mut self.discovered_peers);
        let n = all.len();
        let mut kept: Vec<(String, DiscoveredPeer)> = Vec::new();
        let ghost mut from: Seq<int> = Seq::empty();
        let mut i: usize = 0;
        assert(all@.subrange(0, n as int) =~= all@);
        while i < n
            invariant
                n == s.len(),
                i <= n,
                all@ == s.subrange(i as int, n as int),
                forall|t: int| 0 <= t < s.len() ==> (#[trigger] s[t]).1.last_seen <= now,
                from.len() == kept@.len(),
                forall|j: int| 0 <= j < kept@.len() ==> 0 <= #[trigger] from[j] < i && kept@[j] == s[from[j]] && heard_within(
                    kept@[j].1,
                    now,
                    max_age_seconds,
                ),
                forall|a: int, b: int| 0 <= a < b < from.len() ==> from[a] < from[b],
                forall|t: int| 0 <= t < i && heard_within(#[trigger] s[t].1, now, max_age_seconds) ==> exists|j: int| 0 <= j
                    < from.len() && from[j] == t,
            decreases n - i,
        {
            let e = all.remove(0);
            assert(e == s[i as int]);
            assert(all@ =~= s.subrange(i + 1, n as int));
            let ghost old_from = from;
            if now - e.1.last_seen < max_age_seconds {
                proof {
                    from = from.push(i as int);
                }
                kept.push(e);
            }
            proof {
                assert forall|t: int| 0 <= t < i + 1 && heard_within(#[trigger] s[t].1, now, max_age_seconds) implies exists|j: int|
                    0 <= j < from.len() && from[j] == t by {
                    if t == i {
                        assert(from[from.len() - 1] == t);
                    } else {
                        let j = choose|j: int| 0 <= j < old_from.len() && old_from[j] == t;
                        assert(from[j] == t);
                    }
                }
            }
            i = i + 1;
        }
        let ghost ks = kept@;
        proof {
            assert forall|a: int, b: int| 0 <= a < b < ks.len() implies ks[a].0@ != ks[b].0@ by {
                assert(from[a] < from[b]);
            }
        }
        self.discovered_peers = kept;
        proof {
            assert forall|k: Seq<char>| #[trigger] self.spec_peers().dom().contains(k) implies old(self).spec_peers().dom().contains(k)
                && heard_within(old(self).spec_peers()[k], now, max_age_seconds) && self.spec_peers()[k]
                == old(self).spec_peers()[k] && self.spec_peers()[k].id@ == k by {
                lemma_pairs_map_dom(ks, k);
                let j = choose|j: int| 0 <= j < ks.len() && #[trigger] ks[j].0@ == k;
                lemma_pairs_map_at(ks, j);
                lemma_pairs_map_at(s, from[j]);
                assert(old(self).spec_peers().dom().contains(s[from[j]].0@));
            }
            assert forall|k: Seq<char>| #[trigger] old(self).spec_peers().dom().contains(k) && heard_within(
                old(self).spec_peers()[k],
                now,
                max_age_seconds,
            ) implies self.spec_peers().dom().contains(k) by {
                lemma_pairs_map_dom(s, k);
                let t = choose|t: int| 0 <= t < s.len() && #[trigger] s[t].0@ == k;
                lemma_pairs_map_at(s, t);
                let j = choose|j: int| 0 <= j < from.len() && from[j] == t;
                assert(ks[j].0@ == k);
                lemma_pairs_map_dom(ks, k);
            }
        }
    }

    /// Counts over the peers heard, at `now` (seconds since the Unix epoch) and taken at
    /// `now_millis` (milliseconds since the Unix epoch): all of them, those heard within
    /// `ACTIVE_WINDOW_SECS`, and the distinct capabilities they offer. No peer may claim to have
    /// been heard after `now`.
    pub fn get_discovery_statistics_at(&self, now: u64, now_millis: i64) -> (res: DiscoveryStatistics)
        requires
            self.wf(),
            forall|k: Seq<char>| #[trigger] self.spec_peers().dom().contains(k) ==> self.spec_peers()[k].last_seen <= now,
        ensures
            res.total_discovered == self.spec_peers().dom().len(),
            res.active_peers == self.spec_entries().filter(active_at(now)).len(),
            res.unique_capabilities == capabilities_of(self.spec_entries()).len(),
            res.discovery_uptime == 0,
            res.last_discovery == now_millis,
    {
        let ghost s = self.discovered_peers@;
        proof {
            assert forall|t: int| 0 <= t < s.len() implies (#[trigger] s[t]).1.last_seen <= now by {
                lemma_pairs_map_at(s, t);
                assert(self.spec_peers().dom().contains(s[t].0@));
            }
            assert(s.subrange(0, 0).filter(active_at(now)) =~= Seq::empty()) by {
                reveal(Seq::filter);
            }
            assert(texts(Seq::<String>::empty()).to_set() =~= capabilities_of(s.subrange(0, 0)));
        }
        let mut active: usize = 0;
        let mut seen: Vec<String> = Vec::new();
        let mut i: usize = 0;
        while i < self.discovered_peers.len()
            invariant
                s == self.discovered_peers@,
                i <= s.len(),
                forall|t: int| 0 <= t < s.len() ==> (#[trigger] s[t]).1.last_seen <= now,
                active == s.subrange(0, i as int).filter(active_at(now)).len(),
                active <= i,
                texts(seen@).no_duplicates(),
                texts(seen@).to_set() == capabilities_of(s.subrange(0, i as int)),
            decreases s.len() - i,
        {
            let p = &self.discovered_peers[i].1;
            let ghost before = s.subrange(0, i as int);
            let ghost next = s.subrange(0, i + 1);
            proof {
                assert(next.drop_last() =~= before);
                assert(next.last() == s[i as int]);
                assert(next.filter(active_at(now)).len() == before.filter(active_at(now)).len() + (if active_at(now)(
                    s[i as int],
                ) {
                    1int
                } else {
                    0int
                })) by {
                    reveal(Seq::filter);
                }
                lemma_filter_len_bound(before, active_at(now));
            }
            if now - p.last_seen < ACTIVE_WINDOW_SECS {
                active = active + 1;
            }
            let mut t: usize = 0;
            while t < p.capabilities.len()
                invariant
                    i < s.len(),
                    p == &s[i as int].1,
                    t <= p.capabilities@.len(),
                    texts(seen@).no_duplicates(),
                    texts(seen@).to_set() == capabilities_of(before).union(
                        Set::new(|c: Seq<char>| exists|u: int| 0 <= u < t && #[trigger] p.capabilities@[u]@ == c),
                    ),
                decreases p.capabilities@.len() - t,
            {
                let ghost seen_before = texts(seen@);
                let ghost cur = p.capabilities@[t as int]@;
                match find_named(&seen, p.capabilities[t].as_str()) {
                    Some(j) => {
                        proof {
                            assert(texts(seen@)[j as int] == cur);
                            assert(texts(seen@) == seen_before);
                        }
                    },
                    None => {
                        seen.push(p.capabilities[t].clone());
                        proof {
                            assert(texts(seen@) =~= seen_before.push(cur));
                            assert(texts(seen@)[texts(seen@).len() - 1] == cur);
                            assert forall|a: int, b: int| 0 <= a < texts(seen@).len() && 0 <= b < texts(seen@).len() && a != b implies texts(seen@)[a] != texts(seen@)[b] by {
                                if a == texts(seen@).len() - 1 {
                                    assert(seen_before[b] == seen@[b]@);
                                } else if b == texts(seen@).len() - 1 {
                                    assert(seen_before[a] == seen@[a]@);
                                } else {
                                    assert(seen_before[a] == texts(seen@)[a]);
                                    assert(seen_before[b] == texts(seen@)[b]);
                                }
                            }
                        }
                    },
                }
                proof {
                    assert(texts(seen@).contains(cur));
                    assert(forall|a: int| 0 <= a < seen_before.len() ==> texts(seen@)[a] == seen_before[a]);
                    assert(texts(seen@).to_set() =~= capabilities_of(before).union(
                        Set::new(|c: Seq<char>| exists|u: int| 0 <= u < t + 1 && #[trigger] p.capabilities@[u]@ == c),
                    )) by {
                        assert forall|c: Seq<char>| texts(seen@).to_set().contains(c) implies capabilities_of(before).union(
                            Set::new(|c: Seq<char>| exists|u: int| 0 <= u < t + 1 && #[trigger] p.capabilities@[u]@ == c),
                        ).contains(c) by {
                            if c == cur {
                                assert(p.capabilities@[t as int]@ == c);
                            } else {
                                let a = choose|a: int| 0 <= a < texts(seen@).len() && texts(seen@)[a] == c;
                                if a < seen_before.len() {
                                    assert(seen_before[a] == c);
                                    assert(seen_before.to_set().contains(c));
                                }
                            }
                        }
                        assert forall|c: Seq<char>| capabilities_of(before).union(
                            Set::new(|c: Seq<char>| exists|u: int| 0 <= u < t + 1 && #[trigger] p.capabilities@[u]@ == c),
                        ).contains(c) implies texts(seen@).to_set().contains(c) by {
                            if c == cur {
                            } else {
                                if !capabilities_of(before).contains(c) {
                                    let u = choose|u: int| 0 <= u < t + 1 && #[trigger] p.capabilities@[u]@ == c;
                                    assert(u < t);
                                }
                                assert(seen_before.to_set().contains(c));
                                let a = choose|a: int| 0 <= a < seen_before.len() && seen_before[a] == c;
                                assert(texts(seen@)[a] == c);
                            }
                        }
                    }
                }
                t = t + 1;
            }
            proof {
                assert(texts(seen@).to_set() =~= capabilities_of(next)) by {
                    assert forall|c: Seq<char>| capabilities_of(next).contains(c) implies texts(seen@).to_set().contains(c) by {
                        let j = choose|j: int| 0 <= j < next.len() && #[trigger] offers(next[j].1, c);
                        if j < i {
                            assert(before[j] == next[j]);
                            assert(capabilities_of(before).contains(c));
                        } else {
                            let u = choose|u: int| 0 <= u < p.capabilities@.len() && #[trigger] p.capabilities@[u]@ == c;
                            assert(p.capabilities@[u]@ == c);
                        }
                    }
                    assert forall|c: Seq<char>| texts(seen@).to_set().contains(c) implies capabilities_of(next).contains(c) by {
                        if capabilities_of(before).contains(c) {
                            let j = choose|j: int| 0 <= j < before.len() && #[trigger] offers(before[j].1, c);
                            assert(next[j] == before[j]);
                        } else {
                            let u = choose|u: int| 0 <= u < p.capabilities@.len() && #[trigger] p.capabilities@[u]@ == c;
                            assert(offers(next[i as int].1, c));
                        }
                    }
                }
            }
            i = i + 1;
        }
        proof {
            assert(s.subrange(0, s.len() as int) =~= s);
            texts(seen@).unique_seq_to_set();
            lemma_pairs_map_len(s);
        }
        DiscoveryStatistics {
            total_discovered: self.discovered_peers.len(),
            active_peers: active,
            unique_capabilities: seen.len(),
            discovery_uptime: 0,
            last_discovery: now_millis,
        }
    }
}

/// Filtering keeps no more than there was.
proof fn lemma_filter_len_bound<A>(s: Seq<A>, f: spec_fn(A) -> bool)
    ensures
        s.filter(f).len() <= s.len(),
{
    s.lemma_filter_len(f);
}

/// Whether `p` offers the capability `cap`.
fn has_capability(p: &DiscoveredPeer, cap: &str) -> (res: bool)
    ensures
        res == offers(*p, cap@),
{
    match find_named(&p.capabilities, cap) {
        Some(_) => true,
        None => false,
    }
}

} // verus!
