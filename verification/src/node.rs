//! The local node: its settings, its profile directory and the peers it knows.
use vstd::prelude::*;
use vstd::string::StringSliceAdditionalSpecFns;
use crate::clock::unix_time_nanos;
use crate::entropy::{new_uuid_v4, random_u16};
use crate::text::{chars_of, decimal, last_index_of, parse_u16, push_char, push_decimal, rfind_char,
    spec_parse_u16, string_from_range};

verus! {

/// Network settings of a profile.
#[derive(Debug, Clone)]
pub struct NetworkConfig {
    pub port: u16,
    pub max_peers: usize,
    pub enable_discovery: bool,
}

/// Storage settings of a profile.
#[derive(Debug, Clone)]
pub struct StorageConfig {
    pub data_path: String,
    pub enable_encryption: bool,
}

/// The settings of one profile.
#[derive(Debug, Clone)]
pub struct Config {
    pub user_name: String,
    pub profile_id: String,
    pub network: NetworkConfig,
    pub storage: StorageConfig,
}

/// The first port that a fresh profile may listen on.
pub const BASE_PORT: u16 = 8080;

/// How many ports, from `BASE_PORT` on, a fresh profile picks among.
pub const PORT_SPREAD: u16 = 1000;

/// The settings of a fresh profile kept in `profile_path`, with the given identifier and a
/// port picked by `random`.
pub open spec fn is_fresh_config(c: Config, profile_path: Seq<char>, profile_id: Seq<char>, random: u16) -> bool {
    &&& c.user_name@ == "User"@
    &&& c.profile_id@ == profile_id
    &&& c.network.port == 8080 + random % 1000
    &&& c.network.max_peers == 50
    &&& c.network.enable_discovery
    &&& c.storage.data_path@ == profile_path
    &&& c.storage.enable_encryption
}

impl Config {
    /// The settings of a fresh profile in `profile_path`, with identifier `profile_id`; the
    /// port is `8080 + random % 1000`.
    pub fn for_profile(profile_path: &str, profile_id: String, random: u16) -> (res: Config)
        ensures
            is_fresh_config(res, profile_path@, profile_id@, random),
    {
        Config {
            user_name: "User".to_string(),
            profile_id,
            network: NetworkConfig {
                port: BASE_PORT + random % PORT_SPREAD,
                max_peers: 50,
                enable_discovery: true,
            },
            storage: StorageConfig { data_path: profile_path.to_owned(), enable_encryption: true },
        }
    }

    /// The settings of a fresh profile in `profile_path`: a random identifier and a random
    /// port between 8080 and 9079.
    pub fn default_for_profile(profile_path: &str) -> (res: Config)
        ensures
            exists|r: u16| is_fresh_config(res, profile_path@, res.profile_id@, r),
            res.profile_id@.len() == 36,
            8080 <= res.network.port < 9080,
    {
        let id = new_uuid_v4();
        let r = random_u16();
        let res = Config::for_profile(profile_path, id, r);
        assert(is_fresh_config(res, profile_path@, res.profile_id@, r));
        res
    }
}

/// Errors of the messenger's core.
#[derive(Debug)]
pub enum CoreError {
    Initialization(String),
    Profile(String),
    Config(String),
    Manager(String),
    Network(String),
    Storage(String),
    Contact(String),
    InvalidState(String),
}

impl CoreError {
    /// The heading of the error's message.
    pub open spec fn spec_heading(&self) -> Seq<char> {
        match self {
            CoreError::Initialization(_) => "Initialization error: "@,
            CoreError::Profile(_) => "Profile error: "@,
            CoreError::Config(_) => "Configuration error: "@,
            CoreError::Manager(_) => "Manager error: "@,
            CoreError::Network(_) => "Network error: "@,
            CoreError::Storage(_) => "Storage error: "@,
            CoreError::Contact(_) => "Contact error: "@,
            CoreError::InvalidState(_) => "Invalid state: "@,
        }
    }

    /// The detail the error carries.
    pub open spec fn spec_detail(&self) -> Seq<char> {
        match self {
            CoreError::Initialization(m) => m@,
            CoreError::Profile(m) => m@,
            CoreError::Config(m) => m@,
            CoreError::Manager(m) => m@,
            CoreError::Network(m) => m@,
            CoreError::Storage(m) => m@,
            CoreError::Contact(m) => m@,
            CoreError::InvalidState(m) => m@,
        }
    }

    /// The error's message: its heading, then its detail.
    pub fn message(&self) -> (res: String)
        ensures
            res@ == self.spec_heading() + self.spec_detail(),
    {
        let (mut head, detail) = match self {
            CoreError::Initialization(m) => ("Initialization error: ".to_string(), m),
            CoreError::Profile(m) => ("Profile error: ".to_string(), m),
            CoreError::Config(m) => ("Configuration error: ".to_string(), m),
            CoreError::Manager(m) => ("Manager error: ".to_string(), m),
            CoreError::Network(m) => ("Network error: ".to_string(), m),
            CoreError::Storage(m) => ("Storage error: ".to_string(), m),
            CoreError::Contact(m) => ("Contact error: ".to_string(), m),
            CoreError::InvalidState(m) => ("Invalid state: ".to_string(), m),
        };
        head.append(detail.as_str());
        head
    }
}

/// The port a peer is assumed to listen on when its address names none.
pub const DEFAULT_PEER_PORT: u16 = 8080;

/// How an address `host:port` is split: the text after the last colon is the port where it
/// reads as a port number; otherwise the whole address is the host and the port is 8080.
pub open spec fn spec_parse_address(a: Seq<char>) -> (Seq<char>, u16) {
    match last_index_of(a, ':') {
        Some(i) => match spec_parse_u16(a.subrange(i + 1, a.len() as int)) {
            Some(p) => (a.subrange(0, i), p),
            None => (a, 8080u16),
        },
        None => (a, 8080u16),
    }
}

/// Reading an address written as a host, a colon and a port gives back that host and port,
/// whatever the host holds: what `get_full_address` writes, `parse_address` reads back.
pub proof fn lemma_parse_full_address(host: Seq<char>, port: u16)
    ensures
        spec_parse_address(host + seq![':'] + decimal(port as nat)) == (host, port),
{
    let d = decimal(port as nat);
    let a = host + seq![':'] + d;
    crate::text::lemma_decimal_digits(port as nat);
    crate::text::lemma_parse_decimal_u16(port);
    assert forall|i: int| 0 <= i < d.len() implies d[i] != ':' by {
        assert(crate::text::is_ascii_digit(d[i]));
    }
    crate::text::lemma_last_index_past(host + seq![':'], d, ':');
    assert((host + seq![':']).last() == ':');
    assert(last_index_of(host + seq![':'], ':') == Some(host.len() as int));
    assert(a.subrange(host.len() as int + 1, a.len() as int) =~= d);
    assert(a.subrange(0, host.len() as int) =~= host);
}

/// A peer of the network.
#[derive(Debug, Clone)]
pub struct Peer {
    pub id: String,
    pub name: String,
    pub address: String,
    pub public_key: Vec<u8>,
    pub port: u16,
}

impl Peer {
    /// Splits `address` into host and port.
    pub fn parse_address(address: &str) -> (res: (String, u16))
        ensures
            (res.0@, res.1) == spec_parse_address(address@),
    {
        let chars = chars_of(address);
        match rfind_char(chars.as_slice(), ':') {
            Some(colon) => {
                let port_chars = crate::text::slice_range(chars.as_slice(), colon + 1, chars.len());
                match parse_u16(port_chars.as_slice()) {
                    Some(port) => (string_from_range(chars.as_slice(), 0, colon), port),
                    None => (address.to_owned(), DEFAULT_PEER_PORT),
                }
            },
            None => (address.to_owned(), DEFAULT_PEER_PORT),
        }
    }

    /// A peer named `name` at `address` (`host:port`), with the identifier `id` and no key.
    pub fn with_id(id: String, name: String, address: &str) -> (res: Peer)
        ensures
            res.id == id,
            res.name == name,
            (res.address@, res.port) == spec_parse_address(address@),
            res.public_key@.len() == 0,
    {
        let (host, port) = Peer::parse_address(address);
        Peer { id, name, address: host, public_key: Vec::new(), port }
    }

    /// A peer named `name` at `address` (`host:port`), with a fresh random identifier.
    pub fn new(name: String, address: String) -> (res: Peer)
        ensures
            res.id@.len() == 36,
            res.name == name,
            (res.address@, res.port) == spec_parse_address(address@),
            res.public_key@.len() == 0,
    {
        Peer::with_id(new_uuid_v4(), name, address.as_str())
    }

    /// The identifier made of a random identifier and a clock reading: `uuid`, an underscore,
    /// then `entropy` in decimal.
    pub fn entropy_id(uuid: String, entropy: u128) -> (res: String)
        ensures
            res@ == uuid@ + seq!['_'] + decimal(entropy as nat),
    {
        let mut id = uuid;
        push_char(&mut id, '_');
        push_decimal(&mut id, entropy);
        id
    }

    /// A peer named `name` at `address`, whose identifier joins a random identifier and the
    /// clock's nanoseconds since the Unix epoch.
    pub fn new_with_entropy(name: String, address: String) -> (res: Peer)
        ensures
            res.id@.len() > 37,
            res.id@[36] == '_',
            exists|n: nat| res.id@.subrange(37, res.id@.len() as int) == decimal(n),
            res.name == name,
            (res.address@, res.port) == spec_parse_address(address@),
            res.public_key@.len() == 0,
    {
        let uuid = new_uuid_v4();
        let entropy = unix_time_nanos();
        let id = Peer::entropy_id(uuid, entropy);
        proof {
            crate::text::lemma_decimal_nonempty(entropy as nat);
            assert(id@.subrange(37, id@.len() as int) =~= decimal(entropy as nat));
        }
        Peer::with_id(id, name, address.as_str())
    }

    /// A peer named `name` at `address` and `port`, with a fresh random identifier.
    pub fn with_address(name: String, address: String, port: u16) -> (res: Peer)
        ensures
            res.id@.len() == 36,
            res.name == name,
            res.address == address,
            res.port == port,
            res.public_key@.len() == 0,
    {
        Peer { id: new_uuid_v4(), name, address, public_key: Vec::new(), port }
    }

    /// `address:port`.
    pub fn get_full_address(&self) -> (res: String)
        ensures
            res@ == self.address@ + seq![':'] + decimal(self.port as nat),
    {
        let mut s = self.address.clone();
        push_char(&mut s, ':');
        push_decimal(&mut s, self.port as u128);
        s
    }

    /// Moves the peer to `address` and `port`.
    pub fn update_address(&mut self, address: String, port: u16)
        ensures
            *final(self) == (Peer { address, port, ..*old(self) }),
    {
        self.address = address;
        self.port = port;
    }

    /// Sets the peer's public key.
    pub fn set_public_key(&mut self, key: Vec<u8>)
        ensures
            *final(self) == (Peer { public_key: key, ..*old(self) }),
    {
        self.public_key = key;
    }

    /// The first eight bytes of the identifier, or all of it where it is no longer. The
    /// identifier must not split a character at its eighth byte, and its length in bytes fits
    /// in a `usize`, as that of any string in memory does.
    pub fn get_short_id(&self) -> (res: String)
        requires
            encode_utf8_len(self.id@) <= usize::MAX,
            encode_utf8_len(self.id@) <= 8 || vstd::utf8::is_char_boundary(
                vstd::utf8::encode_utf8(self.id@),
                8,
            ),
        ensures
            encode_utf8_len(self.id@) > 8 ==> vstd::utf8::encode_utf8(res@) == vstd::utf8::encode_utf8(
                self.id@,
            ).subrange(0, 8),
            encode_utf8_len(self.id@) <= 8 ==> res@ == self.id@,
    {
        let id = self.id.as_str();
        if id.len() > 8 {
            let (head, _) = id.split_at(8);
            let res = head.to_owned();
            assert(head.spec_bytes() == vstd::utf8::encode_utf8(head@));
            assert(id.spec_bytes() == vstd::utf8::encode_utf8(self.id@));
            res
        } else {
            self.id.clone()
        }
    }

    /// `name (address:port)`.
    pub fn get_info(&self) -> (res: String)
        ensures
            res@ == self.name@ + seq![' ', '('] + self.address@ + seq![':'] + decimal(
                self.port as nat,
            ) + seq![')'],
    {
        let mut s = self.name.clone();
        push_char(&mut s, ' ');
        push_char(&mut s, '(');
        s.append(self.address.as_str());
        push_char(&mut s, ':');
        push_decimal(&mut s, self.port as u128);
        push_char(&mut s, ')');
        s
    }
}

/// The number of bytes of the UTF-8 encoding of `s`.
pub open spec fn encode_utf8_len(s: Seq<char>) -> int {
    vstd::utf8::encode_utf8(s).len() as int
}

/// A path joined to a base directory, as `Path::join` does on Unix: an absolute path replaces
/// the base; otherwise one separator goes between them unless the base is empty or ends in one.
pub open spec fn path_join(base: Seq<char>, p: Seq<char>) -> Seq<char> {
    if p.len() > 0 && p[0] == '/' {
        p
    } else if base.len() == 0 {
        p
    } else if base.last() == '/' {
        base + p
    } else {
        base + seq!['/'] + p
    }
}

/// Joins `p` to `base` as `Path::join` does on Unix.
pub fn join_path(base: &str, p: &str) -> (res: String)
    ensures
        res@ == path_join(base@, p@),
{
    let pc = chars_of(p);
    let bc = chars_of(base);
    if pc.len() > 0 && pc[0] == '/' {
        return p.to_owned();
    }
    if bc.len() == 0 {
        return p.to_owned();
    }
    let mut s = base.to_owned();
    if bc[bc.len() - 1] != '/' {
        push_char(&mut s, '/');
    }
    s.append(p);
    s
}

/// The directory that holds the profiles, under a per-user data directory `base`.
pub fn profiles_dir_under(base: &str) -> (res: String)
    ensures
        res@ == path_join(path_join(base@, "shadowghost"@), "profiles"@),
{
    let app = join_path(base, "shadowghost");
    join_path(app.as_str(), "profiles")
}

/// The profiles of this installation, each in a directory of its own.
pub struct ProfileManager {
    profiles_dir: String,
}

impl ProfileManager {
    /// The directory that holds the profiles.
    pub closed spec fn spec_dir(&self) -> Seq<char> {
        self.profiles_dir@
    }

    /// Profiles kept under `profiles_dir`.
    pub fn with_dir(profiles_dir: String) -> (res: ProfileManager)
        ensures
            res.spec_dir() == profiles_dir@,
    {
        ProfileManager { profiles_dir }
    }

    /// The directory that holds the profiles.
    pub fn get_profiles_dir_path(&self) -> (res: &String)
        ensures
            res@ == self.spec_dir(),
    {
        &self.profiles_dir
    }

    /// The directory of the profile `profile_id`.
    pub fn get_profile_path(&self, profile_id: &str) -> (res: String)
        ensures
            res@ == path_join(self.spec_dir(), profile_id@),
    {
        join_path(self.profiles_dir.as_str(), profile_id)
    }
}

/// A profile: its identifier, its name, and when it was made and last used, in milliseconds
/// since the Unix epoch.
#[derive(Debug)]
pub struct Profile {
    pub id: String,
    pub name: String,
    pub created_at: i64,
    pub last_used: i64,
}

impl Profile {
    /// A copy of the profile.
    pub fn duplicate(&self) -> (res: Self)
        ensures
            res == *self,
    {
        Profile { id: self.id.clone(), name: self.name.clone(), created_at: self.created_at, last_used: self.last_used }
    }
}

/// `ps` is ordered by last use, the most recent first.
pub open spec fn recent_first(ps: Seq<Profile>) -> bool {
    forall|i: int, j: int| 0 <= i < j < ps.len() ==> ps[i].last_used >= ps[j].last_used
}

/// The time a profile was last used, as the key it is ordered by.
pub open spec fn profile_use() -> spec_fn(Profile) -> int {
    |p: Profile| p.last_used as int
}

/// Orders `profiles` by last use, the most recent first, as a profile list is shown; profiles
/// last used at the same time keep their order.
pub fn order_profiles(profiles: Vec<Profile>) -> (res: Vec<Profile>)
    ensures
        res@ == crate::sorting::stable_desc(profiles@, profile_use()),
        recent_first(res@),
        res@.to_multiset() == profiles@.to_multiset(),
{
    broadcast use vstd::seq_lib::group_to_multiset_ensures;
    let mut res: Vec<Profile> = Vec::new();
    let mut i: usize = 0;
    while i < profiles.len()
        invariant
            i <= profiles@.len(),
            recent_first(res@),
            res@.to_multiset() == profiles@.subrange(0, i as int).to_multiset(),
            res@ == crate::sorting::stable_desc(profiles@.subrange(0, i as int), profile_use()),
        decreases profiles@.len() - i,
    {
        let m = profiles[i].duplicate();
        let ts = m.last_used;
        let mut p: usize = 0;
        while p < res.len() && res[p].last_used >= ts
            invariant
                p <= res@.len(),
                forall|k: int| 0 <= k < p ==> res@[k].last_used >= ts,
            decreases res@.len() - p,
        {
            p = p + 1;
        }
        let ghost before = res@;
        res.insert(p, m);
        proof {
            assert(res@ =~= before.insert(p as int, m));
            assert forall|x: int, y: int| 0 <= x < y < res@.len() implies res@[x].last_used
                >= res@[y].last_used by {
                if y < p {
                } else if y == p {
                } else if x < p {
                    assert(before[x].last_used >= before[y - 1].last_used);
                } else if x == p {
                    assert(before[p as int].last_used < ts);
                    assert(before[p as int].last_used >= before[y - 1].last_used || y - 1 == p);
                } else {
                    assert(before[x - 1].last_used >= before[y - 1].last_used);
                }
            }
            assert(res@.remove(p as int) =~= before);
            assert(res@[p as int] == m);
            let next = profiles@.subrange(0, i + 1);
            assert(next =~= profiles@.subrange(0, i as int).push(profiles@[i as int]));
            crate::sorting::lemma_first_below(before, profile_use(), ts as int, p as int);
            assert(next.drop_last() =~= profiles@.subrange(0, i as int));
            assert(res@ == crate::sorting::stable_desc(next, profile_use()));
            vstd::seq_lib::to_multiset_build(profiles@.subrange(0, i as int), profiles@[i as int]);
            vstd::seq_lib::to_multiset_remove(res@, p as int);
            assert(before.to_multiset() == res@.to_multiset().remove(m));
            assert(res@.contains(m));
            res@.to_multiset_ensures();
            assert(res@.to_multiset().count(m) > 0);
            assert(res@.to_multiset() =~= before.to_multiset().insert(m));
            assert(res@.to_multiset() == next.to_multiset());
        }
        i = i + 1;
    }
    assert(profiles@.subrange(0, profiles@.len() as int) =~= profiles@);
    res
}

} // verus!
