//! Which peers this node trusts and which it refuses, over the cryptographic layer.
use vstd::prelude::*;
use crate::crypto::{
    CryptoError, CryptoManager, EncryptedMessage, PublicKey, SecurityLevel, SecurityLevelType, TrustStats,
    byte_range, spec_digest, spec_signature,
};
use crate::events::{AppEvent, CryptoEvent};
use crate::keyed::{
    find_key, keys_unique, lemma_pairs_map_at, lemma_pairs_map_dom, lemma_pairs_map_len, map_insert,
    map_remove, pairs_map,
};
use crate::node::Config;

verus! {

/// The trusted keys after taking each of `s` whose peer has none yet, in order.
pub open spec fn keys_after_import(m: Map<Seq<char>, PublicKey>, s: Seq<(String, PublicKey)>) -> Map<
    Seq<char>,
    PublicKey,
>
    decreases s.len(),
{
    if s.len() == 0 {
        m
    } else {
        let before = keys_after_import(m, s.drop_last());
        if before.dom().contains(s.last().0@) {
            before
        } else {
            before.insert(s.last().0@, s.last().1)
        }
    }
}

/// How many of `s` an import into `m` takes.
pub open spec fn keys_taken(m: Map<Seq<char>, PublicKey>, s: Seq<(String, PublicKey)>) -> nat
    decreases s.len(),
{
    if s.len() == 0 {
        0
    } else {
        keys_taken(m, s.drop_last()) + if keys_after_import(m, s.drop_last()).dom().contains(s.last().0@) {
            0nat
        } else {
            1nat
        }
    }
}

/// The level of a peer: blocked before trusted, and unknown otherwise.
pub open spec fn level_of(blocked: bool, trusted: bool) -> SecurityLevelType {
    if blocked {
        SecurityLevelType::Blocked
    } else if trusted {
        SecurityLevelType::Trusted
    } else {
        SecurityLevelType::Unknown
    }
}

/// The description that goes with a level.
pub open spec fn level_description(l: SecurityLevelType) -> Seq<char> {
    match l {
        SecurityLevelType::Blocked => "This peer has been blocked and will be rejected"@,
        SecurityLevelType::Trusted => "This peer is trusted and verified"@,
        SecurityLevelType::Unknown => "This peer's identity has not been verified"@,
    }
}

/// Whether `a` and `b` hold the same bytes.
fn same_bytes(a: &[u8], b: &[u8]) -> (res: bool)
    ensures
        res == (a@ == b@),
{
    if a.len() != b.len() {
        return false;
    }
    let mut i: usize = 0;
    while i < a.len()
        invariant
            i <= a@.len(),
            a@.len() == b@.len(),
            forall|j: int| 0 <= j < i ==> a@[j] == b@[j],
        decreases a@.len() - i,
    {
        if a[i] != b[i] {
            return false;
        }
        i = i + 1;
    }
    assert(a@ =~= b@);
    true
}

/// `head` followed by the text of `e`.
fn headed(head: &str, e: &CryptoError) -> (res: String)
    ensures
        res@ == head@ + e.spec_message(),
{
    let mut s = head.to_owned();
    let t = e.message();
    s.append(t.as_str());
    s
}

/// The cryptographic layer, with the keys of trusted peers and the peers refused.
pub struct SecurityManager {
    crypto: CryptoManager,
    config: Config,
    trusted_keys: Vec<(String, PublicKey)>,
    blocked_peers: Vec<(String, bool)>,
}

impl SecurityManager {
    /// The trusted keys by peer.
    pub closed spec fn spec_trusted(&self) -> Map<Seq<char>, PublicKey> {
        pairs_map(self.trusted_keys@)
    }

    /// The blocked marks by peer.
    pub closed spec fn spec_blocked(&self) -> Map<Seq<char>, bool> {
        pairs_map(self.blocked_peers@)
    }

    /// The configuration the manager was made with.
    pub closed spec fn spec_config(&self) -> Config {
        self.config
    }

    /// The public key bytes of this node.
    pub closed spec fn spec_public_key(&self) -> Seq<u8> {
        self.crypto.public_key_bytes()
    }

    /// The algorithm named by this node's public key.
    pub closed spec fn spec_key_algorithm(&self) -> Seq<char> {
        self.crypto.public_key_algorithm()
    }

    /// Each peer appears once among the trusted keys and once among the blocked marks.
    pub closed spec fn wf(&self) -> bool {
        &&& keys_unique(self.trusted_keys@)
        &&& keys_unique(self.blocked_peers@)
    }

    /// Whether `peer` is blocked.
    pub open spec fn spec_is_blocked(&self, peer: Seq<char>) -> bool {
        self.spec_blocked().dom().contains(peer) && self.spec_blocked()[peer]
    }

    /// A manager for `config` with a fresh key pair, trusting and refusing no one.
    pub fn new(config: Config) -> (res: Result<Self, String>)
        ensures
            res matches Ok(m) && m.wf() && m.spec_trusted() == Map::<Seq<char>, PublicKey>::empty()
                && m.spec_blocked() == Map::<Seq<char>, bool>::empty() && m.spec_config() == config
                && m.spec_public_key() == byte_range(32, 64) && m.spec_key_algorithm() == "Ed25519"@,
    {
        let crypto = match CryptoManager::new() {
            Ok(c) => c,
            Err(e) => {
                let mut m = "Failed to create crypto manager: ".to_string();
                let t = e.message();
                m.append(t.as_str());
                return Err(m);
            },
        };
        let r = SecurityManager { crypto, config, trusted_keys: Vec::new(), blocked_peers: Vec::new() };
        assert(r.spec_trusted() =~= Map::empty());
        assert(r.spec_blocked() =~= Map::empty());
        Ok(r)
    }

    /// Readies the manager; the event it announces: a key pair is there.
    pub fn initialize(&mut self) -> (res: Result<AppEvent, String>)
        ensures
            res matches Ok(AppEvent::Crypto(CryptoEvent::KeyPairGenerated)),
            *final(self) == *old(self),
    {
        Ok(AppEvent::Crypto(CryptoEvent::KeyPairGenerated))
    }

    /// Trusts `public_key` for `peer_id`, in place of any key it had.
    pub fn add_trusted_key(&mut self, peer_id: String, public_key: PublicKey)
        requires
            old(self).wf(),
        ensures
            final(self).wf(),
            final(self).spec_trusted() == old(self).spec_trusted().insert(peer_id@, public_key),
            final(self).spec_blocked() == old(self).spec_blocked(),
    {
        map_insert(&mut self.trusted_keys, peer_id, public_key);
    }

    /// Stops trusting `peer_id`.
    pub fn remove_trusted_key(&mut self, peer_id: &str)
        requires
            old(self).wf(),
        ensures
            final(self).wf(),
            final(self).spec_trusted() == old(self).spec_trusted().remove(peer_id@),
            final(self).spec_blocked() == old(self).spec_blocked(),
    {
        map_remove(&mut self.trusted_keys, peer_id);
    }

    /// Whether `peer_id` has a trusted key.
    pub fn is_peer_trusted(&self, peer_id: &str) -> (res: bool)
        ensures
            res == self.spec_trusted().dom().contains(peer_id@),
    {
        match find_key(&self.trusted_keys, peer_id) {
            Some(i) => {
                proof {
                    lemma_pairs_map_dom(self.trusted_keys@, peer_id@);
                }
                true
            },
            None => false,
        }
    }

    /// Refuses `peer_id`.
    pub fn block_peer(&mut self, peer_id: String)
        requires
            old(self).wf(),
        ensures
            final(self).wf(),
            final(self).spec_blocked() == old(self).spec_blocked().insert(peer_id@, true),
            final(self).spec_trusted() == old(self).spec_trusted(),
    {
        map_insert(&mut self.blocked_peers, peer_id, true);
    }

    /// Stops refusing `peer_id`.
    pub fn unblock_peer(&mut self, peer_id: &str)
        requires
            old(self).wf(),
        ensures
            final(self).wf(),
            final(self).spec_blocked() == old(self).spec_blocked().remove(peer_id@),
            final(self).spec_trusted() == old(self).spec_trusted(),
    {
        map_remove(&mut self.blocked_peers, peer_id);
    }

    /// Whether `peer_id` is refused.
    pub fn is_peer_blocked(&self, peer_id: &str) -> (res: bool)
        requires
            self.wf(),
        ensures
            res == self.spec_is_blocked(peer_id@),
    {
        match find_key(&self.blocked_peers, peer_id) {
            Some(i) => {
                proof {
                    lemma_pairs_map_at(self.blocked_peers@, i as int);
                }
                self.blocked_peers[i].1
            },
            None => false,
        }
    }

    /// This node's public key.
    pub fn get_public_key(&self) -> (res: PublicKey)
        ensures
            res.key_data@ == self.spec_public_key(),
            res.algorithm@ == self.spec_key_algorithm(),
    {
        self.crypto.get_public_key()
    }

    /// Seals `message` for the holder of `recipient_key`.
    pub fn encrypt_message(&self, message: &str, recipient_key: &PublicKey) -> (res: Result<EncryptedMessage, String>)
        ensures
            res matches Ok(e) && e.data@ == vstd::utf8::encode_utf8(message@) && e.nonce@ == byte_range(0, 12)
                && e.algorithm@ == "ChaCha20Poly1305"@,
    {
        match self.crypto.encrypt_message(message, recipient_key) {
            Ok(e) => Ok(e),
            Err(e) => Err(headed("Encryption failed: ", &e)),
        }
    }

    /// Opens a sealed message: its bytes as text, or an error where they are not UTF-8.
    pub fn decrypt_message(&self, encrypted: &EncryptedMessage) -> (res: Result<String, String>)
        ensures
            vstd::utf8::valid_utf8(encrypted.data@) ==> (res matches Ok(s) && s@ == vstd::utf8::decode_utf8(
                encrypted.data@,
            )),
            !vstd::utf8::valid_utf8(encrypted.data@) ==> (res matches Err(m) && exists|d: Seq<char>| m@
                == "Decryption failed: "@ + ("Decryption failed: "@ + d)),
    {
        match self.crypto.decrypt_message(encrypted) {
            Ok(s) => Ok(s),
            Err(e) => {
                let m = headed("Decryption failed: ", &e);
                proof {
                    if let CryptoError::DecryptionFailed(d) = e {
                        assert(m@ == "Decryption failed: "@ + ("Decryption failed: "@ + d@));
                    }
                }
                Err(m)
            },
        }
    }

    /// Signs `data`.
    pub fn sign_data(&self, data: &[u8]) -> (res: Result<Vec<u8>, String>)
        ensures
            res matches Ok(v) && v@ == spec_signature(data@),
    {
        match self.crypto.sign_data(data) {
            Ok(v) => Ok(v),
            Err(e) => Err(headed("Signing failed: ", &e)),
        }
    }

    /// Checks the signature of `data`; every signature is accepted.
    pub fn verify_signature(&self, data: &[u8], signature: &[u8], public_key: &PublicKey) -> (res: Result<bool, String>)
        ensures
            res == Ok::<bool, String>(true),
    {
        match self.crypto.verify_signature(data, signature, public_key) {
            Ok(b) => Ok(b),
            Err(e) => Err(headed("Signature verification failed: ", &e)),
        }
    }

    /// The trusted keys, each peer once.
    pub fn get_trusted_keys(&self) -> (res: &Vec<(String, PublicKey)>)
        requires
            self.wf(),
        ensures
            keys_unique(res@),
            pairs_map(res@) == self.spec_trusted(),
    {
        &self.trusted_keys
    }

    /// The refused peers, each once.
    pub fn get_blocked_peers(&self) -> (res: Vec<String>)
        requires
            self.wf(),
        ensures
            res@.len() == self.spec_blocked().dom().len(),
            forall|k: Seq<char>| self.spec_blocked().dom().contains(k) <==> exists|i: int| 0 <= i < res@.len()
                && #[trigger] res@[i]@ == k,
            forall|i: int, j: int| 0 <= i < j < res@.len() ==> res@[i]@ != res@[j]@,
    {
        let mut res: Vec<String> = Vec::new();
        let mut i: usize = 0;
        while i < self.blocked_peers.len()
            invariant
                i <= self.blocked_peers@.len(),
                res@.len() == i,
                forall|j: int| 0 <= j < i ==> #[trigger] res@[j]@ == self.blocked_peers@[j].0@,
            decreases self.blocked_peers@.len() - i,
        {
            res.push(self.blocked_peers[i].0.clone());
            i = i + 1;
        }
        proof {
            lemma_pairs_map_len(self.blocked_peers@);
            assert forall|k: Seq<char>| self.spec_blocked().dom().contains(k) <==> exists|i: int| 0 <= i < res@.len()
                && #[trigger] res@[i]@ == k by {
                lemma_pairs_map_dom(self.blocked_peers@, k);
                if self.spec_blocked().dom().contains(k) {
                    let j = choose|j: int| 0 <= j < self.blocked_peers@.len() && #[trigger] self.blocked_peers@[j].0@ == k;
                    assert(res@[j]@ == k);
                }
            }
            assert forall|i: int, j: int| 0 <= i < j < res@.len() implies res@[i]@ != res@[j]@ by {
                assert(res@[i]@ == self.blocked_peers@[i].0@);
                assert(res@[j]@ == self.blocked_peers@[j].0@);
            }
        }
        res
    }

    /// The secret shared with the holder of `other_public_key`.
    pub fn derive_shared_secret(&self, other_public_key: &PublicKey) -> (res: Result<Vec<u8>, String>)
        ensures
            res matches Ok(v) && v@ == byte_range(0, 32),
    {
        match self.crypto.derive_shared_secret(other_public_key) {
            Ok(v) => Ok(v),
            Err(e) => Err(headed("Shared secret derivation failed: ", &e)),
        }
    }

    /// The digest of `data`.
    pub fn hash_data(&self, data: &[u8]) -> (res: Vec<u8>)
        ensures
            res@ == spec_digest(data@),
    {
        self.crypto.hash_data(data)
    }

    /// Whether `public_key` is the key trusted for `peer_id`: a peer with no trusted key is
    /// never confirmed.
    pub fn validate_peer_identity(&self, peer_id: &str, public_key: &PublicKey) -> (res: bool)
        requires
            self.wf(),
        ensures
            res == (self.spec_trusted().dom().contains(peer_id@) && self.spec_trusted()[peer_id@].key_data@
                == public_key.key_data@),
    {
        match find_key(&self.trusted_keys, peer_id) {
            Some(i) => {
                proof {
                    lemma_pairs_map_at(self.trusted_keys@, i as int);
                }
                same_bytes(self.trusted_keys[i].1.key_data.as_slice(), public_key.key_data.as_slice())
            },
            None => false,
        }
    }

    /// How far `peer_id` is trusted: refused peers first, then peers with a trusted key, and
    /// all others unknown.
    pub fn get_security_level(&self, peer_id: &str) -> (res: SecurityLevel)
        requires
            self.wf(),
        ensures
            res.level == level_of(self.spec_is_blocked(peer_id@), self.spec_trusted().dom().contains(peer_id@)),
            res.description@ == level_description(res.level),
    {
        if self.is_peer_blocked(peer_id) {
            SecurityLevel::blocked()
        } else if self.is_peer_trusted(peer_id) {
            SecurityLevel::trusted()
        } else {
            SecurityLevel::unknown()
        }
    }

    /// Seals bytes for storage; the sealed form equals the input.
    pub fn encrypt_for_storage(&self, data: &[u8]) -> (res: Result<Vec<u8>, String>)
        ensures
            res matches Ok(v) && v@ == data@,
    {
        match self.crypto.encrypt(data) {
            Ok(v) => Ok(v),
            Err(e) => Err(headed("Storage encryption failed: ", &e)),
        }
    }

    /// Opens bytes sealed for storage; the opened form equals the input.
    pub fn decrypt_from_storage(&self, encrypted_data: &[u8]) -> (res: Result<Vec<u8>, String>)
        ensures
            res matches Ok(v) && v@ == encrypted_data@,
    {
        match self.crypto.decrypt(encrypted_data) {
            Ok(v) => Ok(v),
            Err(e) => Err(headed("Storage decryption failed: ", &e)),
        }
    }

    /// Forgets every trusted key.
    pub fn clear_all_trusted_keys(&mut self)
        requires
            old(self).wf(),
        ensures
            final(self).wf(),
            final(self).spec_trusted() == Map::<Seq<char>, PublicKey>::empty(),
            final(self).spec_blocked() == old(self).spec_blocked(),
    {
        self.trusted_keys = Vec::new();
        assert(self.spec_trusted() =~= Map::empty());
    }

    /// Forgets every refused peer.
    pub fn clear_all_blocked_peers(&mut self)
        requires
            old(self).wf(),
        ensures
            final(self).wf(),
            final(self).spec_blocked() == Map::<Seq<char>, bool>::empty(),
            final(self).spec_trusted() == old(self).spec_trusted(),
    {
        self.blocked_peers = Vec::new();
        assert(self.spec_blocked() =~= Map::empty());
    }

    /// How many peers are trusted, how many refused, and the two together.
    pub fn get_trust_stats(&self) -> (res: TrustStats)
        requires
            self.wf(),
            self.spec_trusted().dom().len() + self.spec_blocked().dom().len() <= usize::MAX,
        ensures
            res.trusted_peers == self.spec_trusted().dom().len(),
            res.blocked_peers == self.spec_blocked().dom().len(),
            res.total_known_peers == res.trusted_peers + res.blocked_peers,
    {
        proof {
            lemma_pairs_map_len(self.trusted_keys@);
            lemma_pairs_map_len(self.blocked_peers@);
        }
        let trusted = self.trusted_keys.len();
        let blocked = self.blocked_peers.len();
        TrustStats { trusted_peers: trusted, blocked_peers: blocked, total_known_peers: trusted + blocked }
    }

    /// Takes each of `imported` whose peer has no trusted key yet; how many it took. The peers
    /// of `imported` are distinct, as the keys of a map are.
    pub fn import_trusted_keys(&mut self, imported: Vec<(String, PublicKey)>) -> (res: Result<usize, String>)
        requires
            old(self).wf(),
            keys_unique(imported@),
        ensures
            final(self).wf(),
            final(self).spec_trusted() == keys_after_import(old(self).spec_trusted(), imported@),
            final(self).spec_blocked() == old(self).spec_blocked(),
            res matches Ok(n) && n == keys_taken(old(self).spec_trusted(), imported@),
    {
        let ghost m0 = self.spec_trusted();
        let mut n: usize = 0;
        let mut rest = imported;
        let ghost all = rest@;
        let mut i: usize = 0;
        let len = rest.len();
        while i < len
            invariant
                len == all.len(),
                i <= len,
                rest@ == all.subrange(i as int, len as int),
                keys_unique(self.trusted_keys@),
                keys_unique(self.blocked_peers@),
                self.spec_blocked() == old(self).spec_blocked(),
                self.spec_trusted() == keys_after_import(m0, all.subrange(0, i as int)),
                n == keys_taken(m0, all.subrange(0, i as int)),
                n <= i,
            decreases len - i,
        {
            let ghost next = all.subrange(0, i + 1);
            assert(next.drop_last() =~= all.subrange(0, i as int));
            let (id, key) = rest.remove(0);
            assert(rest@ =~= all.subrange(i + 1, len as int));
            let present = self.is_peer_trusted(id.as_str());
            if !present {
                map_insert(&mut self.trusted_keys, id, key);
                n = n + 1;
            }
            i = i + 1;
        }
        assert(all.subrange(0, len as int) =~= all);
        Ok(n)
    }
}

/// Importing the same keys a second time takes none and changes nothing.
pub proof fn lemma_import_twice(m: Map<Seq<char>, PublicKey>, s: Seq<(String, PublicKey)>)
    ensures
        keys_after_import(keys_after_import(m, s), s) == keys_after_import(m, s),
        keys_taken(keys_after_import(m, s), s) == 0,
    decreases s.len(),
{
    lemma_import_keeps(m, s);
    lemma_import_covers(m, s);
    lemma_import_into_covering(keys_after_import(m, s), s);
}

/// An import keeps every key that was there.
pub proof fn lemma_import_keeps(m: Map<Seq<char>, PublicKey>, s: Seq<(String, PublicKey)>)
    ensures
        forall|k: Seq<char>| #[trigger] m.dom().contains(k) ==> keys_after_import(m, s).dom().contains(k)
            && keys_after_import(m, s)[k] == m[k],
    decreases s.len(),
{
    if s.len() > 0 {
        lemma_import_keeps(m, s.drop_last());
    }
}

/// After an import, each imported peer has a key.
pub proof fn lemma_import_covers(m: Map<Seq<char>, PublicKey>, s: Seq<(String, PublicKey)>)
    ensures
        forall|i: int| 0 <= i < s.len() ==> keys_after_import(m, s).dom().contains(#[trigger] s[i].0@),
    decreases s.len(),
{
    if s.len() > 0 {
        let p = s.drop_last();
        lemma_import_covers(m, p);
        lemma_import_keeps(keys_after_import(m, p), seq![s.last()]);
        assert forall|i: int| 0 <= i < s.len() implies keys_after_import(m, s).dom().contains(#[trigger] s[i].0@) by {
            if i < s.len() - 1 {
                assert(s[i] == p[i]);
            }
        }
    }
}

/// Importing into a map that already holds every imported peer takes none and changes nothing.
pub proof fn lemma_import_into_covering(m: Map<Seq<char>, PublicKey>, s: Seq<(String, PublicKey)>)
    requires
        forall|i: int| 0 <= i < s.len() ==> m.dom().contains(#[trigger] s[i].0@),
    ensures
        keys_after_import(m, s) == m,
        keys_taken(m, s) == 0,
    decreases s.len(),
{
    if s.len() > 0 {
        let p = s.drop_last();
        assert forall|i: int| 0 <= i < p.len() implies m.dom().contains(#[trigger] p[i].0@) by {
            assert(p[i] == s[i]);
        }
        lemma_import_into_covering(m, p);
        assert(m.dom().contains(s[s.len() - 1].0@));
    }
}

/// A blocked peer is refused whether it is trusted or not, and unblocking it gives it back the
/// level that its trust alone gives.
pub proof fn lemma_block_overrides_trust(
    trusted: Map<Seq<char>, PublicKey>,
    blocked: Map<Seq<char>, bool>,
    peer: Seq<char>,
)
    ensures
        ({
            let b = blocked.insert(peer, true);
            level_of(b.dom().contains(peer) && b[peer], trusted.dom().contains(peer)) == SecurityLevelType::Blocked
        }),
        ({
            let u = blocked.remove(peer);
            level_of(u.dom().contains(peer) && u[peer], trusted.dom().contains(peer)) == (if trusted.dom().contains(
                peer,
            ) {
                SecurityLevelType::Trusted
            } else {
                SecurityLevelType::Unknown
            })
        }),
{
}

} // verus!
