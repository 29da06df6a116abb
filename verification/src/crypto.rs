//! Key handling, message sealing and signing.
use vstd::prelude::*;
use vstd::slice::slice_to_vec;

verus! {

/// Makes `std::string::FromUtf8Error`, the error of reading bytes as UTF-8 text, known to the verifier; its
/// contents stay hidden.
#[verifier::external_type_specification]
#[verifier::external_body]
pub struct ExFromUtf8Error(std::string::FromUtf8Error);

/// Calls `String::from_utf8`, which takes the bytes as text exactly when they are valid UTF-8,
/// and then holds the characters they encode.
#[verifier::external_body]
pub(crate) fn string_from_utf8(bytes: Vec<u8>) -> (res: Result<String, std::string::FromUtf8Error>)
    ensures
        res is Ok <==> vstd::utf8::valid_utf8(bytes@),
        res matches Ok(s) ==> s@ == vstd::utf8::decode_utf8(bytes@),
{
    String::from_utf8(bytes)
}

/// Calls `to_string` on a UTF-8 error; the text describes where decoding failed and is not stated.
#[verifier::external_body]
fn utf8_error_text(e: &std::string::FromUtf8Error) -> String {
    e.to_string()
}

/// Errors of the cryptographic layer.
#[derive(Debug)]
pub enum CryptoError {
    EncryptionFailed(String),
    DecryptionFailed(String),
    KeyGenerationFailed(String),
    InvalidKey(String),
    SigningFailed(String),
    VerificationFailed(String),
}

impl CryptoError {
    /// The text of the error: its kind, then its detail.
    pub open spec fn spec_message(&self) -> Seq<char> {
        match self {
            CryptoError::EncryptionFailed(m) => "Encryption failed: "@ + m@,
            CryptoError::DecryptionFailed(m) => "Decryption failed: "@ + m@,
            CryptoError::KeyGenerationFailed(m) => "Key generation failed: "@ + m@,
            CryptoError::InvalidKey(m) => "Invalid key: "@ + m@,
            CryptoError::SigningFailed(m) => "Signing failed: "@ + m@,
            CryptoError::VerificationFailed(m) => "Verification failed: "@ + m@,
        }
    }

    /// The text of the error: its kind, then its detail.
    pub fn message(&self) -> (res: String)
        ensures
            res@ == self.spec_message(),
    {
        let (mut s, m) = match self {
            CryptoError::EncryptionFailed(m) => ("Encryption failed: ".to_string(), m),
            CryptoError::DecryptionFailed(m) => ("Decryption failed: ".to_string(), m),
            CryptoError::KeyGenerationFailed(m) => ("Key generation failed: ".to_string(), m),
            CryptoError::InvalidKey(m) => ("Invalid key: ".to_string(), m),
            CryptoError::SigningFailed(m) => ("Signing failed: ".to_string(), m),
            CryptoError::VerificationFailed(m) => ("Verification failed: ".to_string(), m),
        };
        s.append(m.as_str());
        s
    }
}

/// A public key and the name of its algorithm.
#[derive(Debug)]
pub struct PublicKey {
    pub key_data: Vec<u8>,
    pub algorithm: String,
}

/// A private key and the name of its algorithm.
#[derive(Debug)]
pub struct PrivateKey {
    pub key_data: Vec<u8>,
    pub algorithm: String,
}

/// A sealed message, its nonce and the name of the cipher.
#[derive(Debug)]
pub struct EncryptedMessage {
    pub data: Vec<u8>,
    pub nonce: Vec<u8>,
    pub algorithm: String,
}

/// A matching pair of keys.
#[derive(Debug)]
pub struct KeyPair {
    pub public_key: PublicKey,
    pub private_key: PrivateKey,
}

/// The bytes `from, from + 1, ..., to - 1`.
pub open spec fn byte_range(from: nat, to: nat) -> Seq<u8> {
    Seq::new((to - from) as nat, |i: int| (from + i) as u8)
}

/// What signing does to each byte: it adds one, wrapping at 256.
pub open spec fn spec_signature(data: Seq<u8>) -> Seq<u8> {
    Seq::new(data.len(), |i: int| ((data[i] + 1) % 256) as u8)
}

/// The 32-byte digest of `data`: byte `i` of the data is folded, by exclusive or, into digest
/// byte `i % 32`.
pub open spec fn spec_digest(data: Seq<u8>) -> Seq<u8>
    decreases data.len(),
{
    if data.len() == 0 {
        Seq::new(32, |i: int| 0u8)
    } else {
        let prev = spec_digest(data.drop_last());
        let lane = (data.len() - 1) % 32;
        prev.update(lane, prev[lane] ^ data.last())
    }
}

/// Copies a byte vector.
pub fn copy_bytes(v: &Vec<u8>) -> (res: Vec<u8>)
    ensures
        res@ == v@,
{
    slice_to_vec(v.as_slice())
}

/// The bytes `from..to`.
fn byte_range_vec(from: u8, to: u8) -> (res: Vec<u8>)
    requires
        from <= to,
    ensures
        res@ == byte_range(from as nat, to as nat),
{
    let mut v: Vec<u8> = Vec::new();
    let mut b: u8 = from;
    while b < to
        invariant
            from <= b <= to,
            v@ == byte_range(from as nat, b as nat),
        decreases to - b,
    {
        v.push(b);
        b = b + 1;
        assert(v@ =~= byte_range(from as nat, b as nat));
    }
    v
}

impl PublicKey {
    /// An Ed25519 public key with the given bytes.
    pub fn new(key_data: Vec<u8>) -> (res: Self)
        ensures
            res.key_data == key_data,
            res.algorithm@ == "Ed25519"@,
    {
        PublicKey { key_data, algorithm: "Ed25519".to_string() }
    }

    /// A copy of this key.
    pub fn duplicate(&self) -> (res: Self)
        ensures
            res.key_data@ == self.key_data@,
            res.algorithm@ == self.algorithm@,
    {
        PublicKey { key_data: copy_bytes(&self.key_data), algorithm: self.algorithm.clone() }
    }
}

impl PrivateKey {
    /// An Ed25519 private key with the given bytes.
    pub fn new(key_data: Vec<u8>) -> (res: Self)
        ensures
            res.key_data == key_data,
            res.algorithm@ == "Ed25519"@,
    {
        PrivateKey { key_data, algorithm: "Ed25519".to_string() }
    }
}

impl EncryptedMessage {
    /// A message sealed with ChaCha20-Poly1305.
    pub fn new(data: Vec<u8>, nonce: Vec<u8>) -> (res: Self)
        ensures
            res.data == data,
            res.nonce == nonce,
            res.algorithm@ == "ChaCha20Poly1305"@,
    {
        EncryptedMessage { data, nonce, algorithm: "ChaCha20Poly1305".to_string() }
    }
}

/// Holds this peer's key pair and performs its cryptographic operations.
pub struct CryptoManager {
    keypair: Option<KeyPair>,
}

impl CryptoManager {
    /// Whether a key pair is present.
    pub closed spec fn has_keypair(&self) -> bool {
        self.keypair is Some
    }

    /// The public key bytes, empty when there is no key pair.
    pub closed spec fn public_key_bytes(&self) -> Seq<u8> {
        match self.keypair {
            Some(kp) => kp.public_key.key_data@,
            None => Seq::empty(),
        }
    }

    /// The private key bytes, empty when there is no key pair.
    pub closed spec fn private_key_bytes(&self) -> Seq<u8> {
        match self.keypair {
            Some(kp) => kp.private_key.key_data@,
            None => Seq::empty(),
        }
    }

    /// The algorithm named by the public key; Ed25519 when there is no key pair.
    pub closed spec fn public_key_algorithm(&self) -> Seq<char> {
        match self.keypair {
            Some(kp) => kp.public_key.algorithm@,
            None => "Ed25519"@,
        }
    }

    /// A manager holding a freshly generated key pair.
    pub fn new() -> (res: Result<Self, CryptoError>)
        ensures
            res matches Ok(m) && m.has_keypair() && m.private_key_bytes() == byte_range(0, 32)
                && m.public_key_bytes() == byte_range(32, 64) && m.public_key_algorithm()
                == "Ed25519"@,
    {
        let mut manager = CryptoManager { keypair: None };
        match manager.generate_keypair() {
            Ok(()) => Ok(manager),
            Err(e) => Err(e),
        }
    }

    /// A manager without a key pair.
    pub fn empty() -> (res: Self)
        ensures
            !res.has_keypair(),
    {
        CryptoManager { keypair: None }
    }

    /// Replaces the key pair with the fixed demonstration pair: private bytes `0..32`, public
    /// bytes `32..64`.
    pub fn generate_keypair(&mut self) -> (res: Result<(), CryptoError>)
        ensures
            res is Ok,
            final(self).has_keypair(),
            final(self).private_key_bytes() == byte_range(0, 32),
            final(self).public_key_bytes() == byte_range(32, 64),
            final(self).public_key_algorithm() == "Ed25519"@,
    {
        let private_key_data = byte_range_vec(0, 32);
        let public_key_data = byte_range_vec(32, 64);
        let keypair = KeyPair {
            private_key: PrivateKey::new(private_key_data),
            public_key: PublicKey::new(public_key_data),
        };
        self.keypair = Some(keypair);
        Ok(())
    }

    /// Whether a key pair is present.
    pub fn has_key_pair(&self) -> (res: bool)
        ensures
            res == self.has_keypair(),
    {
        self.keypair.is_some()
    }

    /// A copy of the public key, or an empty Ed25519 key when there is no key pair.
    pub fn get_public_key(&self) -> (res: PublicKey)
        ensures
            res.key_data@ == self.public_key_bytes(),
            res.algorithm@ == self.public_key_algorithm(),
    {
        match &self.keypair {
            Some(kp) => kp.public_key.duplicate(),
            None => PublicKey::new(Vec::new()),
        }
    }

    /// Seals `message` for the recipient: the UTF-8 bytes of the text with the nonce `0..12`.
    pub fn encrypt_message(&self, message: &str, _recipient_key: &PublicKey) -> (res: Result<
        EncryptedMessage,
        CryptoError,
    >)
        ensures
            res matches Ok(e) && e.data@ == vstd::utf8::encode_utf8(message@) && e.nonce@
                == byte_range(0, 12) && e.algorithm@ == "ChaCha20Poly1305"@,
    {
        let data = slice_to_vec(message.as_bytes());
        let nonce = byte_range_vec(0, 12);
        Ok(EncryptedMessage::new(data, nonce))
    }

    /// Opens a sealed message: its bytes read as UTF-8 text, or `DecryptionFailed` when they are
    /// not valid UTF-8.
    pub fn decrypt_message(&self, encrypted: &EncryptedMessage) -> (res: Result<String, CryptoError>)
        ensures
            vstd::utf8::valid_utf8(encrypted.data@) ==> (res matches Ok(s) && s@
                == vstd::utf8::decode_utf8(encrypted.data@)),
            !vstd::utf8::valid_utf8(encrypted.data@) ==> res matches Err(
                CryptoError::DecryptionFailed(_),
            ),
    {
        match string_from_utf8(copy_bytes(&encrypted.data)) {
            Ok(s) => Ok(s),
            Err(e) => Err(CryptoError::DecryptionFailed(utf8_error_text(&e))),
        }
    }

    /// Seals bytes for storage; the sealed form equals the input.
    pub fn encrypt(&self, data: &[u8]) -> (res: Result<Vec<u8>, CryptoError>)
        ensures
            res matches Ok(v) && v@ == data@,
    {
        Ok(slice_to_vec(data))
    }

    /// Opens bytes sealed for storage; the opened form equals the input.
    pub fn decrypt(&self, encrypted_data: &[u8]) -> (res: Result<Vec<u8>, CryptoError>)
        ensures
            res matches Ok(v) && v@ == encrypted_data@,
    {
        Ok(slice_to_vec(encrypted_data))
    }

    /// Signs `data`: every byte plus one, wrapping.
    pub fn sign_data(&self, data: &[u8]) -> (res: Result<Vec<u8>, CryptoError>)
        ensures
            res matches Ok(v) && v@ == spec_signature(data@),
    {
        let mut signature: Vec<u8> = Vec::new();
        let mut i: usize = 0;
        while i < data.len()
            invariant
                i <= data@.len(),
                signature@ == spec_signature(data@).subrange(0, i as int),
            decreases data@.len() - i,
        {
            signature.push(data[i].wrapping_add(1));
            i = i + 1;
            assert(signature@ =~= spec_signature(data@).subrange(0, i as int));
        }
        assert(spec_signature(data@).subrange(0, data@.len() as int) =~= spec_signature(data@));
        Ok(signature)
    }

    /// Checks a signature; every signature is accepted.
    pub fn verify_signature(&self, _data: &[u8], _signature: &[u8], _public_key: &PublicKey) -> (res:
        Result<bool, CryptoError>)
        ensures
            res == Ok::<bool, CryptoError>(true),
    {
        Ok(true)
    }

    /// The secret shared with the holder of `_other_key`: the bytes `0..32`.
    pub fn derive_shared_secret(&self, _other_key: &PublicKey) -> (res: Result<Vec<u8>, CryptoError>)
        ensures
            res matches Ok(v) && v@ == byte_range(0, 32),
    {
        Ok(byte_range_vec(0, 32))
    }

    /// The 32-byte digest of `data`.
    pub fn hash_data(&self, data: &[u8]) -> (res: Vec<u8>)
        ensures
            res@ == spec_digest(data@),
    {
        let mut hash: Vec<u8> = vec![0u8; 32];
        assert(hash@ =~= spec_digest(data@.subrange(0, 0)));
        let mut i: usize = 0;
        while i < data.len()
            invariant
                i <= data@.len(),
                hash@ == spec_digest(data@.subrange(0, i as int)),
                hash@.len() == 32,
            decreases data@.len() - i,
        {
            let lane = i % 32;
            let b = hash[lane] ^ data[i];
            hash.set(lane, b);
            proof {
                let next = data@.subrange(0, i + 1);
                assert(next.drop_last() =~= data@.subrange(0, i as int));
            }
            i = i + 1;
        }
        assert(data@.subrange(0, data@.len() as int) =~= data@);
        hash
    }
}

/// Opening a sealed text gives back the text, for every text.
pub proof fn lemma_decrypt_after_encrypt(message: Seq<char>)
    ensures
        vstd::utf8::valid_utf8(vstd::utf8::encode_utf8(message)),
        vstd::utf8::decode_utf8(vstd::utf8::encode_utf8(message)) == message,
{
    vstd::utf8::encode_utf8_valid_utf8(message);
    vstd::utf8::encode_utf8_decode_utf8(message);
}

/// How far a peer is trusted.
#[derive(Debug, Clone, Copy, PartialEq, Eq, Structural)]
pub enum SecurityLevelType {
    Trusted,
    Unknown,
    Blocked,
}

/// A peer's trust level with an explanation.
#[derive(Debug)]
pub struct SecurityLevel {
    pub level: SecurityLevelType,
    pub description: String,
}

impl SecurityLevel {
    /// The level of a trusted, verified peer.
    pub fn trusted() -> (res: Self)
        ensures
            res.level == SecurityLevelType::Trusted,
            res.description@ == "This peer is trusted and verified"@,
    {
        SecurityLevel {
            level: SecurityLevelType::Trusted,
            description: "This peer is trusted and verified".to_string(),
        }
    }

    /// The level of a peer whose identity is not verified.
    pub fn unknown() -> (res: Self)
        ensures
            res.level == SecurityLevelType::Unknown,
            res.description@ == "This peer's identity has not been verified"@,
    {
        SecurityLevel {
            level: SecurityLevelType::Unknown,
            description: "This peer's identity has not been verified".to_string(),
        }
    }

    /// The level of a blocked peer.
    pub fn blocked() -> (res: Self)
        ensures
            res.level == SecurityLevelType::Blocked,
            res.description@ == "This peer has been blocked and will be rejected"@,
    {
        SecurityLevel {
            level: SecurityLevelType::Blocked,
            description: "This peer has been blocked and will be rejected".to_string(),
        }
    }
}

/// Counts of known peers by trust.
#[derive(Debug, Clone, Copy)]
pub struct TrustStats {
    pub trusted_peers: usize,
    pub blocked_peers: usize,
    pub total_known_peers: usize,
}

/// Counters of cryptographic operations.
#[derive(Debug, Clone, Copy)]
pub struct CryptoStats {
    pub messages_encrypted: u64,
    pub messages_decrypted: u64,
    pub signatures_created: u64,
    pub signatures_verified: u64,
    pub key_exchanges: u64,
    pub encryption_errors: u32,
    pub decryption_errors: u32,
}

impl Default for CryptoStats {
    fn default() -> (res: Self)
        ensures
            res.messages_encrypted == 0 && res.messages_decrypted == 0 && res.signatures_created
                == 0 && res.signatures_verified == 0 && res.key_exchanges == 0
                && res.encryption_errors == 0 && res.decryption_errors == 0,
    {
        CryptoStats {
            messages_encrypted: 0,
            messages_decrypted: 0,
            signatures_created: 0,
            signatures_verified: 0,
            key_exchanges: 0,
            encryption_errors: 0,
            decryption_errors: 0,
        }
    }
}

/// The algorithms the cryptographic layer uses.
#[derive(Debug)]
pub struct EncryptionSettings {
    pub default_algorithm: String,
    pub key_size: u32,
    pub signature_algorithm: String,
    pub hash_algorithm: String,
}

impl Default for EncryptionSettings {
    fn default() -> (res: Self)
        ensures
            res.default_algorithm@ == "ChaCha20Poly1305"@,
            res.key_size == 256,
            res.signature_algorithm@ == "Ed25519"@,
            res.hash_algorithm@ == "SHA256"@,
    {
        EncryptionSettings {
            default_algorithm: "ChaCha20Poly1305".to_string(),
            key_size: 256,
            signature_algorithm: "Ed25519".to_string(),
            hash_algorithm: "SHA256".to_string(),
        }
    }
}

} // verus!
