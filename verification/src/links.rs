//! Connection links: `sg://` followed by the Base64 form of a peer's record as JSON text.
use vstd::prelude::*;
use base64::Engine;
use crate::contacts::ContactError;
use crate::contact_manager::spec_contact_from_peer;
use crate::network::{Contact, PeerData};
use crate::node::Peer;

verus! {

/// Makes `base64::DecodeError`, the error of reading Base64 text, known to the verifier; its
/// contents stay hidden.
#[verifier::external_type_specification]
#[verifier::external_body]
pub struct ExDecodeError(base64::DecodeError);

/// The character of the standard Base64 alphabet for the six bits `n`.
pub open spec fn base64_char(n: int) -> char {
    if n < 26 {
        (65 + n) as char
    } else if n < 52 {
        (97 + n - 26) as char
    } else if n < 62 {
        (48 + n - 52) as char
    } else if n == 62 {
        '+'
    } else {
        '/'
    }
}

/// The text that the standard Base64 alphabet, with padding, makes of `bytes`: four
/// characters for each group of three bytes, and a last group of one or two bytes padded
/// with `=`.
pub open spec fn base64_encoding(bytes: Seq<u8>) -> Seq<char>
    decreases bytes.len(),
{
    if bytes.len() == 0 {
        Seq::empty()
    } else if bytes.len() == 1 {
        let a = bytes[0] as int;
        seq![base64_char(a / 4), base64_char((a % 4) * 16), '=', '=']
    } else if bytes.len() == 2 {
        let (a, b) = (bytes[0] as int, bytes[1] as int);
        seq![base64_char(a / 4), base64_char((a % 4) * 16 + b / 16), base64_char((b % 16) * 4), '=']
    } else {
        let (a, b, c) = (bytes[0] as int, bytes[1] as int, bytes[2] as int);
        seq![
            base64_char(a / 4),
            base64_char((a % 4) * 16 + b / 16),
            base64_char((b % 16) * 4 + c / 64),
            base64_char(c % 64),
        ] + base64_encoding(bytes.subrange(3, bytes.len() as int))
    }
}

/// The bytes that standard Base64 with padding reads from `text`: those whose encoding it
/// is; none where the text is not such an encoding.
pub open spec fn base64_decoding(text: Seq<char>) -> Option<Seq<u8>> {
    if exists|b: Seq<u8>| base64_encoding(b) == text {
        Some(choose|b: Seq<u8>| base64_encoding(b) == text)
    } else {
        None
    }
}

/// The position of a character of the standard Base64 alphabet.
pub open spec fn base64_index(c: char) -> int {
    let n = c as int;
    if 65 <= n < 91 {
        n - 65
    } else if 97 <= n < 123 {
        n - 97 + 26
    } else if 48 <= n < 58 {
        n - 48 + 52
    } else if c == '+' {
        62
    } else if c == '/' {
        63
    } else {
        64
    }
}

/// Each of the sixty-four characters stands for its own six bits, and none is the padding.
proof fn lemma_base64_char(n: int)
    requires
        0 <= n < 64,
    ensures
        base64_index(base64_char(n)) == n,
        base64_char(n) != '=',
{
}

/// Encodings are empty exactly for no bytes, at least four characters long otherwise, and
/// always a multiple of four characters long.
pub proof fn lemma_base64_len(b: Seq<u8>)
    ensures
        b.len() == 0 <==> base64_encoding(b).len() == 0,
        b.len() > 0 ==> base64_encoding(b).len() >= 4,
        base64_encoding(b).len() % 4 == 0,
    decreases b.len(),
{
    if b.len() >= 3 {
        lemma_base64_len(b.subrange(3, b.len() as int));
    }
}

/// Two byte strings with the same encoding are the same.
pub proof fn lemma_base64_injective(a: Seq<u8>, b: Seq<u8>)
    requires
        base64_encoding(a) == base64_encoding(b),
    ensures
        a == b,
    decreases a.len(),
{
    let e = base64_encoding(a);
    lemma_base64_len(a);
    lemma_base64_len(b);
    if a.len() == 0 {
        assert(b.len() == 0);
        assert(a =~= b);
        return;
    }
    let (a0, b0) = (a[0] as int, b[0] as int);
    lemma_base64_char(a0 / 4);
    lemma_base64_char(b0 / 4);
    assert(a0 / 4 == b0 / 4) by {
        assert(base64_index(e[0]) == a0 / 4);
        assert(base64_index(e[0]) == b0 / 4);
    }
    if a.len() >= 3 {
        let (a1, a2) = (a[1] as int, a[2] as int);
        lemma_base64_char((a0 % 4) * 16 + a1 / 16);
        lemma_base64_char((a1 % 16) * 4 + a2 / 64);
        lemma_base64_char(a2 % 64);
    } else if a.len() == 2 {
        let a1 = a[1] as int;
        lemma_base64_char((a0 % 4) * 16 + a1 / 16);
        lemma_base64_char((a1 % 16) * 4);
    } else {
        lemma_base64_char((a0 % 4) * 16);
    }
    if b.len() >= 3 {
        let (b1, b2) = (b[1] as int, b[2] as int);
        lemma_base64_char((b0 % 4) * 16 + b1 / 16);
        lemma_base64_char((b1 % 16) * 4 + b2 / 64);
        lemma_base64_char(b2 % 64);
    } else if b.len() == 2 {
        let b1 = b[1] as int;
        lemma_base64_char((b0 % 4) * 16 + b1 / 16);
        lemma_base64_char((b1 % 16) * 4);
    } else {
        lemma_base64_char((b0 % 4) * 16);
    }
    if a.len() >= 3 {
        assert(b.len() >= 3);
        let (a1, a2, b1, b2) = (a[1] as int, a[2] as int, b[1] as int, b[2] as int);
        assert(base64_encoding(a)[1] == base64_char((a0 % 4) * 16 + a1 / 16));
        assert(base64_encoding(b)[1] == base64_char((b0 % 4) * 16 + b1 / 16));
        assert(base64_encoding(a)[2] == base64_char((a1 % 16) * 4 + a2 / 64));
        assert(base64_encoding(b)[2] == base64_char((b1 % 16) * 4 + b2 / 64));
        assert(base64_encoding(a)[3] == base64_char(a2 % 64));
        assert(base64_encoding(b)[3] == base64_char(b2 % 64));
        assert((a0 % 4) * 16 + a1 / 16 == (b0 % 4) * 16 + b1 / 16);
        assert((a1 % 16) * 4 + a2 / 64 == (b1 % 16) * 4 + b2 / 64);
        assert(a2 % 64 == b2 % 64);
        assert(a0 == b0 && a1 == b1 && a2 == b2);
        let ra = a.subrange(3, a.len() as int);
        let rb = b.subrange(3, b.len() as int);
        assert(base64_encoding(ra) =~= e.subrange(4, e.len() as int));
        assert(base64_encoding(rb) =~= e.subrange(4, e.len() as int));
        lemma_base64_injective(ra, rb);
        assert(a.len() == b.len());
        assert forall|i: int| 0 <= i < a.len() implies a[i] == b[i] by {
            if i >= 3 {
                assert(ra[i - 3] == a[i]);
                assert(rb[i - 3] == b[i]);
            }
        }
        assert(a =~= b);
    } else if a.len() == 2 {
        assert(b.len() == 2);
        let (a1, b1) = (a[1] as int, b[1] as int);
        assert(base64_encoding(a)[1] == base64_char((a0 % 4) * 16 + a1 / 16));
        assert(base64_encoding(b)[1] == base64_char((b0 % 4) * 16 + b1 / 16));
        assert(base64_encoding(a)[2] == base64_char((a1 % 16) * 4));
        assert(base64_encoding(b)[2] == base64_char((b1 % 16) * 4));
        assert((a0 % 4) * 16 + a1 / 16 == (b0 % 4) * 16 + b1 / 16);
        assert((a1 % 16) * 4 == (b1 % 16) * 4);
        assert(a0 == b0 && a1 == b1);
        assert(a =~= b);
    } else {
        assert(b.len() == 1);
        assert(base64_encoding(a)[1] == base64_char((a0 % 4) * 16));
        assert(base64_encoding(b)[1] == base64_char((b0 % 4) * 16));
        assert((a0 % 4) * 16 == (b0 % 4) * 16);
        assert(a0 == b0);
        assert(a =~= b);
    }
}

/// A text whose length is not a multiple of four is no encoding, and decodes to nothing.
pub proof fn lemma_base64_length_refused(t: Seq<char>)
    requires
        t.len() % 4 != 0,
    ensures
        base64_decoding(t) is None,
{
    if exists|b: Seq<u8>| base64_encoding(b) == t {
        let b = choose|b: Seq<u8>| base64_encoding(b) == t;
        lemma_base64_len(b);
    }
}

/// Decoding an encoding gives the bytes back.
pub proof fn lemma_base64_round_trip(b: Seq<u8>)
    ensures
        base64_decoding(base64_encoding(b)) == Some(b),
{
    let t = base64_encoding(b);
    assert(exists|x: Seq<u8>| base64_encoding(x) == t);
    let c = choose|x: Seq<u8>| base64_encoding(x) == t;
    lemma_base64_injective(c, b);
}

/// Calls `base64::engine::general_purpose::STANDARD.encode`: the result is the standard
/// padded encoding `base64_encoding` of the bytes.
#[verifier::external_body]
fn base64_encode(bytes: &[u8]) -> (res: String)
    ensures
        res@ == base64_encoding(bytes@),
{
    base64::engine::general_purpose::STANDARD.encode(bytes)
}

/// Calls `base64::engine::general_purpose::STANDARD.decode` on the bytes of `text`. That
/// engine pads and decodes canonically (no missing or extra padding, no stray trailing bits),
/// so it succeeds exactly on the texts that are the encoding of some bytes, and gives those
/// bytes: `base64_decoding`.
#[verifier::external_body]
fn base64_decode(text: &str) -> (res: Result<Vec<u8>, base64::DecodeError>)
    ensures
        res is Ok <==> base64_decoding(text@) is Some,
        res matches Ok(v) ==> base64_decoding(text@) == Some(v@),
{
    base64::engine::general_purpose::STANDARD.decode(text)
}

/// Calls `to_string` on a Base64 decoding error; the text says what was wrong and is not
/// stated.
#[verifier::external_body]
fn decode_error_text(e: &base64::DecodeError) -> String {
    e.to_string()
}

/// The scheme that opens every link.
pub open spec fn link_scheme() -> Seq<char> {
    seq!['s', 'g', ':', '/', '/']
}

/// The link that carries the JSON text `json`.
pub open spec fn spec_link(json: Seq<char>) -> Seq<char> {
    link_scheme() + base64_encoding(vstd::utf8::encode_utf8(json))
}

/// What reading the link `link` gives: its JSON text, or the error.
pub open spec fn spec_link_payload(link: Seq<char>) -> Result<Seq<char>, Seq<char>> {
    if link.len() < 5 || link.subrange(0, 5) != link_scheme() {
        Err("Invalid SG link format"@)
    } else {
        match base64_decoding(link.subrange(5, link.len() as int)) {
            None => Err("Decode error"@),
            Some(bytes) => if vstd::utf8::valid_utf8(bytes) {
                Ok(vstd::utf8::decode_utf8(bytes))
            } else {
                Err("UTF-8 conversion failed"@)
            },
        }
    }
}

/// The link that carries the JSON text `json`; reading it back gives `json`.
pub fn link_from_json(json: &str) -> (res: String)
    ensures
        res@ == spec_link(json@),
        spec_link_payload(res@) == Ok::<Seq<char>, Seq<char>>(json@),
{
    let bytes = json.as_bytes();
    let encoded = base64_encode(bytes);
    let mut link = String::new();
    crate::text::push_char(&mut link, 's');
    crate::text::push_char(&mut link, 'g');
    crate::text::push_char(&mut link, ':');
    crate::text::push_char(&mut link, '/');
    crate::text::push_char(&mut link, '/');
    link.append(encoded.as_str());
    assert(link@ =~= spec_link(json@));
    proof {
        assert(link@.subrange(0, 5) =~= link_scheme());
        assert(link@.subrange(5, link@.len() as int) =~= encoded@);
        crate::crypto::lemma_decrypt_after_encrypt(json@);
        lemma_base64_round_trip(bytes@);
    }
    link
}

/// The JSON text a link carries: an error where it does not open with `sg://`, where the rest
/// is not Base64, or where the bytes are not UTF-8 text.
pub fn link_payload(sg_link: &str) -> (res: Result<String, ContactError>)
    ensures
        spec_link_payload(sg_link@) matches Ok(j) ==> (res matches Ok(t) && t@ == j),
        spec_link_payload(sg_link@) matches Err(m) ==> (res matches Err(ContactError::InvalidContact(e))
            && (m == "Decode error"@ ==> crate::text::has_prefix(e@, "Decode error: "@)) && (m
            != "Decode error"@ ==> e@ == m)),
{
    let cs = crate::text::chars_of(sg_link);
    let scheme: Vec<char> = vec!['s', 'g', ':', '/', '/'];
    if !crate::text::starts_with_chars(cs.as_slice(), scheme.as_slice()) {
        proof {
            assert(scheme@ =~= link_scheme());
            if sg_link@.len() >= 5 && sg_link@.subrange(0, 5) == link_scheme() {
                assert(crate::text::has_prefix(sg_link@, scheme@));
            }
            reveal_strlit("Decode error");
            reveal_strlit("Invalid SG link format");
        }
        return Err(ContactError::InvalidContact("Invalid SG link format".to_string()));
    }
    assert(sg_link@.subrange(0, 5) =~= link_scheme());
    let rest = crate::text::string_from_range(cs.as_slice(), 5, cs.len());
    match base64_decode(rest.as_str()) {
        Err(e) => {
            let mut m = "Decode error: ".to_string();
            m.append(decode_error_text(&e).as_str());
            proof {
                reveal_strlit("Decode error");
                reveal_strlit("Decode error: ");
                reveal_strlit("Invalid SG link format");
                reveal_strlit("UTF-8 conversion failed");
                assert(m@.subrange(0, "Decode error: "@.len() as int) =~= "Decode error: "@);
            }
            Err(ContactError::InvalidContact(m))
        },
        Ok(bytes) => match crate::crypto::string_from_utf8(bytes) {
            Ok(text) => Ok(text),
            Err(_) => {
                proof {
                    reveal_strlit("Decode error");
                    reveal_strlit("UTF-8 conversion failed");
                }
                Err(ContactError::InvalidContact("UTF-8 conversion failed".to_string()))
            },
        },
    }
}

/// The contact that the peer record of a link stands for; an error where the record is the
/// local user's own.
pub fn contact_from_link_peer(peer_data: &PeerData, current_peer_name: &str) -> (res: Result<Contact, ContactError>)
    ensures
        peer_data.name@ == current_peer_name@ ==> (res matches Err(ContactError::InvalidContact(m)) && m@
            == "Cannot add yourself as contact"@),
        peer_data.name@ != current_peer_name@ ==> res == Ok::<Contact, ContactError>(
            spec_contact_from_peer(*peer_data),
        ),
{
    if peer_data.name == current_peer_name.to_owned() {
        return Err(ContactError::InvalidContact("Cannot add yourself as contact".to_string()));
    }
    Ok(crate::contact_manager::create_contact_from_peer_data(peer_data))
}

/// The record a link of `peer` carries, made at `now` (milliseconds since the Unix epoch):
/// its identifier, name, full address and key, and no traffic.
pub fn link_peer_data(peer: &Peer, now: i64) -> (res: PeerData)
    ensures
        res.id == peer.id,
        res.name == peer.name,
        res.address@ == peer.address@ + seq![':'] + crate::text::decimal(peer.port as nat),
        res.public_key@ == peer.public_key@,
        res.connected_at == now,
        res.last_seen == now,
        res.bytes_sent == 0,
        res.bytes_received == 0,
{
    PeerData {
        id: peer.id.clone(),
        name: peer.name.clone(),
        address: peer.get_full_address(),
        public_key: crate::crypto::copy_bytes(&peer.public_key),
        connected_at: now,
        last_seen: now,
        bytes_sent: 0,
        bytes_received: 0,
    }
}

} // verus!
