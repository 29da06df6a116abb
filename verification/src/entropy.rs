//! Random identifiers and bytes.
use rand::TryRngCore;
use vstd::prelude::*;

verus! {

/// Calls `rand::rngs::OsRng::try_fill_bytes` for sixteen bytes from the operating system's
/// random source; none where that source fails. The bytes are random, so nothing is stated
/// of them.
#[verifier::external_body]
fn try_random_sixteen_bytes() -> Option<[u8; 16]> {
    let mut bytes = [0u8; 16];
    match rand::rngs::OsRng.try_fill_bytes(&mut bytes) {
        Ok(()) => Some(bytes),
        Err(_) => None,
    }
}

/// Calls `rand::rngs::OsRng::try_fill_bytes` for twelve bytes from the operating system's
/// random source; none where that source fails. Nothing is stated of the bytes.
#[verifier::external_body]
fn try_random_twelve_bytes() -> Option<[u8; 12]> {
    let mut bytes = [0u8; 12];
    match rand::rngs::OsRng.try_fill_bytes(&mut bytes) {
        Ok(()) => Some(bytes),
        Err(_) => None,
    }
}

/// Calls `rand::rngs::OsRng::try_next_u32` for a random number from the operating system's
/// random source; none where that source fails. Nothing is stated of the number.
#[verifier::external_body]
fn try_random_u32() -> Option<u32> {
    match rand::rngs::OsRng.try_next_u32() {
        Ok(n) => Some(n),
        Err(_) => None,
    }
}

/// The lower-case hexadecimal digit for `n`, below sixteen.
pub open spec fn hex_digit(n: int) -> char {
    if n < 10 {
        (48 + n) as char
    } else {
        (97 + n - 10) as char
    }
}

/// Two lower-case hexadecimal digits for each of the bytes `v`, in order.
pub open spec fn hex_of(v: Seq<int>) -> Seq<char>
    decreases v.len(),
{
    if v.len() == 0 {
        Seq::empty()
    } else {
        seq![hex_digit(v[0] / 16), hex_digit(v[0] % 16)] + hex_of(v.drop_first())
    }
}

/// The sixteen bytes of the version-4 UUID made of the random bytes `b`: the high half of
/// byte six set to the version 4, and the two high bits of byte eight to the variant `10`.
pub open spec fn uuid_bytes(b: Seq<u8>) -> Seq<int> {
    Seq::new(16, |i: int| if i == 6 {
        (b[6] as int) % 16 + 64
    } else if i == 8 {
        (b[8] as int) % 64 + 128
    } else {
        b[i] as int
    })
}

/// The hyphenated text of the version-4 UUID made of the random bytes `b`: its bytes in
/// lower-case hexadecimal, in groups of eight, four, four, four and twelve digits.
pub open spec fn uuid_text(b: Seq<u8>) -> Seq<char> {
    let v = uuid_bytes(b);
    hex_of(v.subrange(0, 4)) + seq!['-'] + hex_of(v.subrange(4, 6)) + seq!['-'] + hex_of(v.subrange(6, 8))
        + seq!['-'] + hex_of(v.subrange(8, 10)) + seq!['-'] + hex_of(v.subrange(10, 16))
}

/// Two digits per byte.
proof fn lemma_hex_len(v: Seq<int>)
    ensures
        hex_of(v).len() == 2 * v.len(),
    decreases v.len(),
{
    if v.len() > 0 {
        lemma_hex_len(v.drop_first());
    }
}

/// The text of a UUID is thirty-six characters long.
proof fn lemma_uuid_len(b: Seq<u8>)
    ensures
        uuid_text(b).len() == 36,
{
    let v = uuid_bytes(b);
    lemma_hex_len(v.subrange(0, 4));
    lemma_hex_len(v.subrange(4, 6));
    lemma_hex_len(v.subrange(6, 8));
    lemma_hex_len(v.subrange(8, 10));
    lemma_hex_len(v.subrange(10, 16));
}

/// Calls `uuid::Builder::from_random_bytes`, which sets the version and variant bits, and
/// renders the UUID with `to_string`, the hyphenated lower-case form: `uuid_text`.
#[verifier::external_body]
fn uuid_from_random_bytes(bytes: [u8; 16]) -> (res: String)
    ensures
        res@ == uuid_text(bytes@),
{
    uuid::Builder::from_random_bytes(bytes).into_uuid().to_string()
}

/// A fresh random version-4 UUID in hyphenated form; the nil UUID where the operating system's
/// random source fails.
pub(crate) fn new_uuid_v4() -> (res: String)
    ensures
        res@.len() == 36,
{
    match try_random_sixteen_bytes() {
        Some(bytes) => {
            proof {
                lemma_uuid_len(bytes@);
            }
            uuid_from_random_bytes(bytes)
        },
        None => {
            proof {
                reveal_strlit("00000000-0000-0000-0000-000000000000");
            }
            "00000000-0000-0000-0000-000000000000".to_string()
        },
    }
}

/// Twelve random bytes; zeros where the operating system's random source fails.
pub(crate) fn random_twelve_bytes() -> [u8; 12] {
    match try_random_twelve_bytes() {
        Some(bytes) => bytes,
        None => [0u8; 12],
    }
}

/// A random 16-bit number, the low half of a random 32-bit one; zero where the operating
/// system's random source fails.
pub(crate) fn random_u16() -> u16 {
    match try_random_u32() {
        Some(n) => (n & 0xFFFF) as u16,
        None => 0,
    }
}

} // verus!
