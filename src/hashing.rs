use vstd::prelude::*;
use vstd::utf8::encode_utf8;

verus! {

/// The SHA-256 digest of a byte sequence, as computed by the host.
pub uninterp spec fn sha256_of(b: Seq<u8>) -> Seq<u8>;

/// The lowercase hexadecimal digit for a value below sixteen.
pub open spec fn hex_digit(n: u8) -> char {
    seq!['0', '1', '2', '3', '4', '5', '6', '7', '8', '9', 'a', 'b', 'c', 'd', 'e', 'f'][(n % 16) as int]
}

/// Lowercase hexadecimal text of a byte sequence: two digits per byte, high
/// nibble first, no separators.
pub open spec fn hex_of(b: Seq<u8>) -> Seq<char>
    decreases b.len(),
{
    if b.len() == 0 {
        Seq::empty()
    } else {
        hex_of(b.drop_last()) + seq![hex_digit(b.last() / 16), hex_digit(b.last() % 16)]
    }
}

/// The key under which a puzzle with the given solution text is stored: the
/// hex text of the SHA-256 digest of the text's UTF-8 bytes.
pub open spec fn solution_key_of(solution: Seq<char>) -> Seq<char> {
    hex_of(sha256_of(encode_utf8(solution)))
}

/// Relies on near_sdk::env::sha256: the digest depends on the bytes alone and
/// is 32 bytes long.
#[verifier::external_body]
fn sha256(b: &[u8]) -> (r: Vec<u8>)
    ensures
        r@ == sha256_of(b@),
        r@.len() == 32,
{
    near_sdk::env::sha256(b)
}

/// Relies on hex::encode: lowercase digits, two per byte, high nibble first.
#[verifier::external_body]
fn to_hex(b: &[u8]) -> (r: String)
    ensures
        r@ == hex_of(b@),
{
    hex::encode(b)
}

/// The storage key for a candidate solution text.
pub fn solution_key(solution: &str) -> (r: String)
    ensures
        r@ == solution_key_of(solution@),
{
    let digest = sha256(solution.as_bytes());
    to_hex(digest.as_slice())
}

} // verus!
