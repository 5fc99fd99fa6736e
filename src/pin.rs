//! PIN hashing: the SHA-256 digest of the PIN's UTF-8 bytes, written as
//! lowercase hexadecimal. Credentials are stored and looked up by this text.

use vstd::prelude::*;

use crate::ids::digit_char;

verus! {

/// The SHA-256 digest of the UTF-8 encoding of `s`.
pub uninterp spec fn sha256_of(s: Seq<char>) -> Seq<u8>;

/// Inputs shorter than this many characters are well inside the digest's
/// length limit of 2^61 bytes.
pub const DIGEST_INPUT_LIMIT: u64 = 0x0100_0000_0000_0000;

/// Relies on ring::digest::digest with SHA256 over the UTF-8 bytes of `s`;
/// its output is 32 bytes. It panics only on inputs longer than 2^61 bytes.
#[verifier::external_body]
fn sha256_digest(s: &str) -> (r: Vec<u8>)
    requires
        s@.len() < DIGEST_INPUT_LIMIT,
    ensures
        r@ == sha256_of(s@),
        r@.len() == 32,
{
    ring::digest::digest(&ring::digest::SHA256, s.as_bytes()).as_ref().to_vec()
}

/// The lowercase hexadecimal digit of `d`, which is below sixteen.
pub open spec fn hex_digit(d: u8) -> char {
    if d < 10 {
        digit_char(d as nat)
    } else if d == 10 { 'a' }
    else if d == 11 { 'b' }
    else if d == 12 { 'c' }
    else if d == 13 { 'd' }
    else if d == 14 { 'e' }
    else { 'f' }
}

/// Each byte as two lowercase hexadecimal digits, high half first.
pub open spec fn hex_lower(b: Seq<u8>) -> Seq<char> {
    Seq::new(2 * b.len(), |i: int| if i % 2 == 0 { hex_digit(b[i / 2] / 16) } else { hex_digit(b[i / 2] % 16) })
}

/// Relies on data_encoding::HEXLOWER.encode: two lowercase hexadecimal
/// digits per byte, most significant half first, with no padding.
#[verifier::external_body]
fn hex_encode(b: &[u8]) -> (r: String)
    ensures
        r@ == hex_lower(b@),
{
    data_encoding::HEXLOWER.encode(b)
}

/// The stored form of a PIN: its SHA-256 digest in lowercase hexadecimal.
pub open spec fn pin_hash_view(pin: Seq<char>) -> Seq<char> {
    hex_lower(sha256_of(pin))
}

/// Hashes `pin` into the form in which credentials are stored.
pub fn hash_pin(pin: &str) -> (r: String)
    requires
        pin@.len() < DIGEST_INPUT_LIMIT,
    ensures
        r@ == pin_hash_view(pin@),
        r@.len() == 64,
{
    let digest = sha256_digest(pin);
    hex_encode(digest.as_slice())
}

/// Whether `pin` is a well-formed PIN: exactly four ASCII digits.
pub open spec fn pin_well_formed(pin: Seq<char>) -> bool {
    pin.len() == 4 && forall|i: int| 0 <= i < 4 ==> '0' <= #[trigger] pin[i] <= '9'
}

/// Checks the PIN format that staff records must meet.
pub fn is_valid_pin(pin: &str) -> (r: bool)
    ensures
        r == pin_well_formed(pin@),
{
    let n = pin.unicode_len();
    if n != 4 {
        return false;
    }
    let mut i: usize = 0;
    while i < 4
        invariant
            i <= 4,
            n == 4 == pin@.len(),
            forall|k: int| 0 <= k < i ==> '0' <= #[trigger] pin@[k] <= '9',
        decreases 4 - i,
    {
        let c = pin.get_char(i);
        if c < '0' || c > '9' {
            return false;
        }
        i = i + 1;
    }
    true
}

} // verus!
