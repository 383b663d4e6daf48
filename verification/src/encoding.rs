//! Lowercase hexadecimal, SHA-256 digests and constant-time comparison.
use vstd::prelude::*;
use sha2::Digest;
use subtle::ConstantTimeEq;

verus! {

/// Lowercase hexadecimal digit for a value below 16.
pub open spec fn hex_digit(d: nat) -> char {
    if d < 10 {
        (('0' as nat) + d) as char
    } else {
        (('a' as nat) + (d - 10)) as char
    }
}

/// Lowercase hexadecimal encoding: two digits per byte, high nibble first.
pub open spec fn hex_lower(bytes: Seq<u8>) -> Seq<char>
    decreases bytes.len(),
{
    if bytes.len() == 0 {
        Seq::empty()
    } else {
        seq![hex_digit((bytes[0] / 16) as nat), hex_digit((bytes[0] % 16) as nat)] + hex_lower(
            bytes.drop_first(),
        )
    }
}

pub open spec fn is_lower_hex_char(c: char) -> bool {
    ('0' <= c && c <= '9') || ('a' <= c && c <= 'f')
}

/// `hex::encode`: lowercase hexadecimal, two digits per byte in order (as
/// the crate documents).
#[verifier::external_body]
pub fn hex_encode(bytes: &[u8]) -> (r: String)
    ensures
        r@ == hex_lower(bytes@),
{
    hex::encode(bytes)
}

pub proof fn lemma_hex_lower_shape(bytes: Seq<u8>)
    ensures
        hex_lower(bytes).len() == 2 * bytes.len(),
        forall|i: int| 0 <= i < hex_lower(bytes).len() ==> is_lower_hex_char(#[trigger] hex_lower(bytes)[i]),
    decreases bytes.len(),
{
    if bytes.len() > 0 {
        lemma_hex_lower_shape(bytes.drop_first());
        let head = seq![hex_digit((bytes[0] / 16) as nat), hex_digit((bytes[0] % 16) as nat)];
        assert forall|i: int| 0 <= i < hex_lower(bytes).len() implies is_lower_hex_char(
            #[trigger] hex_lower(bytes)[i],
        ) by {
            if i >= 2 {
                assert(hex_lower(bytes)[i] == hex_lower(bytes.drop_first())[i - 2]);
            }
        }
    }
}

/// SHA-256 of a byte sequence (FIPS 180-4); only named here.
pub uninterp spec fn sha256(data: Seq<u8>) -> Seq<u8>;

/// `sha2::Sha256::digest`: the 32-byte SHA-256 digest of the data.
#[verifier::external_body]
pub fn sha256_digest(data: &[u8]) -> (r: Vec<u8>)
    ensures
        r@ == sha256(data@),
        r@.len() == 32,
{
    sha2::Sha256::digest(data).to_vec()
}

/// Lowercase hexadecimal SHA-256 of the data, as stored in content addresses.
pub fn sha256_hex(data: &[u8]) -> (r: String)
    ensures
        r@ == hex_lower(sha256(data@)),
        r@.len() == 64,
{
    let digest = sha256_digest(data);
    proof {
        lemma_hex_lower_shape(digest@);
    }
    hex_encode(digest.as_slice())
}

/// `subtle::ConstantTimeEq::ct_eq` on byte slices: true exactly when the
/// slices have the same length and the same bytes, compared without
/// data-dependent early exit.
#[verifier::external_body]
pub fn ct_eq_bytes(a: &[u8], b: &[u8]) -> (r: bool)
    ensures
        r == (a@ == b@),
{
    bool::from(a.ct_eq(b))
}

/// Constant-time string equality over the UTF-8 bytes.
pub fn constant_time_equal(left: &str, right: &str) -> (r: bool)
    ensures
        r == (left@ == right@),
{
    let r = ct_eq_bytes(left.as_bytes(), right.as_bytes());
    proof {
        vstd::utf8::encode_utf8_decode_utf8(left@);
        vstd::utf8::encode_utf8_decode_utf8(right@);
    }
    r
}

/// `rand::random::<[u8; 32]>()`: 32 bytes from the thread-local
/// cryptographically secure generator. Nothing is promised of the values.
#[verifier::external_body]
pub fn random_bytes32() -> [u8; 32] {
    rand::random::<[u8; 32]>()
}

/// A fresh secret: 32 random bytes in lowercase hexadecimal.
pub fn random_secret() -> (r: String)
    ensures
        r@.len() == 64,
        forall|i: int| 0 <= i < 64 ==> is_lower_hex_char(#[trigger] r@[i]),
{
    let bytes = random_bytes32();
    proof {
        lemma_hex_lower_shape(bytes@);
    }
    hex_encode(&bytes)
}

} // verus!
