//! The secret that identifies an owner when the account is fetched: the
//! lowercase hex SHA-256 digest of the password.

use vstd::prelude::*;

use vstd::utf8::encode_utf8;

use sha2::Digest;

verus! {

/// The SHA-256 digest of `data`.
pub uninterp spec fn sha256_digest(data: Seq<u8>) -> Seq<u8>;

/// The lowercase hex digit for `n`, which is below 16.
pub open spec fn hex_digit(n: int) -> char {
    "0123456789abcdef"@[n]
}

/// Each byte of `b` as two lowercase hex digits, the high half first.
pub open spec fn hex_text(b: Seq<u8>) -> Seq<char>
    decreases b.len(),
{
    if b.len() == 0 {
        Seq::empty()
    } else {
        hex_text(b.drop_last()) + seq![hex_digit(b.last() as int / 16), hex_digit(b.last() as int % 16)]
    }
}

/// Hex text has two digits per byte.
pub proof fn lemma_hex_text_len(b: Seq<u8>)
    ensures
        hex_text(b).len() == 2 * b.len(),
    decreases b.len(),
{
    if b.len() > 0 {
        lemma_hex_text_len(b.drop_last());
    }
}

/// Relies on sha2::Sha256::digest: the SHA-256 digest of the bytes, which
/// is 32 bytes long.
#[verifier::external_body]
fn sha256(data: &[u8]) -> (r: Vec<u8>)
    ensures
        r@ == sha256_digest(data@),
        r@.len() == 32,
{
    sha2::Sha256::digest(data).to_vec()
}

/// Relies on hex::encode: two lowercase hex digits per byte, the high half
/// first.
#[verifier::external_body]
fn hex_encode(data: &[u8]) -> (r: String)
    ensures
        r@ == hex_text(data@),
{
    hex::encode(data)
}

/// The stored form of a password: its SHA-256 digest in lowercase hex.
pub fn password_hash(password: &str) -> (r: String)
    ensures
        r@ == hex_text(sha256_digest(encode_utf8(password@))),
        r@.len() == 64,
{
    let digest = sha256(password.as_bytes());
    proof {
        lemma_hex_text_len(digest@);
    }
    hex_encode(digest.as_slice())
}

/// The secret to send when fetching the account: a password typed by the
/// owner is hashed first; one taken from the cached session already is.
pub fn login_secret(password: &str, already_hashed: bool) -> (r: String)
    ensures
        already_hashed ==> r@ == password@,
        !already_hashed ==> r@ == hex_text(sha256_digest(encode_utf8(password@))),
        !already_hashed ==> r@.len() == 64,
{
    if already_hashed {
        password.to_owned()
    } else {
        password_hash(password)
    }
}

} // verus!
