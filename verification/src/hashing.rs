use vstd::prelude::*;
use sha2::Digest;
use crate::text::{hex_char, hex_lower, hex_lower_bytes, lemma_ascii_utf8, lemma_hex_lower_bytes, lemma_hex_lower_chars, to_hex_lower};
use vstd::utf8::*;

verus! {

/// The SHA-256 digest of a byte sequence.
pub uninterp spec fn sha256(bytes: Seq<u8>) -> Seq<u8>;

/// The MD5 digest of a byte sequence.
pub uninterp spec fn md5(bytes: Seq<u8>) -> Seq<u8>;

/// Calls `sha2::Sha256` (`new`, `update`, `finalize`): the result is the
/// SHA-256 digest of the bytes, 32 bytes long.
#[verifier::external_body]
fn sha256_digest(bytes: &[u8]) -> (r: Vec<u8>)
    ensures
        r@ == sha256(bytes@),
        r@.len() == 32,
{
    sha2::Sha256::digest(bytes).to_vec()
}

/// Calls `md5::compute`: the result is the MD5 digest of the bytes, 16 bytes long.
#[verifier::external_body]
fn md5_digest(bytes: &[u8]) -> (r: Vec<u8>)
    ensures
        r@ == md5(bytes@),
        r@.len() == 16,
{
    md5::compute(bytes).0.to_vec()
}

/// The text `compute_sha256_hash` gives for some bytes: the lower-case
/// hexadecimal digits of their SHA-256 digest.
pub open spec fn sha256_hex(bytes: Seq<u8>) -> Seq<char> {
    hex_lower(sha256(bytes))
}

/// SHA-256 hash of the bytes as 64 lower-case hexadecimal characters.
pub fn compute_sha256_hash(bytes: &[u8]) -> (hash: String)
    ensures
        hash@ == sha256_hex(bytes@),
        hash@.len() == 64,
        is_ascii_chars(hash@),
        forall|i: int| 0 <= i < hash@.len() ==> hex_char(#[trigger] hash@[i]),
{
    let digest = sha256_digest(bytes);
    let hash = to_hex_lower(digest.as_slice());
    proof {
        lemma_hex_lower_chars(digest@);
        lemma_hex_lower_bytes(digest@);
        lemma_ascii_utf8(hex_lower_bytes(digest@));
    }
    hash
}

/// MD5 hash of the bytes as 32 lower-case hexadecimal characters (the text
/// of the digest's `Debug` form).
pub fn compute_md5_hash(bytes: &[u8]) -> (hash: String)
    ensures
        hash@ == hex_lower(md5(bytes@)),
        hash@.len() == 32,
{
    let digest = md5_digest(bytes);
    to_hex_lower(digest.as_slice())
}

} // verus!
