use vstd::prelude::*;
use vstd::slice::slice_to_vec;
use vstd::string::*;
use vstd::utf8::*;
use crate::error::Error;
use crate::random::{is_alphanumeric_bytes, lemma_alphanumeric_is_ascii};
use crate::text::{lemma_ascii_utf8, string_from_utf8};
use super::aes128::{self, derivable_salt, spec_decrypt, spec_derive_key, spec_encrypt, KEY_LENGTH, NONCE_LENGTH, TAG_LENGTH, MAX_MESSAGE_LENGTH};
use super::{bytes_result, EncryptionResult};

verus! {

/// A fresh random symmetric key.
pub fn generate_key() -> (key: Vec<u8>)
    ensures
        key@.len() == KEY_LENGTH,
        is_alphanumeric_bytes(key@),
{
    aes128::generate_key()
}

/// A fresh random nonce.
pub fn generate_nonce() -> (nonce: Vec<u8>)
    ensures
        nonce@.len() == NONCE_LENGTH,
        is_alphanumeric_bytes(nonce@),
{
    aes128::generate_nonce()
}

/// Derives a symmetric key from a text and a salt; it succeeds exactly for
/// the salts a key can be derived with.
pub fn derive_key_from_string(input: &str, salt: &str) -> (r: Result<Vec<u8>, Error>)
    ensures
        bytes_result(r) == spec_derive_key(input@, salt@),
        r is Ok <==> derivable_salt(salt@),
        r matches Ok(key) ==> key@.len() == KEY_LENGTH,
{
    aes128::derive_key_from_string(input, salt)
}

/// What [`encrypt_slice_with_nonce`] gives: the nonce as text and the
/// ciphertext, or the first error met.
pub open spec fn spec_encrypt_slice_with_nonce(key: Seq<u8>, nonce: Seq<u8>, data: Seq<u8>) -> Result<(Seq<char>, Seq<u8>), Error> {
    match spec_encrypt(key, nonce, data) {
        Err(e) => Err(e),
        Ok(c) => if valid_utf8(nonce) {
            Ok((decode_utf8(nonce), c))
        } else {
            Err(Error::InvalidUtf8)
        },
    }
}

/// The view of an encryption result: its nonce text and its ciphertext.
pub open spec fn encryption_result_view(r: Result<EncryptionResult, Error>) -> Result<(Seq<char>, Seq<u8>), Error> {
    match r {
        Ok(res) => Ok((res.nonce@, res.bytes@)),
        Err(e) => Err(e),
    }
}

/// Encrypts bytes with the given nonce; the nonce must be UTF-8 text. The
/// result's nonce, read back as bytes, is the given nonce, and decrypting the
/// result gives the data back.
pub fn encrypt_slice_with_nonce(key: &[u8], nonce: &[u8], data: &[u8]) -> (r: Result<EncryptionResult, Error>)
    ensures
        encryption_result_view(r) == spec_encrypt_slice_with_nonce(key@, nonce@, data@),
        r matches Ok(res) ==> {
            &&& encode_utf8(res.nonce@) == nonce@
            &&& res.bytes@.len() == data@.len() + TAG_LENGTH
            &&& spec_decrypt(key@, nonce@, res.bytes@) == Ok::<Seq<u8>, Error>(data@)
        },
{
    let encrypted = match aes128::encrypt(key, nonce, data) {
        Ok(encrypted) => encrypted,
        Err(e) => return Err(e),
    };
    match string_from_utf8(slice_to_vec(nonce)) {
        Some(nonce_text) => {
            proof {
                decode_utf8_encode_utf8(nonce@);
            }
            Ok(EncryptionResult { nonce: nonce_text, bytes: encrypted })
        },
        None => Err(Error::InvalidUtf8),
    }
}

/// Encrypts bytes under a fresh random nonce. The call succeeds exactly when
/// the key has the right length and the data is not too long for the cipher;
/// the nonce is then 12 random letters and digits, and decrypting the
/// ciphertext with the nonce's bytes gives the data back.
pub fn encrypt_slice(key: &[u8], data: &[u8]) -> (r: Result<EncryptionResult, Error>)
    ensures
        r is Ok <==> key@.len() == KEY_LENGTH && data@.len() <= MAX_MESSAGE_LENGTH,
        key@.len() != KEY_LENGTH ==> r == Err::<EncryptionResult, Error>(Error::InvalidKeyLength),
        key@.len() == KEY_LENGTH && data@.len() > MAX_MESSAGE_LENGTH ==> r == Err::<EncryptionResult, Error>(Error::EncryptionFailed),
        r matches Ok(res) ==> {
            &&& res.nonce@.len() == NONCE_LENGTH
            &&& is_ascii_chars(res.nonce@)
            &&& is_alphanumeric_bytes(encode_utf8(res.nonce@))
            &&& res.bytes@ == aes128::aes128_gcm_siv_seal(key@, encode_utf8(res.nonce@), data@)
            &&& res.bytes@.len() == data@.len() + TAG_LENGTH
            &&& spec_decrypt(key@, encode_utf8(res.nonce@), res.bytes@) == Ok::<Seq<u8>, Error>(data@)
        },
{
    let nonce = generate_nonce();
    proof {
        lemma_alphanumeric_is_ascii(nonce@);
        lemma_ascii_utf8(nonce@);
    }
    encrypt_slice_with_nonce(key, nonce.as_slice(), data)
}

/// Decrypts bytes with a key and a nonce.
pub fn decrypt_slice(key: &[u8], nonce: &[u8], data: &[u8]) -> (r: Result<Vec<u8>, Error>)
    ensures
        bytes_result(r) == spec_decrypt(key@, nonce@, data@),
        data@.len() < TAG_LENGTH ==> r is Err,
        r matches Ok(p) ==> data@ == aes128::aes128_gcm_siv_seal(key@, nonce@, p@),
{
    aes128::decrypt(key, nonce, data)
}

} // verus!
