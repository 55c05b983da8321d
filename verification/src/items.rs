//! Storing an item's bytes encrypted: the ciphertext in base64 beside the
//! nonce, and reading them back.

use vstd::prelude::*;
use vstd::string::*;
use vstd::utf8::*;
use crate::encoding::{base64_encode, base64_fits, decode_base64, encode_base64, spec_decode_base64};
use crate::encryption::aes128::{aes128_gcm_siv_seal, spec_decrypt, KEY_LENGTH, MAX_MESSAGE_LENGTH, NONCE_LENGTH, TAG_LENGTH};
use crate::encryption::bytes_result;
use crate::encryption::symmetric::{decrypt_slice, encrypt_slice};
use crate::error::Error;
use crate::models::TextItem;
use crate::random::is_alphanumeric_bytes;

verus! {

/// What decrypting an item with a key gives: the bytes its base64 text
/// decrypts to with its nonce, or why that fails.
pub open spec fn decrypted_item(key: Seq<u8>, base64: Seq<char>, nonce: Seq<char>) -> Result<Seq<u8>, Error> {
    match spec_decode_base64(base64) {
        None => Err(Error::InvalidBase64),
        Some(c) => spec_decrypt(key, encode_utf8(nonce), c),
    }
}

/// The view of an item result: its base64 text and nonce.
pub open spec fn item_view(r: Result<TextItem, Error>) -> Result<(Seq<char>, Seq<char>), Error> {
    match r {
        Ok(item) => Ok((item.base64@, item.nonce@)),
        Err(e) => Err(e),
    }
}

/// Whether bytes can be stored encrypted under a key: the key has the
/// cipher's length and the bytes are not too long.
pub open spec fn storable(key: Seq<u8>, bytes: Seq<u8>) -> bool {
    key.len() == KEY_LENGTH && bytes.len() <= MAX_MESSAGE_LENGTH
}

impl TextItem {
    /// Encrypts bytes under a key with a fresh nonce, keeping the ciphertext
    /// in base64. Succeeds exactly when the bytes are storable under the key;
    /// decrypting the item with the key then gives the bytes back.
    pub fn from(key: &[u8], item: &[u8]) -> (r: Result<TextItem, Error>)
        requires
            base64_fits(item@.len() + TAG_LENGTH),
        ensures
            r is Ok <==> storable(key@, item@),
            key@.len() != KEY_LENGTH ==> r == Err::<TextItem, Error>(Error::InvalidKeyLength),
            key@.len() == KEY_LENGTH && item@.len() > MAX_MESSAGE_LENGTH ==> r == Err::<TextItem, Error>(Error::EncryptionFailed),
            r matches Ok(t) ==> {
                &&& t.key@.len() == 0
                &&& t.nonce@.len() == NONCE_LENGTH
                &&& is_ascii_chars(t.nonce@)
                &&& is_alphanumeric_bytes(encode_utf8(t.nonce@))
                &&& t.base64@ == base64_encode(aes128_gcm_siv_seal(key@, encode_utf8(t.nonce@), item@))
                &&& decrypted_item(key@, t.base64@, t.nonce@) == Ok::<Seq<u8>, Error>(item@)
            },
    {
        let encrypted = match encrypt_slice(key, item) {
            Ok(e) => e,
            Err(e) => return Err(e),
        };
        let base64 = encode_base64(encrypted.bytes.as_slice());
        Ok(TextItem { key: String::new(), base64, nonce: encrypted.nonce })
    }

    /// Decrypts the item's bytes with a key.
    pub fn decrypt(&self, key: &[u8]) -> (r: Result<Vec<u8>, Error>)
        ensures
            bytes_result(r) == decrypted_item(key@, self.base64@, self.nonce@),
    {
        let bytes = match decode_base64(self.base64.as_str()) {
            Some(b) => b,
            None => return Err(Error::InvalidBase64),
        };
        decrypt_slice(key, self.nonce.as_str().as_bytes(), bytes.as_slice())
    }
}

} // verus!
