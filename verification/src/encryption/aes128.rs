use vstd::prelude::*;
use vstd::string::*;
use vstd::utf8::*;
use aes_gcm_siv::aead::{Aead, NewAead};
use aes_gcm_siv::{Aes128GcmSiv, Key, Nonce};
use crate::error::Error;
use crate::passwords::{get_hash_from_phc, hash_password_with_salt, phc_hash_part, phc_shaped, spec_hash_password_with_salt, usable_salt_text};
use crate::random::is_alphanumeric_bytes;
use crate::text::lemma_ascii_chars_bytes;
use super::bytes_result;

verus! {

/// Length in bytes of an AES-128 key.
pub const KEY_LENGTH: usize = 16;

/// Length in bytes of an AES-GCM-SIV nonce.
pub const NONCE_LENGTH: usize = 12;

/// Longest message AES-GCM-SIV seals: 2^36 bytes.
pub const MAX_MESSAGE_LENGTH: u64 = 68719476736;

/// Length in bytes of the authentication tag appended to every ciphertext.
pub const TAG_LENGTH: usize = 16;

/// The AES-128-GCM-SIV ciphertext (with its tag appended) of a message under
/// a key and a nonce, with no associated data.
pub uninterp spec fn aes128_gcm_siv_seal(key: Seq<u8>, nonce: Seq<u8>, plaintext: Seq<u8>) -> Seq<u8>;

/// The message an AES-128-GCM-SIV ciphertext authenticates to under a key and
/// a nonce, with no associated data; `None` when it does not authenticate.
pub uninterp spec fn aes128_gcm_siv_open(key: Seq<u8>, nonce: Seq<u8>, ciphertext: Seq<u8>) -> Option<Seq<u8>>;

/// Calls `Aes128GcmSiv::new` on the key and `Aead::encrypt` with the nonce.
/// What it claims: the crate refuses only messages longer than 2^36 bytes;
/// otherwise the ciphertext is the message's length plus a 16-byte tag, is a
/// function of key, nonce and message, and opens to the message again.
#[verifier::external_body]
fn aes128_gcm_siv_encrypt(key: &[u8], nonce: &[u8], plaintext: &[u8]) -> (r: Option<Vec<u8>>)
    requires
        key@.len() == 16,
        nonce@.len() == 12,
    ensures
        r is Some <==> plaintext@.len() <= MAX_MESSAGE_LENGTH,
        r matches Some(c) ==> {
            &&& c@ == aes128_gcm_siv_seal(key@, nonce@, plaintext@)
            &&& c@.len() == plaintext@.len() + 16
            &&& aes128_gcm_siv_open(key@, nonce@, c@) == Some(plaintext@)
        },
{
    let cipher = Aes128GcmSiv::new(Key::from_slice(key));
    cipher.encrypt(Nonce::from_slice(nonce), plaintext).ok()
}

/// Calls `Aes128GcmSiv::new` on the key and `Aead::decrypt` with the nonce;
/// `None` stands for the crate's error. What it claims: a ciphertext shorter
/// than the 16-byte tag is refused; a ciphertext that opens is the sealing of
/// what it opens to under the same key and nonce (the crate recomputes the
/// tag from the decrypted message and the nonce and refuses a mismatch, and
/// sealing that message computes the same tag and the same keystream).
#[verifier::external_body]
fn aes128_gcm_siv_decrypt(key: &[u8], nonce: &[u8], ciphertext: &[u8]) -> (r: Option<Vec<u8>>)
    requires
        key@.len() == 16,
        nonce@.len() == 12,
    ensures
        match r {
            Some(p) => aes128_gcm_siv_open(key@, nonce@, ciphertext@) == Some(p@),
            None => aes128_gcm_siv_open(key@, nonce@, ciphertext@) is None,
        },
        ciphertext@.len() < 16 ==> r is None,
        r matches Some(p) ==> ciphertext@ == aes128_gcm_siv_seal(key@, nonce@, p@),
{
    let cipher = Aes128GcmSiv::new(Key::from_slice(key));
    cipher.decrypt(Nonce::from_slice(nonce), ciphertext).ok()
}

/// A fresh random key: 16 ASCII letters and digits.
pub fn generate_key() -> (key: Vec<u8>)
    ensures
        key@.len() == KEY_LENGTH,
        is_alphanumeric_bytes(key@),
{
    super::generate_string(KEY_LENGTH)
}

/// A fresh random nonce: 12 ASCII letters and digits.
pub fn generate_nonce() -> (nonce: Vec<u8>)
    ensures
        nonce@.len() == NONCE_LENGTH,
        is_alphanumeric_bytes(nonce@),
{
    super::generate_string(NONCE_LENGTH)
}

/// The key a PHC password hash string gives: the first 16 characters (as
/// bytes) of its hash part, which must be ASCII.
pub open spec fn key_of_phc(phc: Seq<char>) -> Result<Seq<u8>, Error> {
    match phc_hash_part(phc) {
        None => Err(Error::InvalidPasswordHash),
        Some(h) => if is_ascii_chars(h) && h.len() >= KEY_LENGTH {
            Ok(h.take(KEY_LENGTH as int).map_values(|c: char| c as u8))
        } else {
            Err(Error::InvalidPasswordHash)
        },
    }
}

/// The key of a PHC password hash string.
pub fn key_from_phc(phc: &str) -> (r: Result<Vec<u8>, Error>)
    ensures
        bytes_result(r) == key_of_phc(phc@),
        r matches Ok(key) ==> key@.len() == KEY_LENGTH,
{
    let hash = match get_hash_from_phc(phc) {
        Ok(hash) => hash,
        Err(e) => return Err(e),
    };
    if hash.is_ascii() && hash.unicode_len() >= KEY_LENGTH {
        let part = hash.substring_ascii(0, KEY_LENGTH);
        proof {
            lemma_ascii_chars_bytes(part@);
        }
        Ok(part.as_bytes_vec())
    } else {
        Err(Error::InvalidPasswordHash)
    }
}

/// Whether a key can be derived with the salt: hashing takes it as it is,
/// or its bytes number 3 to 48.
pub open spec fn derivable_salt(salt: Seq<char>) -> bool {
    usable_salt_text(salt) || 3 <= encode_utf8(salt).len() <= 48
}

/// What [`derive_key_from_string`] gives: the key of the PBKDF2 password
/// hash of `input` with `salt` (see [`hash_password_with_salt`]).
pub open spec fn spec_derive_key(input: Seq<char>, salt: Seq<char>) -> Result<Seq<u8>, Error> {
    match spec_hash_password_with_salt(input, salt) {
        Err(e) => Err(e),
        Ok(phc) => key_of_phc(phc),
    }
}

/// Derives a 16-byte key from a text and a salt: the first 16 characters of
/// the hash part of the text's PBKDF2 password hash. It succeeds exactly for
/// the salts that hashing takes.
pub fn derive_key_from_string(input: &str, salt: &str) -> (r: Result<Vec<u8>, Error>)
    ensures
        bytes_result(r) == spec_derive_key(input@, salt@),
        r is Ok <==> derivable_salt(salt@),
        r matches Ok(key) ==> key@.len() == KEY_LENGTH,
{
    let phc = match hash_password_with_salt(input, salt) {
        Ok(phc) => phc,
        Err(e) => return Err(e),
    };
    proof {
        lemma_shaped_phc_key(phc@);
    }
    key_from_phc(phc.as_str())
}

/// A PHC string of the PBKDF2 shape with a 32-byte output gives a key.
proof fn lemma_shaped_phc_key(phc: Seq<char>)
    requires
        phc_shaped(phc, 32),
    ensures
        key_of_phc(phc) is Ok,
{
}

/// What [`encrypt`] gives for a key, a nonce and a message.
pub open spec fn spec_encrypt(key: Seq<u8>, nonce: Seq<u8>, bytes: Seq<u8>) -> Result<Seq<u8>, Error> {
    if nonce.len() != NONCE_LENGTH {
        Err(Error::InvalidNonceLength)
    } else if key.len() != KEY_LENGTH {
        Err(Error::InvalidKeyLength)
    } else if bytes.len() > MAX_MESSAGE_LENGTH {
        Err(Error::EncryptionFailed)
    } else {
        Ok(aes128_gcm_siv_seal(key, nonce, bytes))
    }
}

/// What [`decrypt`] gives for a key, a nonce and a ciphertext.
pub open spec fn spec_decrypt(key: Seq<u8>, nonce: Seq<u8>, bytes: Seq<u8>) -> Result<Seq<u8>, Error> {
    if nonce.len() != NONCE_LENGTH {
        Err(Error::InvalidNonceLength)
    } else if key.len() != KEY_LENGTH {
        Err(Error::InvalidKeyLength)
    } else {
        match aes128_gcm_siv_open(key, nonce, bytes) {
            Some(p) => Ok(p),
            None => Err(Error::DecryptionFailed),
        }
    }
}

/// Encrypts bytes with AES-128-GCM-SIV. Decrypting the result with the same
/// key and nonce gives the bytes back.
pub fn encrypt(key: &[u8], nonce: &[u8], bytes: &[u8]) -> (r: Result<Vec<u8>, Error>)
    ensures
        bytes_result(r) == spec_encrypt(key@, nonce@, bytes@),
        r matches Ok(c) ==> c@.len() == bytes@.len() + TAG_LENGTH,
        r matches Ok(c) ==> spec_decrypt(key@, nonce@, c@) == Ok::<Seq<u8>, Error>(bytes@),
{
    if nonce.len() != NONCE_LENGTH {
        Err(Error::InvalidNonceLength)
    } else if key.len() != KEY_LENGTH {
        Err(Error::InvalidKeyLength)
    } else {
        match aes128_gcm_siv_encrypt(key, nonce, bytes) {
            Some(encrypted) => Ok(encrypted),
            None => Err(Error::EncryptionFailed),
        }
    }
}

/// Decrypts and authenticates AES-128-GCM-SIV ciphertext.
/// A ciphertext shorter than the tag never decrypts, and one that decrypts is
/// the sealing of its message under the key and nonce.
pub fn decrypt(key: &[u8], nonce: &[u8], bytes: &[u8]) -> (r: Result<Vec<u8>, Error>)
    ensures
        bytes_result(r) == spec_decrypt(key@, nonce@, bytes@),
        bytes@.len() < TAG_LENGTH ==> r is Err,
        r matches Ok(p) ==> bytes@ == aes128_gcm_siv_seal(key@, nonce@, p@),
{
    if nonce.len() != NONCE_LENGTH {
        Err(Error::InvalidNonceLength)
    } else if key.len() != KEY_LENGTH {
        Err(Error::InvalidKeyLength)
    } else {
        match aes128_gcm_siv_decrypt(key, nonce, bytes) {
            Some(decrypted) => Ok(decrypted),
            None => Err(Error::DecryptionFailed),
        }
    }
}

} // verus!
