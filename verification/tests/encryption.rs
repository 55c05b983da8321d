use upholi::encryption::aes128::{self, KEY_LENGTH, NONCE_LENGTH};

use upholi::encryption::symmetric::{decrypt_slice, encrypt_slice, encrypt_slice_with_nonce};
use upholi::error::Error;

#[test]
fn generate_key_length() {
    let key = aes128::generate_key();
    assert_eq!(key.len(), KEY_LENGTH);
}

#[test]
fn generate_nonce_length() {
    let nonce = aes128::generate_nonce();
    assert_eq!(nonce.len(), NONCE_LENGTH);
}

#[test]
fn aes128_encrypt_decrypt() {
    let key = b"e0ca4c29d5504e8d";
    let nonce = b"452b4dd698de";
    let bytes = b"message";

    let encrypted = aes128::encrypt(key, nonce, bytes).unwrap();
    let decrypted = aes128::decrypt(key, nonce, &encrypted).unwrap();

    assert_eq!(bytes.to_vec().len(), decrypted.len());
    assert_eq!(bytes.to_vec(), decrypted);
}

#[test]
fn derive_key_from_string_has_correct_length() {
    let username = "username";
    let salt = "salt_01234567890";
    let key = aes128::derive_key_from_string(username, salt).unwrap();
    assert_eq!(key.len(), KEY_LENGTH);
}

#[test]
fn encrypt() {
    let bytes = b"some kind of message";
    let key = &upholi::encryption::symmetric::generate_key();

    let encrypted_data = encrypt_slice(key, bytes).unwrap();

    assert!(encrypted_data.nonce.len() > 0);
    assert!(encrypted_data.bytes.len() >= bytes.len());
}

#[test]
fn mod_encrypt_decrypt() {
    let bytes = b"some kind of message";
    let key = &upholi::encryption::symmetric::generate_key();

    let encrypted_data = encrypt_slice(key, bytes).unwrap();
    let decrypted_data = decrypt_slice(key, &encrypted_data.nonce.as_bytes(), &encrypted_data.bytes).unwrap();

    assert_eq!(decrypted_data, bytes);
}

#[test]
fn generate_string() {
    let length = 32;
    let key = upholi::encryption::generate_string(length);

    assert_eq!(key.len(), length);
}

#[test]
fn encrypt_slice_wrong_key_length() {
    assert_eq!(encrypt_slice(b"short", b"data").err(), Some(Error::InvalidKeyLength));
}

#[test]
fn encrypt_adds_tag_and_is_deterministic_for_a_nonce() {
    let key = b"e0ca4c29d5504e8d";
    let nonce = b"452b4dd698de";
    let a = encrypt_slice_with_nonce(key, nonce, b"message").unwrap();
    let b = encrypt_slice_with_nonce(key, nonce, b"message").unwrap();
    assert_eq!(a.bytes, b.bytes);
    assert_eq!(a.bytes.len(), 7 + 16);
    assert_eq!(a.nonce, "452b4dd698de");
}

#[test]
fn decrypt_with_wrong_nonce_length() {
    let key = b"e0ca4c29d5504e8d";
    assert_eq!(aes128::decrypt(key, b"short", b"whatever bytes").err(), Some(Error::InvalidNonceLength));
}

#[test]
fn decrypt_tampered_fails() {
    let key = b"e0ca4c29d5504e8d";
    let nonce = b"452b4dd698de";
    let mut encrypted = aes128::encrypt(key, nonce, b"message").unwrap();
    encrypted[0] ^= 1;
    assert_eq!(aes128::decrypt(key, nonce, &encrypted).err(), Some(Error::DecryptionFailed));
}

#[test]
fn nonce_is_alphanumeric() {
    let nonce = aes128::generate_nonce();
    assert!(nonce.iter().all(|b| b.is_ascii_alphanumeric()));
}

#[test]
fn decrypt_shorter_than_tag_fails() {
    let key = b"e0ca4c29d5504e8d";
    let nonce = b"452b4dd698de";
    assert_eq!(decrypt_slice(key, nonce, b"short").err(), Some(Error::DecryptionFailed));
    assert_eq!(decrypt_slice(key, nonce, b"").err(), Some(Error::DecryptionFailed));
}
