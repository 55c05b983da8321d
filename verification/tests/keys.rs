use upholi::encryption::symmetric::derive_key_from_string;
use upholi::encoding::{decode_base64, encode_base64};
use upholi::error::Error;
use upholi::hashing::{compute_md5_hash, compute_sha256_hash};
use upholi::keys::{
    get_key_from_user_credentials, get_master_key, get_share_key, get_storage_key_for_share, set_master_key, set_share_key,
    KeyStore, LocalStorage,
};

#[test]
fn keys_get_key_from_user_credentials_consistency() {
    let username = "username";
    let password = "password";

    let key_base = get_key_from_user_credentials(username, password).unwrap();

    // Identical credentials should give same key
    let key = get_key_from_user_credentials(username, password).unwrap();
    assert_eq!(key_base, key);

    // Any change in credentials should give a different key
    let key = get_key_from_user_credentials(username, "other_password").unwrap();
    assert_ne!(key_base, key);
    let key = get_key_from_user_credentials("other_username", password).unwrap();
    assert_ne!(key_base, key);
}

#[test]
fn keys_get_key_from_user_credentials_bad_input() {
    assert!(get_key_from_user_credentials("username", "").is_err());
    assert!(get_key_from_user_credentials("", "password").is_err());
    assert!(get_key_from_user_credentials("", "").is_err());
}

#[test]
fn credentials_errors_name_the_empty_field() {
    assert_eq!(get_key_from_user_credentials("", "password").err(), Some(Error::UsernameEmpty));
    assert_eq!(get_key_from_user_credentials("username", "").err(), Some(Error::PasswordEmpty));
}

#[test]
fn master_key_survives_reload() {
    let mut store = KeyStore::load(LocalStorage::new()).unwrap();
    assert!(get_master_key(&store).is_empty());
    let key = b"0123456789abcdef".to_vec();
    set_master_key(&mut store, &key);
    assert_eq!(get_master_key(&store), key);
    let storage = store.storage().duplicate();
    let reloaded = KeyStore::load(storage).unwrap();
    assert_eq!(get_master_key(&reloaded), key);
}

#[test]
fn share_key_read_after_write() {
    let mut store = KeyStore::load(LocalStorage::new()).unwrap();
    assert_eq!(get_share_key(&store, "abc").unwrap(), None);
    set_share_key(&mut store, "abc", b"0123456789abcdef").unwrap();
    assert_eq!(get_share_key(&store, "abc").unwrap(), Some(b"0123456789abcdef".to_vec()));
    assert_eq!(get_share_key(&store, "other").unwrap(), None);
}

#[test]
fn share_storage_key_format() {
    assert_eq!(get_storage_key_for_share("abc"), "share-key-abc");
}

#[test]
fn base64_roundtrip_and_known_value() {
    assert_eq!(encode_base64(b"message"), "bWVzc2FnZQ==");
    assert_eq!(decode_base64("bWVzc2FnZQ=="), Some(b"message".to_vec()));
    assert_eq!(decode_base64("not base64!"), None);
}

#[test]
fn sha256_and_md5_hex() {
    assert_eq!(compute_sha256_hash(b"abc"), "ba7816bf8f01cfea414140de5dae2223b00361a396177a9cb410ff61f20015ad");
    assert_eq!(compute_md5_hash(b"abc"), "900150983cd24fb0d6963f7d28e17f72");
}

#[test]
fn password_hash_is_pbkdf2_phc() {
    let phc = upholi::passwords::hash_password("password", "c2FsdHNhbHRzYWx0").unwrap();
    assert!(phc.starts_with("$pbkdf2-sha512$i=10000,l=32$"));
    assert!(upholi::passwords::verify_password_hash("password", &phc));
    assert!(!upholi::passwords::verify_password_hash("other", &phc));
    assert!(!upholi::passwords::verify_password_hash("password", "not a phc string"));
    let hash = upholi::passwords::get_hash_from_phc(&phc).unwrap();
    assert_eq!(hash, phc.rsplit('$').next().unwrap());
    assert_eq!(upholi::passwords::get_hash_from_phc("no dollar").err(), Some(Error::InvalidPasswordHash));
    assert_eq!(upholi::passwords::hash_password("password", "bad_salt!").err(), Some(Error::PasswordHashFailed));
}

#[test]
fn password_hash_with_salt_text() {
    let a = upholi::passwords::hash_password_with_salt("password", "salt_01234567890").unwrap();
    let b = upholi::passwords::hash_password_with_salt("password", "salt_01234567890").unwrap();
    assert_eq!(a, b);
    assert!(upholi::passwords::verify_password_hash("password", &a));
    let c = upholi::passwords::hash_password_with_salt("password", "salt_01234567891").unwrap();
    assert_ne!(a, c);
}

#[test]
fn derivation_salts() {
    assert_eq!(derive_key_from_string("password", "").err(), Some(Error::PasswordHashFailed));
    assert_eq!(derive_key_from_string("password", "ab").err(), Some(Error::PasswordHashFailed));
    assert_eq!(derive_key_from_string("password", "abc").unwrap().len(), 16);
    assert_eq!(derive_key_from_string("password", &"x".repeat(48)).unwrap().len(), 16);
    assert_eq!(derive_key_from_string("password", &"_".repeat(49)).err(), Some(Error::PasswordHashFailed));
    // A salt of base64 characters in whole groups of four is taken as it is.
    let hash = compute_sha256_hash(b"username");
    assert_eq!(derive_key_from_string("password", &hash).unwrap().len(), 16);
    let phc = upholi::passwords::hash_password_with_salt("password", &hash).unwrap();
    assert_eq!(phc, upholi::passwords::hash_password("password", &hash).unwrap());
    assert!(phc.starts_with("$pbkdf2-sha512$"));
}

#[test]
fn credential_keys_use_one_derivation() {
    let helper = upholi::client_helper::get_key_from_user_credentials("username", "password").unwrap();
    let hash = compute_sha256_hash(b"username");
    assert_eq!(helper, derive_key_from_string("password", &hash).unwrap());
    let keys = get_key_from_user_credentials("username", "password").unwrap();
    assert_eq!(keys, derive_key_from_string("password", &hash[..20]).unwrap());
}

#[test]
fn non_phc_text_never_verifies() {
    assert!(!upholi::passwords::verify_password_hash("password", ""));
    assert!(!upholi::passwords::verify_password_hash("password", "pbkdf2-sha512$i=1"));
}
