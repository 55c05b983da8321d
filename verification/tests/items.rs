use upholi::encryption::symmetric::generate_key;
use upholi::error::Error;
use upholi::models::TextItem;

#[test]
fn encrypt_decrypt_text_item_bytes() {
    let key = generate_key();
    let json = serde_json::to_vec(&key).unwrap();
    let item = TextItem::from(&key, &json).unwrap();
    let decrypted: Vec<u8> = serde_json::from_slice(&item.decrypt(&key).unwrap()).unwrap();

    assert_eq!(key, decrypted);
}

#[test]
fn encrypt_decrypt_text_item_instance() {
    let key = generate_key();
    let library = upholi::models::Library::default();
    let json = br#"{"item_keys":[],"photos":[],"albums":[],"shares":[]}"#;
    let item = TextItem::from(&key, json).unwrap();
    let decrypted: serde_json::Value = serde_json::from_slice(&item.decrypt(&key).unwrap()).unwrap();

    assert_eq!(library.photos.len(), decrypted["photos"].as_array().unwrap().len());
    assert_eq!(library.item_keys.len(), decrypted["item_keys"].as_array().unwrap().len());
}

#[test]
fn text_item_has_empty_key_and_ascii_nonce() {
    let key = generate_key();
    let item = TextItem::from(&key, b"data").unwrap();
    assert!(item.key.is_empty());
    assert_eq!(item.nonce.len(), 12);
    assert!(item.nonce.chars().all(|c| c.is_ascii_alphanumeric()));
}

#[test]
fn text_item_wrong_key() {
    let key = generate_key();
    let other = b"ffffffffffffffff".to_vec();
    let item = TextItem::from(&key, b"data").unwrap();
    assert_eq!(item.decrypt(&other).err(), Some(Error::DecryptionFailed));
    assert_eq!(TextItem::from(b"short", b"data").err(), Some(Error::InvalidKeyLength));
}

#[test]
fn text_item_bad_base64() {
    let key = generate_key();
    let item = TextItem { key: String::new(), base64: "***".to_string(), nonce: "452b4dd698de".to_string() };
    assert_eq!(item.decrypt(&key).err(), Some(Error::InvalidBase64));
}
