use upholi::client_helper::{
    album_from_share, album_full, create_album_request, create_share, decode_share_photo_keys, decrypt_share_using_password,
    decrypt_share_with_owner_key, get_key_from_user_credentials, get_upload_photo_request_data, share_photo_proofs,
    EncryptedShare,
};
use upholi::encoding::encode_base64;
use upholi::entities::{AlbumData, EntityKey, JsAlbum, JsShareData, PhotoMinimal, ShareData, AlbumShareData};
use upholi::error::Error;
use upholi::hashing::compute_sha256_hash;
use upholi::shares::get_identifier_hash;
use upholi::entities::{album_update_request, decrypt_entity_data, decrypt_entity_key, EncryptedKeyInfo};
use upholi::models::TextItem;

#[test]
fn helper_get_key_from_user_credentials_consistency() {
    let username = "username";
    let password = "password";

    let key_base = get_key_from_user_credentials(username, password).unwrap();

    // Identical credentials should give same key
    let key = get_key_from_user_credentials(username, password).unwrap();
    assert_eq!(key_base, key);

    // Any change in credentials should give a different key
    let key = get_key_from_user_credentials(username, "other_password").unwrap();
    assert_ne!(key_base, key);
    let key = get_key_from_user_credentials("other_username", password).unwrap();
    assert_ne!(key_base, key);
}

#[test]
fn helper_get_key_from_user_credentials_bad_input() {
    assert!(get_key_from_user_credentials("username", "").is_err());
    assert!(get_key_from_user_credentials("", "password").is_err());
    assert!(get_key_from_user_credentials("", "").is_err());
}

fn share_data_json(album_id: &str, album_key: &[u8], photos: &[EntityKey]) -> Vec<u8> {
    let photos: Vec<serde_json::Value> = photos
        .iter()
        .map(|p| {
            let mut m = serde_json::Map::new();
            m.insert("id".to_string(), serde_json::Value::String(p.id.clone()));
            m.insert("key".to_string(), serde_json::Value::String(p.key.clone()));
            serde_json::Value::Object(m)
        })
        .collect();
    let mut data = serde_json::Map::new();
    data.insert("albumId".to_string(), serde_json::Value::String(album_id.to_string()));
    data.insert("albumKey".to_string(), serde_json::to_value(album_key.to_vec()).unwrap());
    data.insert("photos".to_string(), serde_json::Value::Array(photos));
    let mut share = serde_json::Map::new();
    share.insert("album".to_string(), serde_json::Value::Object(data));
    serde_json::to_vec(&serde_json::Value::Object(share)).unwrap()
}

#[test]
fn create_and_decrypt_album_share() {
    let user_private_key = get_key_from_user_credentials("username", "password").unwrap();
    let album_key = get_key_from_user_credentials("album", "key").unwrap();
    let share_password = "password";
    let album_id = "abc123";
    let album_photos: Vec<EntityKey> = vec![EntityKey { id: String::from("_id"), key: String::from("_key") }];

    let share_data = ShareData::Album(AlbumShareData {
        album_id: album_id.to_string(),
        album_key: album_key.clone(),
        photos: album_photos.clone(),
    });
    let ShareData::Album(ref data) = share_data;
    let json = share_data_json(&data.album_id, &data.album_key, &data.photos);
    let encrypted_share = create_share(&user_private_key, album_id, share_password, &json).unwrap();

    // Convert the encryped share to the type the server will send in response.
    let http_response_share = EncryptedShare {
        id: String::from("id"),
        identifier_hash: encrypted_share.identifier_hash,
        data: encrypted_share.data,
        key: encrypted_share.key,
        password: encrypted_share.password,
    };

    let decrypted_share = decrypt_share_using_password(&http_response_share, share_password).unwrap();
    let value: serde_json::Value = serde_json::from_slice(&decrypted_share.data).unwrap();

    // Share data type should still be an album
    let album = &value["album"];
    assert_eq!(album["albumId"], album_id);
    let decrypted_key: Vec<u8> = serde_json::from_value(album["albumKey"].clone()).unwrap();
    assert_eq!(decrypted_key, album_key);
    let photos = album["photos"].as_array().unwrap();
    assert_eq!(photos.len(), album_photos.len());

    let matching_elements_count = photos
        .iter()
        .zip(album_photos.iter())
        .filter(|&(pre, post)| pre["id"] == post.id.as_str() && pre["key"] == post.key.as_str())
        .count();
    assert_eq!(photos.len(), matching_elements_count);
}

#[test]
fn share_opens_with_owner_key_and_password() {
    let owner = get_key_from_user_credentials("username", "password").unwrap();
    let request = create_share(&owner, "abc123", "pw", b"payload").unwrap();
    assert_eq!(request.identifier_hash, get_identifier_hash("abc123"));
    assert_eq!(request.identifier_hash, compute_sha256_hash(b"album:abc123"));
    let stored = EncryptedShare {
        id: "s".to_string(),
        identifier_hash: request.identifier_hash.clone(),
        password: request.password.clone(),
        data: request.data.clone(),
        key: request.key.clone(),
    };
    let by_owner = decrypt_share_with_owner_key(&stored, &owner).unwrap();
    assert_eq!(by_owner.data, b"payload".to_vec());
    assert_eq!(by_owner.password, "pw");
    assert!(decrypt_share_using_password(&stored, "wrong").is_err());
    assert_eq!(create_share(b"short", "abc123", "pw", b"payload").err(), Some(Error::InvalidKeyLength));
}

#[test]
fn upload_request_holds_key_and_data() {
    let owner = get_key_from_user_credentials("username", "password").unwrap();
    let request = get_upload_photo_request_data(&owner, "hash", 10, 20, b"{\"w\":10}").unwrap();
    assert_eq!(request.hash, "hash");
    assert_eq!((request.width, request.height), (10, 20));
    assert!(request.thumbnail_nonce.is_empty() && request.preview_nonce.is_empty() && request.original_nonce.is_empty());
    let key = request.key.decrypt(&owner).unwrap();
    assert_eq!(key.len(), 16);
    assert_eq!(request.key_hash, compute_sha256_hash(&key));
    assert_eq!(request.data.decrypt(&key).unwrap(), b"{\"w\":10}".to_vec());

    let album = create_album_request(&owner, b"{}").unwrap();
    let album_key = album.key.decrypt(&owner).unwrap();
    assert_eq!(album.key_hash, compute_sha256_hash(&album_key));
    assert_eq!(album.data.decrypt(&album_key).unwrap(), b"{}".to_vec());
}

fn album_data(photos: &[&str], thumbnail: Option<&str>) -> AlbumData {
    AlbumData {
        title: "Title".to_string(),
        tags: vec!["tag".to_string()],
        photos: photos.iter().map(|p| p.to_string()).collect(),
        thumbnail_photo_id: thumbnail.map(|t| t.to_string()),
    }
}

fn minimal(id: &str) -> PhotoMinimal {
    PhotoMinimal { id: id.to_string(), width: 3, height: 4 }
}

#[test]
fn album_full_shows_album_photos() {
    let data = album_data(&["b", "a"], Some("a"));
    let full = album_full("album", &data, &vec![minimal("a"), minimal("x"), minimal("b")]).unwrap();
    assert_eq!(full.id, "album");
    let ids: Vec<&str> = full.photos.iter().map(|p| p.id.as_str()).collect();
    assert_eq!(ids, vec!["a", "b"]);
    assert_eq!(full.thumbnail_photo.unwrap().id, "a");
    assert_eq!(album_full("album", &album_data(&["a"], Some("gone")), &vec![minimal("a")]).err(), Some(Error::NotFound));
}

#[test]
fn album_from_share_gives_keys() {
    let photos = vec![
        EntityKey { id: "a".to_string(), key: encode_base64(b"key-a") },
        EntityKey { id: "b".to_string(), key: encode_base64(b"key-b") },
    ];
    let keys = decode_share_photo_keys(&photos).unwrap();
    assert_eq!(keys[0].key, b"key-a".to_vec());
    let proofs = share_photo_proofs(&keys);
    assert_eq!(proofs[1].id, "b");
    assert_eq!(proofs[1].key_hash, Some(compute_sha256_hash(b"key-b")));
    let album = album_from_share("album", &album_data(&["a", "b"], Some("b")), &keys, &vec![minimal("a"), minimal("b"), minimal("c")]).unwrap();
    assert_eq!(album.photos.len(), 3);
    assert_eq!(album.photos[0].key, Some(encode_base64(b"key-a")));
    assert_eq!(album.photos[2].key, None);
    assert_eq!(album.thumbnail_photo.unwrap().key, Some(encode_base64(b"key-b")));
    let bad = vec![EntityKey { id: "a".to_string(), key: "%%%".to_string() }];
    assert_eq!(decode_share_photo_keys(&bad).err(), Some(Error::InvalidBase64));
}

#[test]
fn entities_views() {
    let data = album_data(&["p"], None);
    let js = JsAlbum::from_data("id", &data);
    assert_eq!(js.id, "id");
    assert_eq!(js.photos, vec!["p".to_string()]);
    let share = ShareData::Album(AlbumShareData { album_id: "al".to_string(), album_key: vec![1], photos: vec![] });
    match JsShareData::from(&share) {
        JsShareData::Album(a) => assert_eq!(a.album_id, "al"),
    }
}

#[test]
fn entity_keys_by_holder_name() {
    let owner = b"ownerownerowner0".to_vec();
    let entity_key = b"entityentityent0".to_vec();
    let keys = vec![
        EncryptedKeyInfo { name: "share".to_string(), encrypted_key: TextItem::from(b"otherotherother0", &entity_key).unwrap() },
        EncryptedKeyInfo { name: "owner".to_string(), encrypted_key: TextItem::from(&owner, &entity_key).unwrap() },
    ];
    assert_eq!(decrypt_entity_key(&keys, "owner", &owner).unwrap(), entity_key);
    assert_eq!(decrypt_entity_key(&keys, "nobody", &owner).err(), Some(Error::NotFound));
    let data = TextItem::from(&entity_key, b"{\"title\":\"x\"}").unwrap();
    assert_eq!(decrypt_entity_data(&keys, "owner", &owner, &data).unwrap(), b"{\"title\":\"x\"}".to_vec());
    assert_eq!(decrypt_entity_data(&keys, "share", &owner, &data).err(), Some(Error::DecryptionFailed));
}

#[test]
fn album_update_encrypts_with_album_key() {
    let owner = b"ownerownerowner0".to_vec();
    let album_key = b"albumalbumalbum0".to_vec();
    let keys = vec![EncryptedKeyInfo { name: "owner".to_string(), encrypted_key: TextItem::from(&owner, &album_key).unwrap() }];
    let data = b"{\"title\":\"Holiday\"}".to_vec();
    let request = album_update_request(keys.clone(), "owner", &owner, &data).unwrap();
    assert_eq!(request.keys, keys);
    assert_eq!(request.key_hash, compute_sha256_hash(&album_key));
    assert_eq!(request.data.decrypt(&album_key).unwrap(), data);
    assert_eq!(album_update_request(keys.clone(), "viewer", &owner, &data).err(), Some(Error::NotFound));
    assert_eq!(album_update_request(keys, "owner", b"wrongwrongwrong0", &data).err(), Some(Error::DecryptionFailed));
}
