//! The entities the server stores encrypted for a user, as the client sees
//! them once decrypted, and what it shows of them.

use vstd::prelude::*;
use crate::library::copy_strings;
use crate::models::opt_text;
use crate::text::{same_text, string_views};
use crate::encryption::aes128::{KEY_LENGTH, MAX_MESSAGE_LENGTH, TAG_LENGTH};
use crate::encryption::bytes_result;
use crate::encoding::base64_fits;
use crate::error::Error;
use crate::hashing::{compute_sha256_hash, sha256_hex};
use crate::items::decrypted_item;
use crate::models::TextItem;

verus! {

/// An entity's id with its key, in base64.
#[derive(Debug, Clone, PartialEq, Eq)]
pub struct EntityKey {
    pub id: String,
    pub key: String,
}

/// The data of an album.
#[derive(Debug, Clone, PartialEq, Eq)]
pub struct AlbumData {
    pub title: String,
    pub tags: Vec<String>,
    pub photos: Vec<String>,
    pub thumbnail_photo_id: Option<String>,
}

/// An album as the client's pages are given it.
#[derive(Debug, Clone, PartialEq, Eq)]
pub struct JsAlbum {
    pub id: String,
    pub title: String,
    pub tags: Vec<String>,
    pub photos: Vec<String>,
    pub thumbnail_photo_id: Option<String>,
}

/// What a share of an album gives access to: the album's id and key and the
/// keys of its photos.
#[derive(Debug, Clone, PartialEq, Eq)]
pub struct AlbumShareData {
    pub album_id: String,
    pub album_key: Vec<u8>,
    pub photos: Vec<EntityKey>,
}

/// What a share gives access to.
#[derive(Debug, Clone, PartialEq, Eq)]
pub enum ShareData {
    Album(AlbumShareData),
}

/// What the client's pages are shown of an album's share.
#[derive(Debug, Clone, PartialEq, Eq)]
pub struct JsAlbumShareData {
    pub album_id: String,
}

/// What the client's pages are shown of a share.
#[derive(Debug, Clone, PartialEq, Eq)]
pub enum JsShareData {
    Album(JsAlbumShareData),
}

/// A photo's id and dimensions.
#[derive(Debug, Clone, PartialEq, Eq)]
pub struct PhotoMinimal {
    pub id: String,
    pub width: u32,
    pub height: u32,
}

/// A request for an entity, with proof of knowing its key where the
/// requester is not its owner.
#[derive(Debug, Clone, PartialEq, Eq)]
pub struct FindEntity {
    pub id: String,
    pub key_hash: Option<String>,
}

impl JsAlbum {
    /// The album with the given id and data.
    pub fn from_data(id: &str, data: &AlbumData) -> (r: JsAlbum)
        ensures
            r.id@ == id@,
            r.title@ == data.title@,
            string_views(r.tags@) == string_views(data.tags@),
            string_views(r.photos@) == string_views(data.photos@),
            opt_text(r.thumbnail_photo_id) == opt_text(data.thumbnail_photo_id),
    {
        let thumbnail_photo_id = match &data.thumbnail_photo_id {
            Some(t) => Some(t.clone()),
            None => None,
        };
        JsAlbum {
            id: String::from_str(id),
            title: data.title.clone(),
            tags: copy_strings(&data.tags),
            photos: copy_strings(&data.photos),
            thumbnail_photo_id,
        }
    }
}

impl JsShareData {
    /// What the client's pages are shown of a share: the id of its album.
    pub fn from(data: &ShareData) -> (r: JsShareData)
        ensures
            match (r, *data) {
                (JsShareData::Album(js), ShareData::Album(album)) => js.album_id@ == album.album_id@,
            },
    {
        match data {
            ShareData::Album(album_data) => JsShareData::Album(JsAlbumShareData { album_id: album_data.album_id.clone() }),
        }
    }
}

/// An entity's key encrypted for one holder, found by the holder's name.
#[derive(Debug, Clone, PartialEq, Eq)]
pub struct EncryptedKeyInfo {
    pub name: String,
    pub encrypted_key: TextItem,
}

/// The first of the keys with the given name.
pub open spec fn key_named(keys: Seq<EncryptedKeyInfo>, name: Seq<char>) -> Option<EncryptedKeyInfo> {
    if exists|i: int| 0 <= i < keys.len() && (#[trigger] keys[i]).name@ == name {
        let i = choose|i: int|
            0 <= i < keys.len() && (#[trigger] keys[i]).name@ == name && forall|j: int| 0 <= j < i ==> keys[j].name@ != name;
        Some(keys[i])
    } else {
        None
    }
}

/// What decrypting an entity's key gives: the key encrypted under the given
/// name, decrypted with the holder's key; [`Error::NotFound`] where no key
/// has the name.
pub open spec fn entity_key_of(keys: Seq<EncryptedKeyInfo>, name: Seq<char>, holder_key: Seq<u8>) -> Result<Seq<u8>, Error> {
    match key_named(keys, name) {
        Some(k) => decrypted_item(holder_key, k.encrypted_key.base64@, k.encrypted_key.nonce@),
        None => Err(Error::NotFound),
    }
}

/// Decrypts an entity's key for the holder with the given name.
pub fn decrypt_entity_key(keys: &Vec<EncryptedKeyInfo>, name: &str, holder_key: &[u8]) -> (r: Result<Vec<u8>, Error>)
    ensures
        bytes_result(r) == entity_key_of(keys@, name@, holder_key@),
{
    let mut i: usize = 0;
    while i < keys.len()
        invariant
            i <= keys@.len(),
            forall|j: int| 0 <= j < i ==> (#[trigger] keys@[j]).name@ != name@,
        decreases keys@.len() - i,
    {
        if same_text(keys[i].name.as_str(), name) {
            proof {
                let k = choose|k: int|
                    0 <= k < keys@.len() && (#[trigger] keys@[k]).name@ == name@ && forall|j: int| 0 <= j < k ==> keys@[j].name@ != name@;
                if k < i {
                    assert(keys@[k].name@ != name@);
                } else if k > i {
                    assert(keys@[i as int].name@ != name@);
                }
            }
            return keys[i].encrypted_key.decrypt(holder_key);
        }
        i = i + 1;
    }
    Err(Error::NotFound)
}

/// What decrypting an entity's data gives: the data decrypted with the
/// entity's key, itself decrypted for the holder with the given name.
pub open spec fn entity_data_of(keys: Seq<EncryptedKeyInfo>, name: Seq<char>, holder_key: Seq<u8>, data: TextItem) -> Result<Seq<u8>, Error> {
    match entity_key_of(keys, name, holder_key) {
        Ok(k) => decrypted_item(k, data.base64@, data.nonce@),
        Err(e) => Err(e),
    }
}

/// Decrypts an entity's data (its serialized form) for the holder with the
/// given name.
pub fn decrypt_entity_data(keys: &Vec<EncryptedKeyInfo>, name: &str, holder_key: &[u8], data: &TextItem) -> (r: Result<Vec<u8>, Error>)
    ensures
        bytes_result(r) == entity_data_of(keys@, name@, holder_key@, *data),
{
    let key = match decrypt_entity_key(keys, name, holder_key) {
        Ok(k) => k,
        Err(e) => return Err(e),
    };
    data.decrypt(key.as_slice())
}

/// An album's update as it is sent to the server: its data encrypted with
/// the album's key, its keys as they were, and the hash of its key.
#[derive(Debug, Clone, PartialEq, Eq)]
pub struct AlbumUpdateRequest {
    pub data: TextItem,
    pub keys: Vec<EncryptedKeyInfo>,
    pub key_hash: String,
}

/// The update of an album whose keys are `keys`, with its data (serialized)
/// encrypted under the album's key, which the holder with the given name
/// decrypts. Fails when the album's key cannot be had, or does not have the
/// cipher's length, or the data is too long to encrypt.
pub fn album_update_request(keys: Vec<EncryptedKeyInfo>, name: &str, holder_key: &[u8], data: &[u8]) -> (r: Result<AlbumUpdateRequest, Error>)
    requires
        base64_fits(data@.len() + TAG_LENGTH),
    ensures
        match entity_key_of(keys@, name@, holder_key@) {
            Err(e) => r == Err::<AlbumUpdateRequest, Error>(e),
            Ok(k) => {
                &&& (r is Ok <==> k.len() == KEY_LENGTH && data@.len() <= MAX_MESSAGE_LENGTH)
                &&& k.len() != KEY_LENGTH ==> r == Err::<AlbumUpdateRequest, Error>(Error::InvalidKeyLength)
                &&& k.len() == KEY_LENGTH && data@.len() > MAX_MESSAGE_LENGTH ==> r == Err::<AlbumUpdateRequest, Error>(Error::EncryptionFailed)
                &&& r matches Ok(u) ==> {
                    &&& decrypted_item(k, u.data.base64@, u.data.nonce@) == Ok::<Seq<u8>, Error>(data@)
                    &&& u.keys@ == keys@
                    &&& u.key_hash@ == sha256_hex(k)
                }
            },
        },
{
    let album_key = match decrypt_entity_key(&keys, name, holder_key) {
        Ok(k) => k,
        Err(e) => return Err(e),
    };
    let item = match TextItem::from(album_key.as_slice(), data) {
        Ok(t) => t,
        Err(e) => return Err(e),
    };
    let key_hash = compute_sha256_hash(album_key.as_slice());
    Ok(AlbumUpdateRequest { data: item, keys, key_hash })
}

} // verus!
