//! The client's requests that carry encrypted entities: the key derived from
//! a user's credentials, shares protected by a password, uploaded photos and
//! created albums, and albums shown from their data or through a share.

use vstd::prelude::*;
use vstd::string::*;
use vstd::utf8::*;
use crate::albums::{album_photo_views, expand, expand_album, expanded_view, first_photo_with_id};
use crate::encoding::{base64_encode, base64_fits, decode_base64, encode_base64, spec_decode_base64};
use crate::encryption::aes128::{spec_derive_key, KEY_LENGTH, MAX_MESSAGE_LENGTH, TAG_LENGTH};
use crate::encryption::bytes_result;
use crate::encryption::symmetric::{derive_key_from_string, generate_key};
use crate::passwords::lemma_hex_salt_usable;
use crate::entities::{AlbumData, EntityKey, FindEntity, PhotoMinimal};
use crate::error::Error;
use crate::hashing::{compute_sha256_hash, sha256_hex};
use crate::items::decrypted_item;
use crate::library::lemma_filter_keeps_all;
use crate::models::{AlbumExpanded, AlbumExpandedView, AlbumPhoto, AlbumPhotoView, ItemKey, ItemKeyView, TextItem, opt_text};
use crate::shares::{get_identifier_hash, identifier_hash_of};
use crate::text::{same_text, string_from_utf8, string_views};

verus! {

broadcast use vstd::seq_lib::group_seq_properties;

/// What [`get_key_from_user_credentials`] gives: an error for an empty
/// username or password, else the key derived from the password with the
/// hexadecimal SHA-256 hash of the username as salt.
pub open spec fn credentials_key(username: Seq<char>, password: Seq<char>) -> Result<Seq<u8>, Error> {
    if username.len() == 0 {
        Err(Error::UsernameEmpty)
    } else if password.len() == 0 {
        Err(Error::PasswordEmpty)
    } else {
        spec_derive_key(password, sha256_hex(encode_utf8(username)))
    }
}

/// Derives a symmetric encryption key from a user's credentials; it succeeds
/// exactly when neither is empty.
pub fn get_key_from_user_credentials(username: &str, password: &str) -> (r: Result<Vec<u8>, Error>)
    ensures
        bytes_result(r) == credentials_key(username@, password@),
        r is Ok <==> username@.len() > 0 && password@.len() > 0,
        r matches Ok(key) ==> key@.len() == KEY_LENGTH,
{
    if username.is_empty() {
        Err(Error::UsernameEmpty)
    } else if password.is_empty() {
        Err(Error::PasswordEmpty)
    } else {
        let salt = compute_sha256_hash(username.as_bytes());
        proof {
            lemma_hex_salt_usable(salt@);
        }
        derive_key_from_string(password, salt.as_str())
    }
}

/// A share as it is sent to the server: the hash identifying what it
/// shares, and its password, data and key, each encrypted.
#[derive(Debug, Clone, PartialEq, Eq)]
pub struct UpsertShareRequest {
    pub identifier_hash: String,
    pub password: TextItem,
    pub data: TextItem,
    pub key: TextItem,
}

/// A share as the server keeps it.
#[derive(Debug, Clone, PartialEq, Eq)]
pub struct EncryptedShare {
    pub id: String,
    pub identifier_hash: String,
    pub password: TextItem,
    pub data: TextItem,
    pub key: TextItem,
}

/// A share decrypted: its data and its password.
#[derive(Debug, Clone, PartialEq, Eq)]
pub struct DecryptedShare {
    pub data: Vec<u8>,
    pub password: String,
}

/// Whether an item decrypts, with the key, to the bytes.
pub open spec fn holds(item: TextItem, key: Seq<u8>, bytes: Seq<u8>) -> bool {
    decrypted_item(key, item.base64@, item.nonce@) == Ok::<Seq<u8>, Error>(bytes)
}

/// Whether a share request protects `data` for the album with `password`:
/// its identifier hash is the album's, the key derived from the password
/// with it as salt decrypts the data and the password, and the owner's key
/// decrypts the share's key.
pub open spec fn share_request_holds(
    request: UpsertShareRequest,
    owner_key: Seq<u8>,
    album_id: Seq<char>,
    password: Seq<char>,
    data: Seq<u8>,
) -> bool {
    &&& request.identifier_hash@ == identifier_hash_of(album_id)
    &&& spec_derive_key(password, identifier_hash_of(album_id)) matches Ok(k)
    &&& holds(request.key, owner_key, k)
    &&& holds(request.data, k, data)
    &&& holds(request.password, k, encode_utf8(password))
}

/// Creates the request for a share of an album: its data and password are
/// encrypted with a key derived from the password, salted with the album's
/// identifier hash, and that key is encrypted with the owner's key. Fails
/// when the key cannot be derived or a part cannot be encrypted.
pub fn create_share(owner_key: &[u8], album_id: &str, password: &str, data: &[u8]) -> (r: Result<UpsertShareRequest, Error>)
    requires
        base64_fits(data@.len() + TAG_LENGTH),
        base64_fits(encode_utf8(password@).len() + TAG_LENGTH),
    ensures
        r is Ok <==> {
            &&& owner_key@.len() == KEY_LENGTH
            &&& data@.len() <= MAX_MESSAGE_LENGTH
            &&& encode_utf8(password@).len() <= MAX_MESSAGE_LENGTH
        },
        owner_key@.len() != KEY_LENGTH ==> r == Err::<UpsertShareRequest, Error>(Error::InvalidKeyLength),
        owner_key@.len() == KEY_LENGTH && r is Err ==> r == Err::<UpsertShareRequest, Error>(Error::EncryptionFailed),
        r matches Ok(request) ==> share_request_holds(request, owner_key@, album_id@, password@, data@),
{
    let identifier_hash = get_identifier_hash(album_id);
    proof {
        lemma_hex_salt_usable(identifier_hash@);
    }
    let share_key = match derive_key_from_string(password, identifier_hash.as_str()) {
        Ok(k) => k,
        Err(e) => return Err(e),
    };
    let key = match TextItem::from(owner_key, share_key.as_slice()) {
        Ok(t) => t,
        Err(e) => return Err(e),
    };
    let data_item = match TextItem::from(share_key.as_slice(), data) {
        Ok(t) => t,
        Err(e) => return Err(e),
    };
    let password_item = match TextItem::from(share_key.as_slice(), password.as_bytes()) {
        Ok(t) => t,
        Err(e) => return Err(e),
    };
    Ok(UpsertShareRequest { identifier_hash, password: password_item, data: data_item, key })
}

/// What decrypting a share with its key gives: its data and its password,
/// or why that fails.
pub open spec fn share_with_key(share: EncryptedShare, key: Seq<u8>) -> Result<(Seq<u8>, Seq<char>), Error> {
    match decrypted_item(key, share.data.base64@, share.data.nonce@) {
        Err(e) => Err(e),
        Ok(data) => match decrypted_item(key, share.password.base64@, share.password.nonce@) {
            Err(e) => Err(e),
            Ok(p) => if valid_utf8(p) {
                Ok((data, decode_utf8(p)))
            } else {
                Err(Error::InvalidUtf8)
            },
        },
    }
}

/// What decrypting a share with a password gives.
pub open spec fn share_with_password(share: EncryptedShare, password: Seq<char>) -> Result<(Seq<u8>, Seq<char>), Error> {
    match spec_derive_key(password, share.identifier_hash@) {
        Err(e) => Err(e),
        Ok(k) => share_with_key(share, k),
    }
}

/// What decrypting a share with its owner's key gives.
pub open spec fn share_with_owner_key(share: EncryptedShare, owner_key: Seq<u8>) -> Result<(Seq<u8>, Seq<char>), Error> {
    match decrypted_item(owner_key, share.key.base64@, share.key.nonce@) {
        Err(e) => Err(e),
        Ok(k) => share_with_key(share, k),
    }
}

/// The view of a decrypted share result.
pub open spec fn decrypted_share_view(r: Result<DecryptedShare, Error>) -> Result<(Seq<u8>, Seq<char>), Error> {
    match r {
        Ok(s) => Ok((s.data@, s.password@)),
        Err(e) => Err(e),
    }
}

/// Decrypts a share's data and password with its key.
pub fn decrypt_share_with_key(share: &EncryptedShare, key: &[u8]) -> (r: Result<DecryptedShare, Error>)
    ensures
        decrypted_share_view(r) == share_with_key(*share, key@),
{
    let data = match share.data.decrypt(key) {
        Ok(d) => d,
        Err(e) => return Err(e),
    };
    let password_bytes = match share.password.decrypt(key) {
        Ok(p) => p,
        Err(e) => return Err(e),
    };
    match string_from_utf8(password_bytes) {
        Some(password) => Ok(DecryptedShare { data, password }),
        None => Err(Error::InvalidUtf8),
    }
}

/// Decrypts a share with the key derived from a password, salted with the
/// share's identifier hash.
pub fn decrypt_share_using_password(share: &EncryptedShare, password: &str) -> (r: Result<DecryptedShare, Error>)
    ensures
        decrypted_share_view(r) == share_with_password(*share, password@),
{
    let key = match derive_key_from_string(password, share.identifier_hash.as_str()) {
        Ok(k) => k,
        Err(e) => return Err(e),
    };
    decrypt_share_with_key(share, key.as_slice())
}

/// Decrypts a share with its owner's key.
pub fn decrypt_share_with_owner_key(share: &EncryptedShare, owner_key: &[u8]) -> (r: Result<DecryptedShare, Error>)
    ensures
        decrypted_share_view(r) == share_with_owner_key(*share, owner_key@),
{
    let key = match share.key.decrypt(owner_key) {
        Ok(k) => k,
        Err(e) => return Err(e),
    };
    decrypt_share_with_key(share, key.as_slice())
}

/// The share the server keeps for a request.
pub open spec fn stored_share(request: UpsertShareRequest, id: String) -> EncryptedShare {
    EncryptedShare {
        id,
        identifier_hash: request.identifier_hash,
        password: request.password,
        data: request.data,
        key: request.key,
    }
}

/// A share made for a password is opened by that password, and by its
/// owner's key, giving back its data and its password.
pub proof fn lemma_share_roundtrip(
    request: UpsertShareRequest,
    id: String,
    owner_key: Seq<u8>,
    album_id: Seq<char>,
    password: Seq<char>,
    data: Seq<u8>,
)
    requires
        share_request_holds(request, owner_key, album_id, password, data),
    ensures
        share_with_password(stored_share(request, id), password) == Ok::<(Seq<u8>, Seq<char>), Error>((data, password)),
        share_with_owner_key(stored_share(request, id), owner_key) == Ok::<(Seq<u8>, Seq<char>), Error>((data, password)),
{
    encode_utf8_valid_utf8(password);
    encode_utf8_decode_utf8(password);
}

/// A photo upload as it is sent to the server: the photo's hash and size,
/// its data encrypted with the photo's key, that key encrypted with the
/// owner's key, the key's hash, and the nonces of its files (set later).
#[derive(Debug, Clone, PartialEq, Eq)]
pub struct UploadPhotoRequest {
    pub hash: String,
    pub width: u32,
    pub height: u32,
    pub data: TextItem,
    pub key: TextItem,
    pub key_hash: String,
    pub thumbnail_nonce: String,
    pub preview_nonce: String,
    pub original_nonce: String,
}

/// Whether an entity's key, encrypted with the owner's key, and its data,
/// encrypted with the entity's key, hold `data`, and `key_hash` is the
/// hash of the entity's key.
pub open spec fn entity_holds(key: TextItem, key_hash: Seq<char>, data_item: TextItem, owner_key: Seq<u8>, data: Seq<u8>) -> bool {
    exists|k: Seq<u8>| {
        &&& k.len() == KEY_LENGTH
        &&& #[trigger] holds(key, owner_key, k)
        &&& key_hash == sha256_hex(k)
        &&& holds(data_item, k, data)
    }
}

/// A fresh key, the key encrypted with the owner's key, its hash, and the
/// data encrypted with it.
fn seal_entity(owner_key: &[u8], data: &[u8]) -> (r: Result<(TextItem, String, TextItem), Error>)
    requires
        base64_fits(data@.len() + TAG_LENGTH),
    ensures
        r is Ok <==> owner_key@.len() == KEY_LENGTH && data@.len() <= MAX_MESSAGE_LENGTH,
        r matches Ok((key, key_hash, item)) ==> entity_holds(key, key_hash@, item, owner_key@, data@),
        owner_key@.len() != KEY_LENGTH ==> r == Err::<(TextItem, String, TextItem), Error>(Error::InvalidKeyLength),
        owner_key@.len() == KEY_LENGTH && data@.len() > MAX_MESSAGE_LENGTH ==> r == Err::<(TextItem, String, TextItem), Error>(Error::EncryptionFailed),
{
    let entity_key = generate_key();
    let key_hash = compute_sha256_hash(entity_key.as_slice());
    let key = match TextItem::from(owner_key, entity_key.as_slice()) {
        Ok(t) => t,
        Err(e) => return Err(e),
    };
    let item = match TextItem::from(entity_key.as_slice(), data) {
        Ok(t) => t,
        Err(e) => return Err(e),
    };
    proof {
        assert(holds(key, owner_key@, entity_key@));
    }
    Ok((key, key_hash, item))
}

/// The request to upload a photo, with its data (serialized) encrypted under
/// a fresh key. Fails when the owner's key has the wrong length or the data
/// is too long to encrypt.
pub fn get_upload_photo_request_data(owner_key: &[u8], hash: &str, width: u32, height: u32, data: &[u8]) -> (r: Result<UploadPhotoRequest, Error>)
    requires
        base64_fits(data@.len() + TAG_LENGTH),
    ensures
        r is Ok <==> owner_key@.len() == KEY_LENGTH && data@.len() <= MAX_MESSAGE_LENGTH,
        r matches Ok(request) ==> {
            &&& request.hash@ == hash@
            &&& request.width == width
            &&& request.height == height
            &&& entity_holds(request.key, request.key_hash@, request.data, owner_key@, data@)
            &&& request.thumbnail_nonce@.len() == 0
            &&& request.preview_nonce@.len() == 0
            &&& request.original_nonce@.len() == 0
        },
{
    let (key, key_hash, item) = match seal_entity(owner_key, data) {
        Ok(x) => x,
        Err(e) => return Err(e),
    };
    Ok(UploadPhotoRequest {
        hash: String::from_str(hash),
        width,
        height,
        data: item,
        key,
        key_hash,
        thumbnail_nonce: String::new(),
        preview_nonce: String::new(),
        original_nonce: String::new(),
    })
}

/// An album as it is sent to the server when created.
#[derive(Debug, Clone, PartialEq, Eq)]
pub struct CreateAlbumRequest {
    pub data: TextItem,
    pub key: TextItem,
    pub key_hash: String,
}

/// The request to create an album, with its data (serialized) encrypted
/// under a fresh key.
pub fn create_album_request(owner_key: &[u8], data: &[u8]) -> (r: Result<CreateAlbumRequest, Error>)
    requires
        base64_fits(data@.len() + TAG_LENGTH),
    ensures
        r is Ok <==> owner_key@.len() == KEY_LENGTH && data@.len() <= MAX_MESSAGE_LENGTH,
        r matches Ok(request) ==> entity_holds(request.key, request.key_hash@, request.data, owner_key@, data@),
{
    let (key, key_hash, item) = match seal_entity(owner_key, data) {
        Ok(x) => x,
        Err(e) => return Err(e),
    };
    Ok(CreateAlbumRequest { data: item, key, key_hash })
}

/// The views of photos' ids and dimensions, shown without keys.
pub open spec fn minimal_views(photos: Seq<PhotoMinimal>) -> Seq<AlbumPhotoView> {
    photos.map_values(|p: PhotoMinimal| AlbumPhotoView { id: p.id@, width: p.width, height: p.height, key: None })
}

/// An owner's album with its photos' data, from the album's data and the
/// owner's photos: those in the album, and its cover. Fails when the cover
/// is none of the photos.
pub fn album_full(id: &str, data: &AlbumData, photos: &Vec<PhotoMinimal>) -> (r: Result<AlbumExpanded, Error>)
    ensures
        expanded_view(r) == expand_album(id@, data.title@, string_views(data.tags@), string_views(data.photos@), opt_text(data.thumbnail_photo_id), minimal_views(photos@)),
{
    let mut shown: Vec<AlbumPhoto> = Vec::new();
    let mut i: usize = 0;
    while i < photos.len()
        invariant
            i <= photos@.len(),
            album_photo_views(shown@) == minimal_views(photos@.take(i as int)),
        decreases photos@.len() - i,
    {
        let p = &photos[i];
        let item = AlbumPhoto { id: p.id.clone(), width: p.width, height: p.height, key: None };
        let ghost prev = shown@;
        shown.push(item);
        proof {
            assert(album_photo_views(shown@) =~= album_photo_views(prev).push(item@));
            assert(photos@.take(i + 1) =~= photos@.take(i as int).push(photos@[i as int]));
        }
        i = i + 1;
    }
    proof {
        assert(photos@.take(photos@.len() as int) =~= photos@);
    }
    let owned_id = String::from_str(id);
    expand(&owned_id, &data.title, &data.tags, &data.photos, &data.thumbnail_photo_id, &shown)
}

/// The decoded keys of a share's photos, or [`Error::InvalidBase64`] when
/// one is not base64.
pub open spec fn decoded_keys(photos: Seq<EntityKey>) -> Result<Seq<ItemKeyView>, Error>
    decreases photos.len(),
{
    if photos.len() == 0 {
        Ok(Seq::empty())
    } else {
        match decoded_keys(photos.drop_last()) {
            Err(e) => Err(e),
            Ok(keys) => match spec_decode_base64(photos.last().key@) {
                None => Err(Error::InvalidBase64),
                Some(k) => Ok(keys.push(ItemKeyView { item_id: photos.last().id@, key: k })),
            },
        }
    }
}

/// The view of a key vector result.
pub open spec fn keys_result(r: Result<Vec<ItemKey>, Error>) -> Result<Seq<ItemKeyView>, Error> {
    match r {
        Ok(v) => Ok(v@.map_values(|k: ItemKey| k@)),
        Err(e) => Err(e),
    }
}

/// Decodes the keys of a share's photos.
pub fn decode_share_photo_keys(photos: &Vec<EntityKey>) -> (r: Result<Vec<ItemKey>, Error>)
    ensures
        keys_result(r) == decoded_keys(photos@),
{
    let mut keys: Vec<ItemKey> = Vec::new();
    let mut i: usize = 0;
    proof {
        assert(photos@.take(0) =~= Seq::<EntityKey>::empty());
        assert(keys@.map_values(|k: ItemKey| k@) =~= Seq::<ItemKeyView>::empty());
    }
    while i < photos.len()
        invariant
            i <= photos@.len(),
            decoded_keys(photos@.take(i as int)) == Ok::<Seq<ItemKeyView>, Error>(keys@.map_values(|k: ItemKey| k@)),
        decreases photos@.len() - i,
    {
        proof {
            assert(photos@.take(i + 1).drop_last() =~= photos@.take(i as int));
            assert(photos@.take(i + 1).last() == photos@[i as int]);
        }
        let key = match decode_base64(photos[i].key.as_str()) {
            Some(k) => k,
            None => {
                proof {
                    lemma_decoded_keys_err(photos@, i as int + 1);
                }
                return Err(Error::InvalidBase64);
            },
        };
        let entry = ItemKey { item_id: photos[i].id.clone(), key };
        let ghost prev = keys@;
        keys.push(entry);
        proof {
            assert(keys@.map_values(|k: ItemKey| k@) =~= prev.map_values(|k: ItemKey| k@).push(entry@));
        }
        i = i + 1;
    }
    proof {
        assert(photos@.take(photos@.len() as int) =~= photos@);
    }
    Ok(keys)
}

/// Once a prefix fails to decode, so does the whole.
proof fn lemma_decoded_keys_err(photos: Seq<EntityKey>, n: int)
    requires
        0 <= n <= photos.len(),
        decoded_keys(photos.take(n)) == Err::<Seq<ItemKeyView>, Error>(Error::InvalidBase64),
    ensures
        decoded_keys(photos) == Err::<Seq<ItemKeyView>, Error>(Error::InvalidBase64),
    decreases photos.len() - n,
{
    if n < photos.len() {
        assert(photos.take(n + 1).drop_last() =~= photos.take(n));
        lemma_decoded_keys_err(photos, n + 1);
    } else {
        assert(photos.take(n) =~= photos);
    }
}

/// The requests for a share's photos, each with the hash of its key as
/// proof of knowing it.
pub fn share_photo_proofs(keys: &Vec<ItemKey>) -> (r: Vec<FindEntity>)
    ensures
        r@.len() == keys@.len(),
        forall|i: int| 0 <= i < keys@.len() ==> {
            &&& (#[trigger] r@[i]).id@ == keys@[i].item_id@
            &&& r@[i].key_hash matches Some(h) && h@ == sha256_hex(keys@[i].key@)
        },
{
    let mut r: Vec<FindEntity> = Vec::new();
    let mut i: usize = 0;
    while i < keys.len()
        invariant
            i <= keys@.len(),
            r@.len() == i,
            forall|j: int| 0 <= j < i ==> {
                &&& (#[trigger] r@[j]).id@ == keys@[j].item_id@
                &&& r@[j].key_hash matches Some(h) && h@ == sha256_hex(keys@[j].key@)
            },
        decreases keys@.len() - i,
    {
        let hash = compute_sha256_hash(keys[i].key.as_slice());
        r.push(FindEntity { id: keys[i].item_id.clone(), key_hash: Some(hash) });
        i = i + 1;
    }
    r
}

/// The key a share gives a photo: that of the last entry for it.
pub open spec fn last_key(keys: Seq<ItemKeyView>, id: Seq<char>) -> Option<Seq<u8>>
    decreases keys.len(),
{
    if keys.len() == 0 {
        None
    } else if keys.last().item_id == id {
        Some(keys.last().key)
    } else {
        last_key(keys.drop_last(), id)
    }
}

/// The key of a photo reached through a share, in base64.
pub open spec fn shared_key_text(keys: Seq<ItemKeyView>, id: Seq<char>) -> Option<Seq<char>> {
    match last_key(keys, id) {
        Some(k) => Some(base64_encode(k)),
        None => None,
    }
}

/// The key a share gives a photo, in base64.
fn key_text_for(keys: &Vec<ItemKey>, id: &str) -> (r: Option<String>)
    requires
        forall|i: int| 0 <= i < keys@.len() ==> base64_fits((#[trigger] keys@[i]).key@.len() as int),
    ensures
        opt_text(r) == shared_key_text(keys@.map_values(|k: ItemKey| k@), id@),
{
    let ghost views = keys@.map_values(|k: ItemKey| k@);
    let mut i: usize = keys.len();
    while i > 0
        invariant
            i <= keys@.len(),
            views == keys@.map_values(|k: ItemKey| k@),
            forall|j: int| 0 <= j < keys@.len() ==> base64_fits((#[trigger] keys@[j]).key@.len() as int),
            last_key(views, id@) == last_key(views.take(i as int), id@),
        decreases i,
    {
        proof {
            assert(views.take(i as int).drop_last() =~= views.take(i - 1));
            assert(views.take(i as int).last() == keys@[i - 1]@);
        }
        if same_text(keys[i - 1].item_id.as_str(), id) {
            return Some(encode_base64(keys[i - 1].key.as_slice()));
        }
        i = i - 1;
    }
    None
}

/// The photos of a shared album as its viewer is shown them: each photo the
/// server returned, with the key the share gives it in base64.
pub open spec fn shared_photo_views(found: Seq<PhotoMinimal>, keys: Seq<ItemKeyView>) -> Seq<AlbumPhotoView> {
    found.map_values(|p: PhotoMinimal| AlbumPhotoView { id: p.id@, width: p.width, height: p.height, key: shared_key_text(keys, p.id@) })
}

/// An album reached through a share, with the photos the server returned
/// for the share's proofs and the keys the share gives them, and its cover.
/// Fails when the cover is none of those photos.
pub open spec fn shared_album(
    album_id: Seq<char>,
    data: AlbumData,
    keys: Seq<ItemKeyView>,
    found: Seq<PhotoMinimal>,
) -> Result<AlbumExpandedView, Error> {
    let photos = shared_photo_views(found, keys);
    match opt_text(data.thumbnail_photo_id) {
        None => Ok(AlbumExpandedView { id: album_id, title: data.title@, tags: string_views(data.tags@), photos, thumbnail_photo: None }),
        Some(c) => match first_photo_with_id(photos, c) {
            Some(p) => Ok(AlbumExpandedView { id: album_id, title: data.title@, tags: string_views(data.tags@), photos, thumbnail_photo: Some(p) }),
            None => Err(Error::NotFound),
        },
    }
}

/// An album reached through a share.
pub fn album_from_share(album_id: &str, data: &AlbumData, keys: &Vec<ItemKey>, found: &Vec<PhotoMinimal>) -> (r: Result<AlbumExpanded, Error>)
    requires
        forall|i: int| 0 <= i < keys@.len() ==> base64_fits((#[trigger] keys@[i]).key@.len() as int),
    ensures
        expanded_view(r) == shared_album(album_id@, *data, keys@.map_values(|k: ItemKey| k@), found@),
{
    let ghost views = keys@.map_values(|k: ItemKey| k@);
    let mut shown: Vec<AlbumPhoto> = Vec::new();
    let mut i: usize = 0;
    while i < found.len()
        invariant
            i <= found@.len(),
            views == keys@.map_values(|k: ItemKey| k@),
            forall|j: int| 0 <= j < keys@.len() ==> base64_fits((#[trigger] keys@[j]).key@.len() as int),
            album_photo_views(shown@) == shared_photo_views(found@.take(i as int), views),
        decreases found@.len() - i,
    {
        let p = &found[i];
        let key = key_text_for(keys, p.id.as_str());
        let item = AlbumPhoto { id: p.id.clone(), width: p.width, height: p.height, key };
        let ghost prev = shown@;
        shown.push(item);
        proof {
            assert(album_photo_views(shown@) =~= album_photo_views(prev).push(item@));
            assert(found@.take(i + 1) =~= found@.take(i as int).push(found@[i as int]));
        }
        i = i + 1;
    }
    proof {
        assert(found@.take(found@.len() as int) =~= found@);
    }
    let ghost photos = album_photo_views(shown@);
    let mut all_ids: Vec<String> = Vec::new();
    let mut k: usize = 0;
    while k < shown.len()
        invariant
            k <= shown@.len(),
            string_views(all_ids@) == photos.take(k as int).map_values(|p: AlbumPhotoView| p.id),
            photos == album_photo_views(shown@),
        decreases shown@.len() - k,
    {
        let ghost prev = all_ids@;
        all_ids.push(shown[k].id.clone());
        proof {
            assert(string_views(all_ids@) =~= string_views(prev).push(photos[k as int].id));
            assert(photos.take(k + 1) =~= photos.take(k as int).push(photos[k as int]));
        }
        k = k + 1;
    }
    proof {
        assert(photos.take(photos.len() as int) =~= photos);
    }
    let owned_id = String::from_str(album_id);
    let r = expand(&owned_id, &data.title, &data.tags, &all_ids, &data.thumbnail_photo_id, &shown);
    proof {
        let ids = string_views(all_ids@);
        let pred = |p: AlbumPhotoView| ids.contains(p.id);
        lemma_filter_all(photos, ids, pred);
    }
    r
}

/// Keeping the photos whose id is among all their ids keeps them all.
proof fn lemma_filter_all(photos: Seq<AlbumPhotoView>, ids: Seq<Seq<char>>, pred: spec_fn(AlbumPhotoView) -> bool)
    requires
        ids == photos.map_values(|p: AlbumPhotoView| p.id),
        pred == (|p: AlbumPhotoView| ids.contains(p.id)),
    ensures
        photos.filter(pred) == photos,
{
    assert forall|i: int| 0 <= i < photos.len() implies pred(#[trigger] photos[i]) by {
        assert(ids[i] == photos[i].id);
    }
    lemma_filter_keeps_all(photos, pred);
}

} // verus!
