//! Sharing an album: the data a share gives access to, the items it
//! unlocks, the library's record of it, and finding a photo's key among the
//! shares a viewer holds.

use vstd::prelude::*;
use vstd::string::*;
use vstd::utf8::*;
use crate::albums::{album_photo_views, expand_album, expanded_view, inflate_album};
use crate::encoding::{base64_fits, base64_encode};
use crate::encryption::aes128::{derivable_salt, spec_derive_key, KEY_LENGTH};
use crate::passwords::lemma_alphanumeric_salt_usable;
use crate::encryption::symmetric::derive_key_from_string;
use crate::error::Error;
use crate::hashing::{compute_sha256_hash, sha256_hex};
use crate::library::{copy_bytes, keys_without, shares_without, stored_key};
use crate::models::{
    Album, AlbumExpanded, AlbumPhoto, AlbumPhotoView, AlbumShareData, AlbumShareDataPhoto, AlbumShareDataPhotoView,
    AlbumShareDataView, AlbumView, ItemKeyView, Library, LibraryPhotoView, LibraryShare, LibraryShareView,
    LibraryView, Share, ShareData,
};
use crate::photo_files::{file_id, file_id_of, PhotoVariant};
use crate::random::{id, ID_LENGTH};
use crate::text::{hex_char, same_text, string_views};

verus! {

broadcast use vstd::seq_lib::group_seq_properties;

/// The first photo of the library with the given id.
pub open spec fn first_library_photo(photos: Seq<LibraryPhotoView>, id: Seq<char>) -> Option<LibraryPhotoView> {
    if exists|i: int| 0 <= i < photos.len() && #[trigger] photos[i].id == id {
        let i = choose|i: int|
            0 <= i < photos.len() && #[trigger] photos[i].id == id && forall|j: int| 0 <= j < i ==> photos[j].id != id;
        Some(photos[i])
    } else {
        None
    }
}

/// Whether every photo of the album is in the library with a stored key.
pub open spec fn photos_shareable(album: AlbumView, library: LibraryView) -> bool {
    forall|i: int| 0 <= i < album.photos.len() ==> {
        &&& first_library_photo(library.photos, #[trigger] album.photos[i]) is Some
        &&& stored_key(library.item_keys, album.photos[i]) is Some
    }
}

/// What a share tells of one photo: its id, key and dimensions.
pub open spec fn share_photo_of(id: Seq<char>, library: LibraryView) -> AlbumShareDataPhotoView {
    let p = first_library_photo(library.photos, id)->Some_0;
    AlbumShareDataPhotoView { id, key: stored_key(library.item_keys, id)->Some_0, width: p.width, height: p.height }
}

/// What a share of the album gives access to: the album's id and key, and
/// each of its photos, in the album's order, with its key and dimensions.
pub open spec fn album_share_data_of(album: AlbumView, library: LibraryView) -> AlbumShareDataView {
    AlbumShareDataView {
        album_id: album.id,
        album_key: album.key,
        photos: album.photos.map_values(|id: Seq<char>| share_photo_of(id, library)),
    }
}

/// The items a share of an album unlocks: the album, then for each photo
/// the photo and its thumbnail, preview and original files.
pub open spec fn share_items_of(album_id: Seq<char>, photo_ids: Seq<Seq<char>>) -> Seq<Seq<char>>
    decreases photo_ids.len(),
{
    if photo_ids.len() == 0 {
        seq![album_id]
    } else {
        let id = photo_ids.last();
        share_items_of(album_id, photo_ids.drop_last())
            + seq![
                id,
                file_id_of(id, PhotoVariant::Thumbnail),
                file_id_of(id, PhotoVariant::Preview),
                file_id_of(id, PhotoVariant::Original),
            ]
    }
}

/// A share of an album unlocks the album, and each of its photos with the
/// photo's thumbnail, preview and original files.
pub proof fn lemma_share_unlocks_album_files(album_id: Seq<char>, photo_ids: Seq<Seq<char>>, i: int, variant: PhotoVariant)
    requires
        0 <= i < photo_ids.len(),
    ensures
        share_items_of(album_id, photo_ids).contains(album_id),
        share_items_of(album_id, photo_ids).contains(photo_ids[i]),
        share_items_of(album_id, photo_ids).contains(file_id_of(photo_ids[i], variant)),
    decreases photo_ids.len(),
{
    lemma_share_items_start(album_id, photo_ids);
    let rest = photo_ids.drop_last();
    let prev = share_items_of(album_id, rest);
    let id = photo_ids.last();
    let tail = seq![
        id,
        file_id_of(id, PhotoVariant::Thumbnail),
        file_id_of(id, PhotoVariant::Preview),
        file_id_of(id, PhotoVariant::Original),
    ];
    let all = prev + tail;
    if i == photo_ids.len() - 1 {
        assert(all[prev.len() as int] == id);
        let k: int = match variant {
            PhotoVariant::Thumbnail => 1,
            PhotoVariant::Preview => 2,
            PhotoVariant::Original => 3,
        };
        assert(all[prev.len() + k] == file_id_of(id, variant));
    } else {
        lemma_share_unlocks_album_files(album_id, rest, i, variant);
        assert(rest[i] == photo_ids[i]);
        let a = choose|a: int| 0 <= a < prev.len() && prev[a] == photo_ids[i];
        assert(all[a] == photo_ids[i]);
        let b = choose|b: int| 0 <= b < prev.len() && prev[b] == file_id_of(photo_ids[i], variant);
        assert(all[b] == file_id_of(photo_ids[i], variant));
    }
}

/// The items of a share start with the album.
proof fn lemma_share_items_start(album_id: Seq<char>, photo_ids: Seq<Seq<char>>)
    ensures
        share_items_of(album_id, photo_ids).len() > 0,
        share_items_of(album_id, photo_ids)[0] == album_id,
        share_items_of(album_id, photo_ids).contains(album_id),
    decreases photo_ids.len(),
{
    if photo_ids.len() > 0 {
        lemma_share_items_start(album_id, photo_ids.drop_last());
    }
    assert(share_items_of(album_id, photo_ids)[0] == album_id);
}

/// The identifier hash of a share of an album: the SHA-256 hash, in
/// hexadecimal, of `album:` followed by the album's id.
pub open spec fn identifier_hash_of(album_id: Seq<char>) -> Seq<char> {
    sha256_hex(encode_utf8("album:"@ + album_id))
}

/// The index of the first photo of the library with the given id.
fn find_library_photo(library: &Library, id: &str) -> (r: Option<usize>)
    ensures
        match r {
            Some(i) => i < library@.photos.len() && first_library_photo(library@.photos, id@) == Some(library@.photos[i as int]),
            None => first_library_photo(library@.photos, id@) is None,
        },
{
    let ghost photos = library@.photos;
    let mut i: usize = 0;
    while i < library.photos.len()
        invariant
            i <= library.photos@.len(),
            photos == library@.photos,
            photos.len() == library.photos@.len(),
            forall|j: int| 0 <= j < i ==> #[trigger] photos[j].id != id@,
        decreases library.photos@.len() - i,
    {
        if same_text(library.photos[i].id.as_str(), id) {
            proof {
                assert(photos[i as int].id == id@);
                let k = choose|k: int|
                    0 <= k < photos.len() && #[trigger] photos[k].id == id@ && forall|j: int| 0 <= j < k ==> photos[j].id != id@;
                if k < i {
                    assert(photos[k].id != id@);
                } else if k > i {
                    assert(photos[i as int].id != id@);
                }
            }
            return Some(i);
        }
        i = i + 1;
    }
    None
}

/// Whether every photo of the album is in the library with a stored key.
pub fn can_share(album: &Album, library: &Library) -> (r: bool)
    ensures
        r == photos_shareable(album@, library@),
{
    let ghost ids = album@.photos;
    let mut i: usize = 0;
    while i < album.photos.len()
        invariant
            i <= album.photos@.len(),
            ids == album@.photos,
            ids.len() == album.photos@.len(),
            forall|j: int| 0 <= j < i ==> {
                &&& first_library_photo(library@.photos, #[trigger] ids[j]) is Some
                &&& stored_key(library@.item_keys, ids[j]) is Some
            },
        decreases album.photos@.len() - i,
    {
        let id = album.photos[i].as_str();
        assert(ids[i as int] == id@);
        if find_library_photo(library, id).is_none() {
            return false;
        }
        if library.find_encryption_key(id).is_none() {
            return false;
        }
        i = i + 1;
    }
    true
}

/// The data a share of the album gives access to.
pub fn album_share_data(album: &Album, library: &Library) -> (r: AlbumShareData)
    requires
        photos_shareable(album@, library@),
    ensures
        r@ == album_share_data_of(album@, library@),
{
    let ghost ids = album@.photos;
    let mut photos: Vec<AlbumShareDataPhoto> = Vec::new();
    let mut i: usize = 0;
    while i < album.photos.len()
        invariant
            i <= album.photos@.len(),
            ids == album@.photos,
            ids.len() == album.photos@.len(),
            photos_shareable(album@, library@),
            photos@.map_values(|p: AlbumShareDataPhoto| p@) == ids.take(i as int).map_values(|id: Seq<char>| share_photo_of(id, library@)),
        decreases album.photos@.len() - i,
    {
        let id = album.photos[i].as_str();
        assert(ids[i as int] == id@);
        let index = match find_library_photo(library, id) {
            Some(index) => index,
            None => {
                assert(first_library_photo(library@.photos, ids[i as int]) is Some);
                return AlbumShareData { album_id: album.id.clone(), album_key: copy_bytes(&album.key), photos };
            },
        };
        let key = match library.find_encryption_key(id) {
            Some(key) => copy_bytes(key),
            None => {
                assert(stored_key(library@.item_keys, ids[i as int]) is Some);
                return AlbumShareData { album_id: album.id.clone(), album_key: copy_bytes(&album.key), photos };
            },
        };
        let photo = &library.photos[index];
        let entry = AlbumShareDataPhoto { id: album.photos[i].clone(), key, width: photo.width, height: photo.height };
        let ghost prev = photos@;
        photos.push(entry);
        proof {
            assert(library@.photos[index as int] == photo@);
            assert(entry@ == share_photo_of(ids[i as int], library@));
            assert(photos@.map_values(|p: AlbumShareDataPhoto| p@) =~= prev.map_values(|p: AlbumShareDataPhoto| p@).push(entry@));
            assert(ids.take(i + 1) =~= ids.take(i as int).push(ids[i as int]));
            assert(ids.take(i + 1).map_values(|id: Seq<char>| share_photo_of(id, library@)) =~= ids.take(i as int).map_values(|id: Seq<char>| share_photo_of(id, library@)).push(share_photo_of(ids[i as int], library@)));
        }
        i = i + 1;
    }
    proof {
        assert(ids.take(ids.len() as int) =~= ids);
    }
    AlbumShareData { album_id: album.id.clone(), album_key: copy_bytes(&album.key), photos }
}

/// The ids of the items a share of the album unlocks.
pub fn share_item_ids(album: &Album) -> (r: Vec<String>)
    ensures
        string_views(r@) == share_items_of(album@.id, album@.photos),
{
    let ghost ids = album@.photos;
    let mut r: Vec<String> = Vec::new();
    r.push(album.id.clone());
    proof {
        assert(string_views(r@) =~= share_items_of(album@.id, ids.take(0)));
    }
    let mut i: usize = 0;
    while i < album.photos.len()
        invariant
            i <= album.photos@.len(),
            ids == album@.photos,
            ids.len() == album.photos@.len(),
            string_views(r@) == share_items_of(album@.id, ids.take(i as int)),
        decreases album.photos@.len() - i,
    {
        let id = album.photos[i].as_str();
        let ghost prev = r@;
        let photo = album.photos[i].clone();
        let thumbnail = file_id(id, PhotoVariant::Thumbnail);
        let preview = file_id(id, PhotoVariant::Preview);
        let original = file_id(id, PhotoVariant::Original);
        r.push(photo);
        r.push(thumbnail);
        r.push(preview);
        r.push(original);
        proof {
            assert(ids[i as int] == id@);
            assert(ids.take(i + 1).drop_last() =~= ids.take(i as int));
            assert(ids.take(i + 1).last() == id@);
            assert(string_views(r@) =~= string_views(prev) + seq![id@, thumbnail@, preview@, original@]);
        }
        i = i + 1;
    }
    proof {
        assert(ids.take(ids.len() as int) =~= ids);
    }
    r
}

/// The identifier hash of a share of an album.
pub fn get_identifier_hash(album_id: &str) -> (r: String)
    ensures
        r@ == identifier_hash_of(album_id@),
        r@.len() == 64,
        forall|i: int| 0 <= i < r@.len() ==> hex_char(#[trigger] r@[i]),
{
    let mut text = String::from_str("album:");
    text.append(album_id);
    compute_sha256_hash(text.as_str().as_bytes())
}

/// A share made or updated: its id and key, the share itself and the ids of
/// the items it unlocks.
pub struct ShareUpsert {
    pub share_id: String,
    pub share_key: Vec<u8>,
    pub share: Share,
    pub items: Vec<String>,
}

/// The id a share of the album gets: that of the album's first share in the
/// library, if it has one.
pub open spec fn reused_share_id(shares: Seq<LibraryShareView>, album_id: Seq<char>) -> Option<Seq<char>> {
    if exists|i: int| 0 <= i < shares.len() && #[trigger] shares[i].album_id == album_id {
        let i = choose|i: int|
            0 <= i < shares.len() && #[trigger] shares[i].album_id == album_id && forall|j: int| 0 <= j < i ==> shares[j].album_id != album_id;
        Some(shares[i].id)
    } else {
        None
    }
}

/// The share to refresh after an album changes: the id and password of the
/// album's first share in the library, if it has one.
pub open spec fn share_to_refresh_of(shares: Seq<LibraryShareView>, album_id: Seq<char>) -> Option<(Seq<char>, Seq<char>)> {
    if exists|i: int| 0 <= i < shares.len() && #[trigger] shares[i].album_id == album_id {
        let i = choose|i: int|
            0 <= i < shares.len() && #[trigger] shares[i].album_id == album_id && forall|j: int| 0 <= j < i ==> shares[j].album_id != album_id;
        Some((shares[i].id, shares[i].password))
    } else {
        None
    }
}

/// After an album changes, the share that must be made again with its
/// password, so that it gives the album as it now is: the album's first
/// share in the library, if it has one.
pub fn share_to_refresh(library: &Library, album_id: &str) -> (r: Option<(String, String)>)
    ensures
        match r {
            Some((id, password)) => share_to_refresh_of(library@.shares, album_id@) == Some((id@, password@)),
            None => share_to_refresh_of(library@.shares, album_id@) is None,
        },
{
    match library.share_for_album(album_id) {
        Some(existing) => {
            proof {
                let shares = library@.shares;
                let w = choose|w: int| 0 <= w < shares.len() && shares[w] == existing@
                    && existing@.album_id == album_id@
                    && forall|j: int| 0 <= j < w ==> #[trigger] shares[j].album_id != album_id@;
                let k = choose|k: int|
                    0 <= k < shares.len() && #[trigger] shares[k].album_id == album_id@ && forall|j: int| 0 <= j < k ==> shares[j].album_id != album_id@;
                if k < w {
                    assert(shares[k].album_id != album_id@);
                } else if k > w {
                    assert(shares[w].album_id != album_id@);
                }
            }
            Some((existing.id, existing.password))
        },
        None => None,
    }
}

/// Creates or updates the share of an album, protected by `password`. The
/// share keeps the id of the album's share in the library, if it has one,
/// and else gets a fresh one; its key is derived from the password with the
/// share's id as salt. The share gives access to the album and its photos;
/// the library then records it, with its password and key, in place of any
/// share with the same id. Fails, leaving the library unchanged, only when
/// the reused id is no salt a key can be derived with.
pub fn upsert_share(library: &mut Library, album: &Album, password: &str) -> (r: Result<ShareUpsert, Error>)
    requires
        photos_shareable(album@, old(library)@),
    ensures
        old(library).wf() ==> final(library).wf(),
        r is Ok <==> match reused_share_id(old(library)@.shares, album@.id) {
            Some(existing) => derivable_salt(existing),
            None => true,
        },
        match r {
            Ok(up) => {
                &&& (match reused_share_id(old(library)@.shares, album@.id) {
                    Some(existing) => up.share_id@ == existing,
                    None => up.share_id@.len() == ID_LENGTH,
                })
                &&& spec_derive_key(password@, up.share_id@) == Ok::<Seq<u8>, Error>(up.share_key@)
                &&& up.share_key@.len() == KEY_LENGTH
                &&& (match up.share.data {
                    ShareData::Album(data) => data@ == album_share_data_of(album@, old(library)@),
                })
                &&& string_views(up.items@) == share_items_of(album@.id, album@.photos)
                &&& final(library)@.shares == shares_without(old(library)@.shares, up.share_id@).push(
                    LibraryShareView { id: up.share_id@, password: password@, album_id: album@.id })
                &&& final(library)@.item_keys == keys_without(old(library)@.item_keys, up.share_id@).push(
                    ItemKeyView { item_id: up.share_id@, key: up.share_key@ })
                &&& final(library)@.photos == old(library)@.photos
                &&& final(library)@.albums == old(library)@.albums
            },
            Err(e) => {
                &&& *final(library) == *old(library)
                &&& (match reused_share_id(old(library)@.shares, album@.id) {
                    Some(existing) => spec_derive_key(password@, existing) == Err::<Seq<u8>, Error>(e),
                    None => false,
                })
            },
        },
{
    let share_id = match library.share_for_album(album.id.as_str()) {
        Some(existing) => {
            proof {
                let shares = library@.shares;
                let w = choose|w: int| 0 <= w < shares.len() && shares[w] == existing@
                    && existing@.album_id == album@.id
                    && forall|j: int| 0 <= j < w ==> #[trigger] shares[j].album_id != album@.id;
                let k = choose|k: int|
                    0 <= k < shares.len() && #[trigger] shares[k].album_id == album@.id && forall|j: int| 0 <= j < k ==> shares[j].album_id != album@.id;
                if k < w {
                    assert(shares[k].album_id != album@.id);
                } else if k > w {
                    assert(shares[w].album_id != album@.id);
                }
            }
            existing.id
        },
        None => {
            let fresh = id();
            proof {
                lemma_alphanumeric_salt_usable(fresh@);
            }
            fresh
        },
    };
    let share_key = match derive_key_from_string(password, share_id.as_str()) {
        Ok(key) => key,
        Err(e) => return Err(e),
    };
    let data = album_share_data(album, library);
    let items = share_item_ids(album);
    let entry = LibraryShare { id: share_id.clone(), password: String::from_str(password), album_id: album.id.clone() };
    library.upsert_share(entry, copy_bytes(&share_key));
    Ok(ShareUpsert { share_id, share_key, share: Share { data: ShareData::Album(data) }, items })
}

/// After an upsert, the library lists exactly one share with the share's id:
/// the one just recorded, last.
pub proof fn lemma_upsert_share_single(shares: Seq<LibraryShareView>, entry: LibraryShareView)
    ensures
        ({
            let after = shares_without(shares, entry.id).push(entry);
            &&& after.last() == entry
            &&& forall|i: int| 0 <= i < after.len() - 1 ==> #[trigger] after[i].id != entry.id
        }),
{
    let pred = |s: LibraryShareView| s.id != entry.id;
    let kept = shares.filter(pred);
    assert forall|i: int| 0 <= i < kept.len() implies #[trigger] kept[i].id != entry.id by {
        shares.lemma_filter_pred(pred, i);
    }
    let after = kept.push(entry);
    assert forall|i: int| 0 <= i < after.len() - 1 implies #[trigger] after[i].id != entry.id by {
        assert(after[i] == kept[i]);
    }
}

/// The photos of the shares, one share after the other.
pub open spec fn shared_photos(shares: Seq<AlbumShareDataView>) -> Seq<AlbumShareDataPhotoView>
    decreases shares.len(),
{
    if shares.len() == 0 {
        Seq::empty()
    } else {
        shared_photos(shares.drop_last()) + shares.last().photos
    }
}

/// The key of the first photo with the given id.
pub open spec fn first_photo_key(photos: Seq<AlbumShareDataPhotoView>, id: Seq<char>) -> Option<Seq<u8>> {
    if exists|i: int| 0 <= i < photos.len() && #[trigger] photos[i].id == id {
        let i = choose|i: int|
            0 <= i < photos.len() && #[trigger] photos[i].id == id && forall|j: int| 0 <= j < i ==> photos[j].id != id;
        Some(photos[i].key)
    } else {
        None
    }
}

/// The view of the data of a share.
pub open spec fn share_data_view(share: Share) -> AlbumShareDataView {
    match share.data {
        ShareData::Album(data) => data@,
    }
}

/// The key of a photo reached through one of the shares a viewer holds: that
/// of the first photo with the id, the shares taken one after the other.
/// Fails with [`Error::NotFound`] when no share holds the photo.
pub fn photo_key_from_shares(shares: &Vec<Share>, photo_id: &str) -> (r: Result<Vec<u8>, Error>)
    ensures
        match first_photo_key(shared_photos(shares@.map_values(|s: Share| share_data_view(s))), photo_id@) {
            Some(k) => r matches Ok(key) && key@ == k,
            None => r == Err::<Vec<u8>, Error>(Error::NotFound),
        },
{
    let ghost views = shares@.map_values(|s: Share| share_data_view(s));
    let mut i: usize = 0;
    while i < shares.len()
        invariant
            i <= shares@.len(),
            views == shares@.map_values(|s: Share| share_data_view(s)),
            views.len() == shares@.len(),
            forall|j: int| 0 <= j < shared_photos(views.take(i as int)).len() ==> #[trigger] shared_photos(views.take(i as int))[j].id != photo_id@,
        decreases shares@.len() - i,
    {
        let data = match &shares[i].data {
            ShareData::Album(data) => data,
        };
        let ghost before = shared_photos(views.take(i as int));
        proof {
            assert(views.take(i + 1).drop_last() =~= views.take(i as int));
            assert(views.take(i + 1).last() == data@);
            assert(shared_photos(views.take(i + 1)) == before + data@.photos);
        }
        let mut j: usize = 0;
        while j < data.photos.len()
            invariant
                j <= data.photos@.len(),
                i < shares@.len(),
                views == shares@.map_values(|s: Share| share_data_view(s)),
                views.len() == shares@.len(),
                shared_photos(views.take(i + 1)) == before + data@.photos,
                forall|k: int| 0 <= k < before.len() ==> #[trigger] before[k].id != photo_id@,
                forall|k: int| 0 <= k < j ==> #[trigger] data@.photos[k].id != photo_id@,
            decreases data.photos@.len() - j,
        {
            if same_text(data.photos[j].id.as_str(), photo_id) {
                let key = copy_bytes(&data.photos[j].key);
                proof {
                    let all = shared_photos(views);
                    lemma_shared_photos_prefix(views, i as int + 1);
                    let all_i = before + data@.photos;
                    let w = before.len() + j;
                    assert(all_i[w] == data@.photos[j as int]);
                    assert(all[w] == all_i[w]);
                    assert(all[w].id == photo_id@);
                    let k = choose|k: int|
                        0 <= k < all.len() && #[trigger] all[k].id == photo_id@ && forall|m: int| 0 <= m < k ==> all[m].id != photo_id@;
                    if k < w {
                        assert(all[k] == all_i[k]);
                        if k < before.len() {
                            assert(before[k].id != photo_id@);
                        } else {
                            assert(data@.photos[k - before.len()].id != photo_id@);
                        }
                    } else if k > w {
                        assert(all[w].id != photo_id@);
                    }
                }
                return Ok(key);
            }
            j = j + 1;
        }
        proof {
            let after = shared_photos(views.take(i + 1));
            assert forall|k: int| 0 <= k < after.len() implies #[trigger] after[k].id != photo_id@ by {
                if k < before.len() {
                    assert(after[k] == before[k]);
                } else {
                    assert(after[k] == data@.photos[k - before.len()]);
                }
            }
        }
        i = i + 1;
    }
    proof {
        assert(views.take(views.len() as int) =~= views);
    }
    Err(Error::NotFound)
}

/// The photos of the first `n` shares come first among those of all.
proof fn lemma_shared_photos_prefix(shares: Seq<AlbumShareDataView>, n: int)
    requires
        0 <= n <= shares.len(),
    ensures
        shared_photos(shares).len() >= shared_photos(shares.take(n)).len(),
        forall|k: int| 0 <= k < shared_photos(shares.take(n)).len() ==> #[trigger] shared_photos(shares)[k] == shared_photos(shares.take(n))[k],
    decreases shares.len() - n,
{
    if n < shares.len() {
        lemma_shared_photos_prefix(shares, n + 1);
        assert(shares.take(n + 1).drop_last() =~= shares.take(n));
    } else {
        assert(shares.take(n) =~= shares);
    }
}

/// The photos of a share as album photos, each with its key in base64.
pub fn album_photos_from_share(photos: &Vec<AlbumShareDataPhoto>) -> (r: Vec<AlbumPhoto>)
    requires
        forall|i: int| 0 <= i < photos@.len() ==> base64_fits((#[trigger] photos@[i]).key@.len() as int),
    ensures
        album_photo_views(r@) == photos@.map_values(|p: AlbumShareDataPhoto|
            AlbumPhotoView { id: p.id@, width: p.width, height: p.height, key: Some(base64_encode(p.key@)) }),
{
    let mut r: Vec<AlbumPhoto> = Vec::new();
    let mut i: usize = 0;
    while i < photos.len()
        invariant
            i <= photos@.len(),
            forall|k: int| 0 <= k < photos@.len() ==> base64_fits((#[trigger] photos@[k]).key@.len() as int),
            album_photo_views(r@) == photos@.take(i as int).map_values(|p: AlbumShareDataPhoto|
                AlbumPhotoView { id: p.id@, width: p.width, height: p.height, key: Some(base64_encode(p.key@)) }),
        decreases photos@.len() - i,
    {
        let source = &photos[i];
        let copy = AlbumShareDataPhoto { id: source.id.clone(), key: copy_bytes(&source.key), width: source.width, height: source.height };
        let item = AlbumPhoto::from_share_photo(copy);
        let ghost prev = r@;
        r.push(item);
        proof {
            assert(album_photo_views(r@) =~= album_photo_views(prev).push(item@));
            assert(photos@.take(i + 1) =~= photos@.take(i as int).push(photos@[i as int]));
        }
        i = i + 1;
    }
    proof {
        assert(photos@.take(photos@.len() as int) =~= photos@);
    }
    r
}

/// The album a share gives access to, with the share's photos, each with
/// its key in base64, and its cover. Fails when the cover is none of the
/// share's photos.
pub fn share_album(album: &Album, data: &AlbumShareData) -> (r: Result<AlbumExpanded, Error>)
    requires
        forall|i: int| 0 <= i < data.photos@.len() ==> base64_fits((#[trigger] data.photos@[i]).key@.len() as int),
    ensures
        expanded_view(r) == expand_album(album@.id, album@.title, album@.tags, album@.photos, album@.thumbnail_photo_id,
            data.photos@.map_values(|p: AlbumShareDataPhoto|
                AlbumPhotoView { id: p.id@, width: p.width, height: p.height, key: Some(base64_encode(p.key@)) })),
{
    let photos = album_photos_from_share(&data.photos);
    inflate_album(album, &photos)
}

} // verus!
