//! The decisions of the browser client: what creating or deleting an album,
//! deleting photos, authorizing a share and finding a photo's key do to the
//! user's library and keys. Reading and writing the stored items is left to
//! the caller.

use vstd::prelude::*;
use vstd::string::*;
use crate::albums::{album_photos_from_library, cover_after_removal, expand_album, expanded_view, inflate_album, with_photos_removed, lemma_remove_photos_law};
use crate::encryption::aes128::{derivable_salt, spec_derive_key, KEY_LENGTH};
use crate::encryption::symmetric::{derive_key_from_string, generate_key};
use crate::encoding::base64_fits;
use crate::error::Error;
use crate::keys::{get_key_from_user_credentials, set_master_key, spec_get_share_key, spec_key_from_user_credentials, spec_load_master_key, set_share_key, KeyStore};
use crate::library::{albums_without, copy_bytes, keys_without, lemma_filter_keeps_all, lemma_filter_member, photos_without, stored_key};
use crate::models::{Album, AlbumExpanded, AlbumPhotoView, AlbumView, ItemKeyView, Library, LibraryPhoto, LibraryPhotoView, LibraryShareView, Share};
use crate::photo_files::{file_ids, file_ids_of};
use crate::random::{id, ID_LENGTH};
use crate::shares::{first_photo_key, photo_key_from_shares, share_data_view, shared_photos};
use crate::text::string_views;

verus! {

broadcast use vstd::seq_lib::group_seq_properties;

/// Creates an album with the given photos (its cover is the first of them),
/// a fresh id and a fresh key; the library lists it and stores its key.
pub fn create_album(library: &mut Library, title: &str, initial_photo_ids: Vec<String>) -> (album: Album)
    ensures
        old(library).wf() ==> final(library).wf(),
        album@.id.len() == ID_LENGTH,
        album@.key.len() == KEY_LENGTH,
        album@.title == title@,
        album@.tags.len() == 0,
        album@.photos == string_views(initial_photo_ids@),
        album@.thumbnail_photo_id == (if initial_photo_ids@.len() > 0 { Some(initial_photo_ids@[0]@) } else { None::<Seq<char>> }),
        final(library)@.albums == old(library)@.albums.push(album@.id),
        final(library)@.item_keys == keys_without(old(library)@.item_keys, album@.id).push(ItemKeyView { item_id: album@.id, key: album@.key }),
        final(library)@.photos == old(library)@.photos,
        final(library)@.shares == old(library)@.shares,
{
    let album_id = id();
    let album_key = generate_key();
    let album = Album::new(album_id.clone(), copy_bytes(&album_key), String::from_str(title), initial_photo_ids);
    library.add_album(album_id, album_key);
    album
}

/// The library's shares other than those with one of the given ids.
pub open spec fn shares_without_ids(shares: Seq<LibraryShareView>, ids: Seq<Seq<char>>) -> Seq<LibraryShareView> {
    shares.filter(|s: LibraryShareView| !ids.contains(s.id))
}

/// Deletes an album from the library: first each of its shares, then the
/// album itself. Gives the ids of the deleted shares, for deleting them
/// where they are stored.
pub fn delete_album(library: &mut Library, album_id: &str) -> (share_ids: Vec<String>)
    ensures
        string_views(share_ids@) == old(library)@.shares.filter(|s: LibraryShareView| s.album_id == album_id@).map_values(|s: LibraryShareView| s.id),
        final(library)@.shares == shares_without_ids(old(library)@.shares, string_views(share_ids@)),
        final(library)@.albums == albums_without(old(library)@.albums, album_id@),
        final(library)@.item_keys == old(library)@.item_keys,
        final(library)@.photos == old(library)@.photos,
{
    let share_ids = library.share_ids_for_album(album_id);
    let ghost shares = library@.shares;
    let ghost ids = string_views(share_ids@);
    let mut i: usize = 0;
    proof {
        assert(shares_without_ids(shares, ids.take(0)) =~= shares) by {
            lemma_filter_keeps_all(shares, |s: LibraryShareView| !ids.take(0).contains(s.id));
        }
    }
    while i < share_ids.len()
        invariant
            i <= share_ids@.len(),
            ids == string_views(share_ids@),
            library@.shares == shares_without_ids(shares, ids.take(i as int)),
            library@.albums == old(library)@.albums,
            library@.item_keys == old(library)@.item_keys,
            library@.photos == old(library)@.photos,
        decreases share_ids@.len() - i,
    {
        library.remove_share(share_ids[i].as_str());
        proof {
            let before = ids.take(i as int);
            let after = ids.take(i + 1);
            assert(after =~= before.push(ids[i as int]));
            lemma_filter_twice(shares, before, ids[i as int]);
        }
        i = i + 1;
    }
    proof {
        assert(ids.take(ids.len() as int) =~= ids);
    }
    library.remove_album(album_id);
    share_ids
}

/// After an album is deleted, no share of the library is for it.
pub proof fn lemma_delete_album_leaves_no_share(shares: Seq<LibraryShareView>, album_id: Seq<char>)
    ensures
        ({
            let ids = shares.filter(|s: LibraryShareView| s.album_id == album_id).map_values(|s: LibraryShareView| s.id);
            forall|i: int| 0 <= i < shares_without_ids(shares, ids).len() ==> (#[trigger] shares_without_ids(shares, ids)[i]).album_id != album_id
        }),
{
    let pred = |s: LibraryShareView| s.album_id == album_id;
    let of_album = shares.filter(pred);
    let ids = of_album.map_values(|s: LibraryShareView| s.id);
    let keep = |s: LibraryShareView| !ids.contains(s.id);
    assert forall|i: int| 0 <= i < shares.filter(keep).len() implies (#[trigger] shares.filter(keep)[i]).album_id != album_id by {
        let s = shares.filter(keep)[i];
        shares.lemma_filter_pred(keep, i);
        if s.album_id == album_id {
            lemma_filter_member(shares, keep, i);
            let k = choose|k: int| 0 <= k < shares.len() && shares[k] == s;
            shares.lemma_filter_contains(pred, k);
            let m = choose|m: int| 0 <= m < of_album.len() && of_album[m] == s;
            assert(ids[m] == s.id);
        }
    }
}

/// Removing the shares with one more id after those with some ids is
/// removing the shares with any of them.
proof fn lemma_filter_twice(shares: Seq<LibraryShareView>, ids: Seq<Seq<char>>, id: Seq<char>)
    ensures
        shares_without_ids(shares, ids).filter(|s: LibraryShareView| s.id != id) == shares_without_ids(shares, ids.push(id)),
    decreases shares.len(),
{
    reveal(Seq::filter);
    let p1 = |s: LibraryShareView| !ids.contains(s.id);
    let p2 = |s: LibraryShareView| s.id != id;
    let p12 = |s: LibraryShareView| !ids.push(id).contains(s.id);
    if shares.len() > 0 {
        let rest = shares.drop_last();
        lemma_filter_twice(rest, ids, id);
        let x = shares.last();
        assert(ids.push(id).contains(x.id) <==> (ids.contains(x.id) || x.id == id)) by {
            if ids.push(id).contains(x.id) {
                let k = choose|k: int| 0 <= k < ids.len() + 1 && ids.push(id)[k] == x.id;
                if k < ids.len() {
                    assert(ids[k] == x.id);
                }
            }
            if ids.contains(x.id) {
                let k = choose|k: int| 0 <= k < ids.len() && ids[k] == x.id;
                assert(ids.push(id)[k] == x.id);
            }
            if x.id == id {
                assert(ids.push(id)[ids.len() as int] == x.id);
            }
        }
        if p1(x) {
            rest.filter(p1).lemma_filter_push(x, p2);
        }
    }
}

/// The album after deleting the photos `ids` from it.
pub open spec fn album_without_photos(album: AlbumView, ids: Seq<Seq<char>>) -> AlbumView {
    AlbumView {
        photos: with_photos_removed(album.photos, ids),
        thumbnail_photo_id: cover_after_removal(album.thumbnail_photo_id, ids),
        ..album
    }
}

/// Deletes photos: they are removed from every album (an album whose cover
/// is one of them loses its cover) and from the library. Gives the albums as
/// they are afterwards and the ids of the photos' files, for deleting them
/// where they are stored.
pub fn delete_photos(library: &mut Library, albums: &Vec<Album>, ids: &Vec<String>) -> (r: (Vec<Album>, Vec<String>))
    ensures
        r.0@.len() == albums@.len(),
        forall|i: int| 0 <= i < albums@.len() ==> (#[trigger] r.0@[i])@ == album_without_photos(albums@[i]@, string_views(ids@)),
        string_views(r.1@) == file_ids_of(string_views(ids@)),
        final(library)@.photos == photos_without(old(library)@.photos, string_views(ids@)),
        final(library)@.item_keys == old(library)@.item_keys,
        final(library)@.albums == old(library)@.albums,
        final(library)@.shares == old(library)@.shares,
{
    let mut updated: Vec<Album> = Vec::new();
    let mut i: usize = 0;
    while i < albums.len()
        invariant
            i <= albums@.len(),
            updated@.len() == i,
            forall|j: int| 0 <= j < i ==> (#[trigger] updated@[j])@ == album_without_photos(albums@[j]@, string_views(ids@)),
        decreases albums@.len() - i,
    {
        let mut album = albums[i].duplicate();
        album.remove_photos(ids.as_slice());
        proof {
            assert(album@ == album_without_photos(albums@[i as int]@, string_views(ids@)));
        }
        updated.push(album);
        i = i + 1;
    }
    library.remove_photos(ids);
    let files = file_ids(ids.as_slice());
    (updated, files)
}

/// After deleting photos, no album holds one of them or has one as its
/// cover, and the library lists none of them.
pub proof fn lemma_deleted_photos_gone(album: AlbumView, photos: Seq<crate::models::LibraryPhotoView>, ids: Seq<Seq<char>>, id: Seq<char>)
    requires
        ids.contains(id),
    ensures
        !album_without_photos(album, ids).photos.contains(id),
        album_without_photos(album, ids).thumbnail_photo_id != Some(id),
        forall|i: int| 0 <= i < photos_without(photos, ids).len() ==> (#[trigger] photos_without(photos, ids)[i]).id != id,
{
    lemma_remove_photos_law(album.photos, album.thumbnail_photo_id, ids);
    let pred = |p: crate::models::LibraryPhotoView| !ids.contains(p.id);
    assert forall|i: int| 0 <= i < photos_without(photos, ids).len() implies (#[trigger] photos_without(photos, ids)[i]).id != id by {
        photos.lemma_filter_pred(pred, i);
    }
}

/// The key of a photo: the library's key for it where the library is
/// available, else the key of the first photo with the id among the cached
/// shares. Fails with [`Error::NotFound`] when the key is not found.
pub fn determine_photo_key(library: Option<&Library>, cached_shares: &Vec<Share>, photo_id: &str) -> (r: Result<Vec<u8>, Error>)
    ensures
        match library {
            Some(l) => match stored_key(l@.item_keys, photo_id@) {
                Some(k) => r matches Ok(key) && key@ == k,
                None => r == Err::<Vec<u8>, Error>(Error::NotFound),
            },
            None => match first_photo_key(shared_photos(cached_shares@.map_values(|s: Share| share_data_view(s))), photo_id@) {
                Some(k) => r matches Ok(key) && key@ == k,
                None => r == Err::<Vec<u8>, Error>(Error::NotFound),
            },
        },
{
    match library {
        Some(l) => match l.find_encryption_key(photo_id) {
            Some(k) => Ok(copy_bytes(k)),
            None => Err(Error::NotFound),
        },
        None => photo_key_from_shares(cached_shares, photo_id),
    }
}

/// Records that the server authorized access to a share with a password:
/// the share's key, derived from the password with the share's id as salt,
/// is stored. Gives whether access was authorized; fails, storing nothing,
/// when the key cannot be derived.
pub fn authorize_share(store: &mut KeyStore, share_id: &str, password: &str, authorized: bool) -> (r: Result<bool, Error>)
    ensures
        final(store).master_key() == old(store).master_key(),
        !authorized ==> r == Ok::<bool, Error>(false) && final(store).stored() == old(store).stored(),
        authorized ==> (r is Ok <==> derivable_salt(share_id@)),
        authorized ==> match spec_derive_key(password@, share_id@) {
            Ok(k) => r == Ok::<bool, Error>(true) && spec_get_share_key(final(store).stored(), share_id@) == Ok::<Option<Seq<u8>>, Error>(Some(k)),
            Err(e) => r == Err::<bool, Error>(e) && final(store).stored() == old(store).stored(),
        },
{
    if !authorized {
        return Ok(false);
    }
    let key = match derive_key_from_string(password, share_id) {
        Ok(k) => k,
        Err(e) => return Err(e),
    };
    match set_share_key(store, share_id, key.as_slice()) {
        Ok(()) => Ok(true),
        Err(e) => Err(e),
    }
}

/// The keys of a new user: the key derived from the credentials (which
/// encrypts the master key where it is stored) and a fresh master key, which
/// becomes the user's. Fails, changing nothing, when the credentials give no
/// key.
pub fn register_keys(store: &mut KeyStore, username: &str, password: &str) -> (r: Result<(Vec<u8>, Vec<u8>), Error>)
    ensures
        match r {
            Ok((derived, master)) => {
                &&& spec_key_from_user_credentials(username@, password@) == Ok::<Seq<u8>, Error>(derived@)
                &&& master@.len() == KEY_LENGTH
                &&& final(store).master_key() == master@
                &&& spec_load_master_key(final(store).stored()) == Ok::<Seq<u8>, Error>(master@)
            },
            Err(e) => {
                &&& spec_key_from_user_credentials(username@, password@) == Err::<Seq<u8>, Error>(e)
                &&& final(store).master_key() == old(store).master_key()
                &&& final(store).stored() == old(store).stored()
            },
        },
{
    let derived = match get_key_from_user_credentials(username, password) {
        Ok(k) => k,
        Err(e) => return Err(e),
    };
    let master = generate_key();
    set_master_key(store, &master);
    Ok((derived, master))
}

/// The end of a login: the master key read from where it is stored (decrypted
/// with the key derived from the credentials) becomes the user's, and is
/// given back. Fails with [`Error::NotFound`], changing nothing, when no
/// master key is stored.
pub fn login_master_key(store: &mut KeyStore, stored_master_key: Option<Vec<u8>>) -> (r: Result<Vec<u8>, Error>)
    requires
        stored_master_key matches Some(k) ==> base64_fits(k@.len() as int),
    ensures
        match stored_master_key {
            Some(k) => {
                &&& r matches Ok(master) && master@ == k@
                &&& final(store).master_key() == k@
                &&& spec_load_master_key(final(store).stored()) == Ok::<Seq<u8>, Error>(k@)
            },
            None => {
                &&& r == Err::<Vec<u8>, Error>(Error::NotFound)
                &&& final(store).master_key() == old(store).master_key()
                &&& final(store).stored() == old(store).stored()
            },
        },
{
    match stored_master_key {
        Some(k) => {
            set_master_key(store, &k);
            Ok(k)
        },
        None => Err(Error::NotFound),
    }
}

/// An album with its photos' data, as the owner sees it: of the library's
/// photos, newest first, those in the album, and its cover. Fails when the
/// cover is not in the library.
pub fn get_album_full(album: &Album, library: &Library) -> (r: Result<AlbumExpanded, Error>)
    ensures
        expanded_view(r) == expand_album(album@.id, album@.title, album@.tags, album@.photos, album@.thumbnail_photo_id,
            library@.photos.reverse().map_values(|p: LibraryPhotoView| AlbumPhotoView { id: p.id, width: p.width, height: p.height, key: None })),
{
    let newest_first = library.photos_newest_first();
    let photos = album_photos_from_library(&newest_first);
    proof {
        assert(newest_first@.map_values(|p: LibraryPhoto| AlbumPhotoView { id: p.id@, width: p.width, height: p.height, key: None })
            =~= library@.photos.reverse().map_values(|p: LibraryPhotoView| AlbumPhotoView { id: p.id, width: p.width, height: p.height, key: None }));
    }
    inflate_album(album, &photos)
}

} // verus!
