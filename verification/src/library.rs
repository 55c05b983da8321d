//! Lookups in a user's library and the changes the client makes to it.

use vstd::prelude::*;
use crate::models::{
    ItemKey, ItemKeyView, Library, LibraryAlbum, LibraryPhoto, LibraryPhotoView, LibraryShare,
    LibraryShareView, Photo,
};
use crate::text::{contains_string, same_text, string_views};

verus! {

broadcast use vstd::seq_lib::group_seq_properties;

/// A copy of a vector of strings.
pub fn copy_strings(v: &Vec<String>) -> (r: Vec<String>)
    ensures
        r@ == v@,
{
    let mut r: Vec<String> = Vec::new();
    let mut i: usize = 0;
    while i < v.len()
        invariant
            i <= v@.len(),
            r@ == v@.take(i as int),
        decreases v@.len() - i,
    {
        r.push(v[i].clone());
        proof {
            assert(v@.take(i + 1) =~= v@.take(i as int).push(v@[i as int]));
        }
        i = i + 1;
    }
    proof {
        assert(v@.take(v@.len() as int) =~= v@);
    }
    r
}

/// A copy of a vector of bytes.
pub fn copy_bytes(v: &Vec<u8>) -> (r: Vec<u8>)
    ensures
        r@ == v@,
{
    vstd::slice::slice_to_vec(v.as_slice())
}

impl LibraryPhoto {
    /// A copy of the entry.
    pub fn duplicate(&self) -> (r: LibraryPhoto)
        ensures
            r == *self,
    {
        LibraryPhoto { id: self.id.clone(), hash: self.hash.clone(), width: self.width, height: self.height }
    }

    /// The library's entry for a stored photo.
    pub fn from_photo(photo: &Photo) -> (r: LibraryPhoto)
        ensures
            r.id@ == photo.id@,
            r.hash@ == photo.hash@,
            r.width == photo.width,
            r.height == photo.height,
    {
        LibraryPhoto { id: photo.id.clone(), hash: photo.hash.clone(), width: photo.width, height: photo.height }
    }
}

impl LibraryShare {
    /// A copy of the entry.
    pub fn duplicate(&self) -> (r: LibraryShare)
        ensures
            r == *self,
    {
        LibraryShare { id: self.id.clone(), password: self.password.clone(), album_id: self.album_id.clone() }
    }
}

/// No two key entries are for the same item.
pub open spec fn unique_item_keys(keys: Seq<ItemKeyView>) -> bool {
    forall|i: int, j: int|
        0 <= i < keys.len() && 0 <= j < keys.len() && i != j ==> #[trigger] keys[i].item_id != #[trigger] keys[j].item_id
}

/// The key of the first entry for an item, if any entry is for it.
pub open spec fn stored_key(keys: Seq<ItemKeyView>, item_id: Seq<char>) -> Option<Seq<u8>>
    decreases keys.len(),
{
    if keys.len() == 0 {
        None
    } else if keys[0].item_id == item_id {
        Some(keys[0].key)
    } else {
        stored_key(keys.drop_first(), item_id)
    }
}

/// The entry at `i` is the one [`stored_key`] reads when no earlier entry is
/// for the same item.
pub proof fn lemma_stored_key_first(keys: Seq<ItemKeyView>, i: int)
    requires
        0 <= i < keys.len(),
        forall|j: int| 0 <= j < i ==> #[trigger] keys[j].item_id != keys[i].item_id,
    ensures
        stored_key(keys, keys[i].item_id) == Some(keys[i].key),
    decreases i,
{
    if i > 0 {
        let rest = keys.drop_first();
        assert forall|j: int| 0 <= j < i - 1 implies #[trigger] rest[j].item_id != rest[i - 1].item_id by {
            assert(rest[j] == keys[j + 1]);
        }
        lemma_stored_key_first(rest, i - 1);
        assert(keys[0].item_id != keys[i].item_id);
    }
}

/// No entry for an item: [`stored_key`] reads nothing.
pub proof fn lemma_stored_key_absent(keys: Seq<ItemKeyView>, item_id: Seq<char>)
    requires
        forall|j: int| 0 <= j < keys.len() ==> #[trigger] keys[j].item_id != item_id,
    ensures
        stored_key(keys, item_id) is None,
    decreases keys.len(),
{
    if keys.len() > 0 {
        let rest = keys.drop_first();
        assert forall|j: int| 0 <= j < rest.len() implies #[trigger] rest[j].item_id != item_id by {
            assert(rest[j] == keys[j + 1]);
        }
        lemma_stored_key_absent(rest, item_id);
    }
}

/// The entries that are not for `item_id`.
pub open spec fn keys_without(keys: Seq<ItemKeyView>, item_id: Seq<char>) -> Seq<ItemKeyView> {
    keys.filter(|k: ItemKeyView| k.item_id != item_id)
}

/// The library's photos that are not among `ids`.
pub open spec fn photos_without(photos: Seq<LibraryPhotoView>, ids: Seq<Seq<char>>) -> Seq<LibraryPhotoView> {
    photos.filter(|p: LibraryPhotoView| !ids.contains(p.id))
}

/// The library's shares other than `share_id`.
pub open spec fn shares_without(shares: Seq<LibraryShareView>, share_id: Seq<char>) -> Seq<LibraryShareView> {
    shares.filter(|s: LibraryShareView| s.id != share_id)
}

/// The library's album ids other than `album_id`.
pub open spec fn albums_without(albums: Seq<Seq<char>>, album_id: Seq<char>) -> Seq<Seq<char>> {
    albums.filter(|a: Seq<char>| a != album_id)
}

impl Library {
    /// Whether no two key entries are for the same item.
    pub open spec fn wf(&self) -> bool {
        unique_item_keys(self@.item_keys)
    }

    /// An empty library.
    pub fn new() -> (r: Library)
        ensures
            r@.item_keys.len() == 0,
            r@.photos.len() == 0,
            r@.albums.len() == 0,
            r@.shares.len() == 0,
            r.wf(),
    {
        Library { item_keys: Vec::new(), photos: Vec::new(), albums: Vec::new(), shares: Vec::new() }
    }

    /// The key of an item of the library.
    pub fn find_encryption_key(&self, item_id: &str) -> (r: Option<&Vec<u8>>)
        ensures
            match r {
                Some(k) => stored_key(self@.item_keys, item_id@) == Some(k@),
                None => stored_key(self@.item_keys, item_id@) is None,
            },
    {
        let ghost keys = self@.item_keys;
        let mut i: usize = 0;
        while i < self.item_keys.len()
            invariant
                i <= self.item_keys@.len(),
                keys == self@.item_keys,
                keys.len() == self.item_keys@.len(),
                forall|j: int| 0 <= j < i ==> #[trigger] keys[j].item_id != item_id@,
            decreases self.item_keys@.len() - i,
        {
            let entry = &self.item_keys[i];
            if same_text(entry.item_id.as_str(), item_id) {
                proof {
                    assert(keys[i as int] == entry@);
                    lemma_stored_key_first(keys, i as int);
                }
                return Some(&entry.key);
            }
            proof {
                assert(keys[i as int] == entry@);
            }
            i = i + 1;
        }
        proof {
            lemma_stored_key_absent(keys, item_id@);
        }
        None
    }

    /// Stores the key of an item, in place of any key stored for it before.
    pub fn set_item_key(&mut self, item_id: String, key: Vec<u8>)
        ensures
            old(self).wf() ==> final(self).wf(),
            final(self)@.item_keys == keys_without(old(self)@.item_keys, item_id@).push(ItemKeyView { item_id: item_id@, key: key@ }),
            final(self)@.photos == old(self)@.photos,
            final(self)@.albums == old(self)@.albums,
            final(self)@.shares == old(self)@.shares,
    {
        let ghost old_keys = self@.item_keys;
        let ghost pred = |k: ItemKeyView| k.item_id != item_id@;
        let mut kept: Vec<ItemKey> = Vec::new();
        let mut i: usize = 0;
        while i < self.item_keys.len()
            invariant
                i <= self.item_keys@.len(),
                old_keys == self@.item_keys,
                old_keys.len() == self.item_keys@.len(),
                kept@.map_values(|k: ItemKey| k@) == old_keys.take(i as int).filter(pred),
                pred == (|k: ItemKeyView| k.item_id != item_id@),
            decreases self.item_keys@.len() - i,
        {
            let entry = &self.item_keys[i];
            proof {
                assert(old_keys.take(i + 1) =~= old_keys.take(i as int).push(old_keys[i as int]));
                old_keys.take(i as int).lemma_filter_push(old_keys[i as int], pred);
                assert(old_keys[i as int] == entry@);
            }
            if !(entry.item_id == item_id) {
                let copy = ItemKey { item_id: entry.item_id.clone(), key: copy_bytes(&entry.key) };
                kept.push(copy);
                proof {
                    assert(kept@.map_values(|k: ItemKey| k@) =~= old_keys.take(i + 1).filter(pred));
                }
            }
            i = i + 1;
        }
        proof {
            assert(old_keys.take(old_keys.len() as int) =~= old_keys);
        }
        let ghost filtered = kept@.map_values(|k: ItemKey| k@);
        let entry = ItemKey { item_id, key };
        kept.push(entry);
        proof {
            assert(kept@.map_values(|k: ItemKey| k@) =~= filtered.push(entry@));
            if unique_item_keys(old_keys) {
                lemma_keys_without_push_unique(old_keys, entry@.item_id, entry@.key);
            }
        }
        self.item_keys = kept;
    }

    /// The index of the first photo with the given hash.
    pub fn find_photo_by_hash(&self, hash: &str) -> (r: Option<usize>)
        ensures
            match r {
                Some(i) => i < self@.photos.len() && self@.photos[i as int].hash == hash@
                    && forall|j: int| 0 <= j < i ==> #[trigger] self@.photos[j].hash != hash@,
                None => forall|j: int| 0 <= j < self@.photos.len() ==> #[trigger] self@.photos[j].hash != hash@,
            },
    {
        let mut i: usize = 0;
        while i < self.photos.len()
            invariant
                i <= self.photos@.len(),
                forall|j: int| 0 <= j < i ==> #[trigger] self@.photos[j].hash != hash@,
            decreases self.photos@.len() - i,
        {
            if same_text(self.photos[i].hash.as_str(), hash) {
                return Some(i);
            }
            i = i + 1;
        }
        None
    }

    /// The library's photos, the most recently added first.
    pub fn photos_newest_first(&self) -> (r: Vec<LibraryPhoto>)
        ensures
            r@.map_values(|p: LibraryPhoto| p@) == self@.photos.reverse(),
    {
        let mut r: Vec<LibraryPhoto> = Vec::new();
        let mut i: usize = self.photos.len();
        while i > 0
            invariant
                i <= self.photos@.len(),
                r@.map_values(|p: LibraryPhoto| p@) == self@.photos.subrange(i as int, self@.photos.len() as int).reverse(),
            decreases i,
        {
            i = i - 1;
            let photo = self.photos[i].duplicate();
            let ghost prev = r@.map_values(|p: LibraryPhoto| p@);
            r.push(photo);
            proof {
                let all = self@.photos;
                assert(photo@ == all[i as int]);
                assert(r@.map_values(|p: LibraryPhoto| p@) =~= prev.push(photo@));
                assert(all.subrange(i as int, all.len() as int).reverse() =~= all.subrange(i + 1, all.len() as int).reverse().push(all[i as int]));
            }
        }
        proof {
            assert(self@.photos.subrange(0, self@.photos.len() as int) =~= self@.photos);
        }
        r
    }

    /// The first share of the given album.
    pub fn share_for_album(&self, album_id: &str) -> (r: Option<LibraryShare>)
        ensures
            match r {
                Some(s) => exists|i: int| 0 <= i < self@.shares.len() && self@.shares[i] == s@
                    && s@.album_id == album_id@
                    && forall|j: int| 0 <= j < i ==> #[trigger] self@.shares[j].album_id != album_id@,
                None => forall|j: int| 0 <= j < self@.shares.len() ==> #[trigger] self@.shares[j].album_id != album_id@,
            },
    {
        let mut i: usize = 0;
        while i < self.shares.len()
            invariant
                i <= self.shares@.len(),
                forall|j: int| 0 <= j < i ==> #[trigger] self@.shares[j].album_id != album_id@,
            decreases self.shares@.len() - i,
        {
            if same_text(self.shares[i].album_id.as_str(), album_id) {
                let s = self.shares[i].duplicate();
                assert(self@.shares[i as int] == s@);
                return Some(s);
            }
            i = i + 1;
        }
        None
    }

    /// The ids of all shares of the given album, in the library's order.
    pub fn share_ids_for_album(&self, album_id: &str) -> (r: Vec<String>)
        ensures
            string_views(r@) == self@.shares.filter(|s: LibraryShareView| s.album_id == album_id@).map_values(|s: LibraryShareView| s.id),
    {
        let ghost shares = self@.shares;
        let ghost pred = |s: LibraryShareView| s.album_id == album_id@;
        let mut r: Vec<String> = Vec::new();
        let mut i: usize = 0;
        while i < self.shares.len()
            invariant
                i <= self.shares@.len(),
                shares == self@.shares,
                shares.len() == self.shares@.len(),
                pred == (|s: LibraryShareView| s.album_id == album_id@),
                string_views(r@) == shares.take(i as int).filter(pred).map_values(|s: LibraryShareView| s.id),
            decreases self.shares@.len() - i,
        {
            proof {
                assert(shares.take(i + 1) =~= shares.take(i as int).push(shares[i as int]));
                shares.take(i as int).lemma_filter_push(shares[i as int], pred);
                assert(shares[i as int] == self.shares@[i as int]@);
            }
            if same_text(self.shares[i].album_id.as_str(), album_id) {
                let ghost prev = r@;
                r.push(self.shares[i].id.clone());
                proof {
                    let before = shares.take(i as int).filter(pred);
                    assert(shares.take(i + 1).filter(pred) == before.push(shares[i as int]));
                    assert(before.push(shares[i as int]).map_values(|s: LibraryShareView| s.id) =~= before.map_values(|s: LibraryShareView| s.id).push(shares[i as int].id));
                    assert(string_views(r@) =~= string_views(prev).push(shares[i as int].id));
                }
            }
            i = i + 1;
        }
        proof {
            assert(shares.take(shares.len() as int) =~= shares);
        }
        r
    }

    /// Lists a new album and stores its key.
    pub fn add_album(&mut self, album_id: String, key: Vec<u8>)
        ensures
            old(self).wf() ==> final(self).wf(),
            final(self)@.albums == old(self)@.albums.push(album_id@),
            final(self)@.item_keys == keys_without(old(self)@.item_keys, album_id@).push(ItemKeyView { item_id: album_id@, key: key@ }),
            final(self)@.photos == old(self)@.photos,
            final(self)@.shares == old(self)@.shares,
    {
        let entry = LibraryAlbum { id: album_id.clone() };
        self.albums.push(entry);
        proof {
            assert(self@.albums =~= old(self)@.albums.push(album_id@));
        }
        self.set_item_key(album_id, key);
    }

    /// Removes an album from the library's list of albums.
    pub fn remove_album(&mut self, album_id: &str)
        ensures
            final(self)@.albums == albums_without(old(self)@.albums, album_id@),
            final(self)@.item_keys == old(self)@.item_keys,
            final(self)@.photos == old(self)@.photos,
            final(self)@.shares == old(self)@.shares,
    {
        let ghost albums = self@.albums;
        let ghost pred = |a: Seq<char>| a != album_id@;
        let mut kept: Vec<LibraryAlbum> = Vec::new();
        let mut i: usize = 0;
        while i < self.albums.len()
            invariant
                i <= self.albums@.len(),
                albums == old(self)@.albums,
                albums == self@.albums,
                albums.len() == self.albums@.len(),
                pred == (|a: Seq<char>| a != album_id@),
                kept@.map_values(|a: LibraryAlbum| a.id@) == albums.take(i as int).filter(pred),
            decreases self.albums@.len() - i,
        {
            proof {
                assert(albums.take(i + 1) =~= albums.take(i as int).push(albums[i as int]));
                albums.take(i as int).lemma_filter_push(albums[i as int], pred);
            }
            if !same_text(self.albums[i].id.as_str(), album_id) {
                kept.push(LibraryAlbum { id: self.albums[i].id.clone() });
                proof {
                    assert(kept@.map_values(|a: LibraryAlbum| a.id@) =~= albums.take(i + 1).filter(pred));
                }
            }
            i = i + 1;
        }
        proof {
            assert(albums.take(albums.len() as int) =~= albums);
        }
        self.albums = kept;
    }

    /// Removes a share from the library's list of shares.
    pub fn remove_share(&mut self, share_id: &str)
        ensures
            final(self)@.shares == shares_without(old(self)@.shares, share_id@),
            final(self)@.item_keys == old(self)@.item_keys,
            final(self)@.photos == old(self)@.photos,
            final(self)@.albums == old(self)@.albums,
    {
        let ghost shares = self@.shares;
        let ghost pred = |s: LibraryShareView| s.id != share_id@;
        let mut kept: Vec<LibraryShare> = Vec::new();
        let mut i: usize = 0;
        while i < self.shares.len()
            invariant
                i <= self.shares@.len(),
                shares == old(self)@.shares,
                shares == self@.shares,
                shares.len() == self.shares@.len(),
                pred == (|s: LibraryShareView| s.id != share_id@),
                kept@.map_values(|s: LibraryShare| s@) == shares.take(i as int).filter(pred),
            decreases self.shares@.len() - i,
        {
            proof {
                assert(shares.take(i + 1) =~= shares.take(i as int).push(shares[i as int]));
                shares.take(i as int).lemma_filter_push(shares[i as int], pred);
                assert(shares[i as int] == self.shares@[i as int]@);
            }
            if !same_text(self.shares[i].id.as_str(), share_id) {
                kept.push(self.shares[i].duplicate());
                proof {
                    assert(kept@.map_values(|s: LibraryShare| s@) =~= shares.take(i + 1).filter(pred));
                }
            }
            i = i + 1;
        }
        proof {
            assert(shares.take(shares.len() as int) =~= shares);
        }
        self.shares = kept;
    }

    /// Records a share of an album, in place of any share with the same id,
    /// and stores the share's key.
    pub fn upsert_share(&mut self, share: LibraryShare, key: Vec<u8>)
        ensures
            old(self).wf() ==> final(self).wf(),
            final(self)@.shares == shares_without(old(self)@.shares, share.id@).push(share@),
            final(self)@.item_keys == keys_without(old(self)@.item_keys, share.id@).push(ItemKeyView { item_id: share.id@, key: key@ }),
            final(self)@.photos == old(self)@.photos,
            final(self)@.albums == old(self)@.albums,
    {
        let share_id = share.id.clone();
        self.remove_share(share_id.as_str());
        let ghost before = self@.shares;
        self.shares.push(share);
        proof {
            assert(self@.shares =~= before.push(share@));
        }
        self.set_item_key(share_id, key);
    }

    /// Removes the given photos from the library.
    pub fn remove_photos(&mut self, ids: &Vec<String>)
        ensures
            final(self)@.photos == photos_without(old(self)@.photos, string_views(ids@)),
            final(self)@.item_keys == old(self)@.item_keys,
            final(self)@.albums == old(self)@.albums,
            final(self)@.shares == old(self)@.shares,
    {
        let ghost photos = self@.photos;
        let ghost pred = |p: LibraryPhotoView| !string_views(ids@).contains(p.id);
        let mut kept: Vec<LibraryPhoto> = Vec::new();
        let mut i: usize = 0;
        while i < self.photos.len()
            invariant
                i <= self.photos@.len(),
                photos == old(self)@.photos,
                photos == self@.photos,
                photos.len() == self.photos@.len(),
                pred == (|p: LibraryPhotoView| !string_views(ids@).contains(p.id)),
                kept@.map_values(|p: LibraryPhoto| p@) == photos.take(i as int).filter(pred),
            decreases self.photos@.len() - i,
        {
            proof {
                assert(photos.take(i + 1) =~= photos.take(i as int).push(photos[i as int]));
                photos.take(i as int).lemma_filter_push(photos[i as int], pred);
                assert(photos[i as int] == self.photos@[i as int]@);
            }
            if !contains_string(ids, &self.photos[i].id) {
                kept.push(self.photos[i].duplicate());
                proof {
                    assert(kept@.map_values(|p: LibraryPhoto| p@) =~= photos.take(i + 1).filter(pred));
                }
            }
            i = i + 1;
        }
        proof {
            assert(photos.take(photos.len() as int) =~= photos);
        }
        self.photos = kept;
    }

    /// Lists a newly stored photo and stores its key.
    pub fn add_photo(&mut self, photo: &Photo, key: Vec<u8>)
        ensures
            old(self).wf() ==> final(self).wf(),
            final(self)@.photos == old(self)@.photos.push(LibraryPhotoView { id: photo.id@, hash: photo.hash@, width: photo.width, height: photo.height }),
            final(self)@.item_keys == keys_without(old(self)@.item_keys, photo.id@).push(ItemKeyView { item_id: photo.id@, key: key@ }),
            final(self)@.albums == old(self)@.albums,
            final(self)@.shares == old(self)@.shares,
    {
        let entry = LibraryPhoto::from_photo(photo);
        self.photos.push(entry);
        proof {
            assert(self@.photos =~= old(self)@.photos.push(entry@));
        }
        self.set_item_key(photo.id.clone(), key);
    }
}

/// Storing a key in place of the item's earlier ones keeps the entries unique.
proof fn lemma_keys_without_push_unique(keys: Seq<ItemKeyView>, item_id: Seq<char>, key: Seq<u8>)
    requires
        unique_item_keys(keys),
    ensures
        unique_item_keys(keys_without(keys, item_id).push(ItemKeyView { item_id, key })),
{
    let pred = |k: ItemKeyView| k.item_id != item_id;
    let filtered = keys.filter(pred);
    let after = filtered.push(ItemKeyView { item_id, key });
    assert forall|a: int, b: int|
        0 <= a < filtered.len() && 0 <= b < filtered.len() && a != b implies #[trigger] filtered[a].item_id != #[trigger] filtered[b].item_id by {
        lemma_filter_unique(keys, pred, a, b);
    }
    assert forall|a: int| 0 <= a < filtered.len() implies #[trigger] filtered[a].item_id != item_id by {
        keys.lemma_filter_pred(pred, a);
    }
    assert forall|a: int, b: int|
        0 <= a < after.len() && 0 <= b < after.len() && a != b implies #[trigger] after[a].item_id != #[trigger] after[b].item_id by {
        if a < filtered.len() && b < filtered.len() {
            assert(after[a] == filtered[a] && after[b] == filtered[b]);
        } else if a < filtered.len() {
            assert(after[a] == filtered[a]);
        } else {
            assert(after[b] == filtered[b]);
        }
    }
}

/// Reading through an entry appended after others: the first of the others
/// for the item, else the appended entry if it is for the item.
proof fn lemma_stored_key_push(keys: Seq<ItemKeyView>, entry: ItemKeyView, item_id: Seq<char>)
    ensures
        stored_key(keys.push(entry), item_id) == (match stored_key(keys, item_id) {
            Some(k) => Some(k),
            None => if entry.item_id == item_id { Some(entry.key) } else { None },
        }),
    decreases keys.len(),
{
    let pushed = keys.push(entry);
    if keys.len() > 0 {
        assert(pushed.drop_first() =~= keys.drop_first().push(entry));
        assert(pushed[0] == keys[0]);
        lemma_stored_key_push(keys.drop_first(), entry, item_id);
    } else {
        assert(pushed.drop_first() =~= Seq::<ItemKeyView>::empty());
    }
}

/// Dropping the entries of one item changes what is read for no other item.
proof fn lemma_stored_key_without(keys: Seq<ItemKeyView>, item_id: Seq<char>, other: Seq<char>)
    requires
        other != item_id,
    ensures
        stored_key(keys_without(keys, item_id), other) == stored_key(keys, other),
    decreases keys.len(),
{
    let pred = |k: ItemKeyView| k.item_id != item_id;
    if keys.len() > 0 {
        let init = keys.drop_last();
        let last = keys.last();
        assert(keys =~= init.push(last));
        lemma_stored_key_without(init, item_id, other);
        lemma_stored_key_push(init, last, other);
        init.lemma_filter_push(last, pred);
        if pred(last) {
            lemma_stored_key_push(init.filter(pred), last, other);
        }
    }
}

/// Reading a key after storing it gives the stored key, and the keys of the
/// other items stay as they were.
pub proof fn lemma_set_key_then_stored(keys: Seq<ItemKeyView>, item_id: Seq<char>, key: Seq<u8>, other: Seq<char>)
    requires
        other != item_id,
    ensures
        stored_key(keys_without(keys, item_id).push(ItemKeyView { item_id, key }), item_id) == Some(key),
        stored_key(keys_without(keys, item_id).push(ItemKeyView { item_id, key }), other) == stored_key(keys, other),
{
    let pred = |k: ItemKeyView| k.item_id != item_id;
    let kept = keys.filter(pred);
    let entry = ItemKeyView { item_id, key };
    assert forall|j: int| 0 <= j < kept.len() implies #[trigger] kept[j].item_id != item_id by {
        keys.lemma_filter_pred(pred, j);
    }
    lemma_stored_key_absent(kept, item_id);
    lemma_stored_key_push(kept, entry, item_id);
    lemma_stored_key_push(kept, entry, other);
    lemma_stored_key_without(keys, item_id, other);
}

impl Default for Library {
    /// An empty library.
    fn default() -> (r: Library)
        ensures
            r@.item_keys.len() == 0,
            r@.photos.len() == 0,
            r@.albums.len() == 0,
            r@.shares.len() == 0,
    {
        Library::new()
    }
}

/// Keeping some entries of a sequence with unique item ids keeps them unique.
proof fn lemma_filter_unique(keys: Seq<ItemKeyView>, pred: spec_fn(ItemKeyView) -> bool, a: int, b: int)
    requires
        unique_item_keys(keys),
        0 <= a < keys.filter(pred).len(),
        0 <= b < keys.filter(pred).len(),
        a != b,
    ensures
        keys.filter(pred)[a].item_id != keys.filter(pred)[b].item_id,
    decreases keys.len(),
{
    reveal(Seq::filter);
    if keys.len() > 0 {
        let rest = keys.drop_last();
        assert(unique_item_keys(rest)) by {
            assert forall|i: int, j: int|
                0 <= i < rest.len() && 0 <= j < rest.len() && i != j implies #[trigger] rest[i].item_id != #[trigger] rest[j].item_id by {
                assert(rest[i] == keys[i] && rest[j] == keys[j]);
            }
        }
        let sub = rest.filter(pred);
        if pred(keys.last()) {
            if a < sub.len() && b < sub.len() {
                lemma_filter_unique(rest, pred, a, b);
            } else {
                let other = if a < sub.len() { a } else { b };
                assert(rest.filter(pred).contains(sub[other]));
                lemma_filter_member(rest, pred, other);
                let k = choose|k: int| 0 <= k < rest.len() && rest[k] == sub[other];
                assert(keys[k] == rest[k]);
                assert(keys[keys.len() - 1] == keys.last());
            }
        } else {
            lemma_filter_unique(rest, pred, a, b);
        }
    }
}

/// Every element kept by a filter is an element of the sequence.
pub proof fn lemma_filter_member<A>(s: Seq<A>, pred: spec_fn(A) -> bool, a: int)
    requires
        0 <= a < s.filter(pred).len(),
    ensures
        exists|k: int| 0 <= k < s.len() && s[k] == s.filter(pred)[a],
    decreases s.len(),
{
    reveal(Seq::filter);
    if s.len() > 0 {
        let rest = s.drop_last();
        let sub = rest.filter(pred);
        if a < sub.len() {
            lemma_filter_member(rest, pred, a);
            let k = choose|k: int| 0 <= k < rest.len() && rest[k] == sub[a];
            assert(s[k] == rest[k]);
        } else {
            assert(s[s.len() - 1] == s.filter(pred)[a]);
        }
    }
}

/// A filter that keeps every element of a sequence keeps the sequence.
pub proof fn lemma_filter_keeps_all<A>(s: Seq<A>, pred: spec_fn(A) -> bool)
    requires
        forall|i: int| 0 <= i < s.len() ==> pred(#[trigger] s[i]),
    ensures
        s.filter(pred) == s,
    decreases s.len(),
{
    reveal(Seq::filter);
    if s.len() > 0 {
        let rest = s.drop_last();
        assert forall|i: int| 0 <= i < rest.len() implies pred(#[trigger] rest[i]) by {
            assert(rest[i] == s[i]);
        }
        lemma_filter_keeps_all(rest, pred);
        assert(pred(s[s.len() - 1]));
        assert(s.filter(pred) =~= s);
    }
}

} // verus!
