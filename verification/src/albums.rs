//! What the client does to an album: create it, add and remove photos, set
//! its cover, title and tags, and expand it with its photos' data.

use vstd::prelude::*;
use crate::error::Error;
use crate::library::{copy_bytes, copy_strings, lemma_filter_member};
use crate::models::{
    Album, AlbumExpanded, AlbumExpandedView, AlbumPhoto, AlbumPhotoView, AlbumShareDataPhoto,
    LibraryPhoto, opt_album_photo, opt_text,
};
use crate::encoding::{base64_encode, base64_fits, encode_base64};
use crate::text::{contains_str, contains_string, same_text, string_views};

verus! {

broadcast use vstd::seq_lib::group_seq_properties;

/// The photo ids of an album after adding `ids` one by one, each only if it
/// is not in the album yet.
pub open spec fn with_photos_added(photos: Seq<Seq<char>>, ids: Seq<Seq<char>>) -> Seq<Seq<char>>
    decreases ids.len(),
{
    if ids.len() == 0 {
        photos
    } else {
        let prev = with_photos_added(photos, ids.drop_last());
        if prev.contains(ids.last()) {
            prev
        } else {
            prev.push(ids.last())
        }
    }
}

/// The photo ids of an album without those among `ids`.
pub open spec fn with_photos_removed(photos: Seq<Seq<char>>, ids: Seq<Seq<char>>) -> Seq<Seq<char>> {
    photos.filter(|p: Seq<char>| !ids.contains(p))
}

/// An album's cover after removing the photos `ids`: unset if it is one of them.
pub open spec fn cover_after_removal(cover: Option<Seq<char>>, ids: Seq<Seq<char>>) -> Option<Seq<char>> {
    match cover {
        Some(c) => if ids.contains(c) { None } else { Some(c) },
        None => None,
    }
}

/// The first photo with the given id.
pub open spec fn first_photo_with_id(photos: Seq<AlbumPhotoView>, id: Seq<char>) -> Option<AlbumPhotoView> {
    if exists|i: int| 0 <= i < photos.len() && #[trigger] photos[i].id == id {
        let i = choose|i: int|
            0 <= i < photos.len() && #[trigger] photos[i].id == id && forall|j: int| 0 <= j < i ==> photos[j].id != id;
        Some(photos[i])
    } else {
        None
    }
}

/// An album with its photos' data: of the given photos, those that belong to
/// the album, in the order given, and the cover photo's data. Fails when
/// the cover is none of the given photos.
pub open spec fn expand_album(
    id: Seq<char>,
    title: Seq<char>,
    tags: Seq<Seq<char>>,
    photo_ids: Seq<Seq<char>>,
    cover: Option<Seq<char>>,
    photos: Seq<AlbumPhotoView>,
) -> Result<AlbumExpandedView, Error> {
    let in_album = photos.filter(|p: AlbumPhotoView| photo_ids.contains(p.id));
    match cover {
        None => Ok(AlbumExpandedView { id, title, tags, photos: in_album, thumbnail_photo: None }),
        Some(c) => match first_photo_with_id(photos, c) {
            Some(p) => Ok(AlbumExpandedView { id, title, tags, photos: in_album, thumbnail_photo: Some(p) }),
            None => Err(Error::NotFound),
        },
    }
}

/// The view of an expansion's result.
pub open spec fn expanded_view(r: Result<AlbumExpanded, Error>) -> Result<AlbumExpandedView, Error> {
    match r {
        Ok(a) => Ok(a@),
        Err(e) => Err(e),
    }
}

/// The views of a sequence of album photos.
pub open spec fn album_photo_views(photos: Seq<AlbumPhoto>) -> Seq<AlbumPhotoView> {
    photos.map_values(|p: AlbumPhoto| p@)
}

impl Album {
    /// A new album with the given photos; its cover is the first of them.
    pub fn new(id: String, key: Vec<u8>, title: String, photos: Vec<String>) -> (r: Album)
        ensures
            r@.id == id@,
            r@.key == key@,
            r@.title == title@,
            r@.tags.len() == 0,
            r@.photos == string_views(photos@),
            r@.thumbnail_photo_id == (if photos@.len() > 0 { Some(photos@[0]@) } else { None::<Seq<char>> }),
    {
        let thumbnail_photo_id = if photos.len() > 0 { Some(photos[0].clone()) } else { None };
        let r = Album { id, key, title, thumbnail_photo_id, tags: Vec::new(), photos };
        proof {
            assert(r@.tags =~= Seq::<Seq<char>>::empty());
        }
        r
    }

    /// A copy of the album.
    pub fn duplicate(&self) -> (r: Album)
        ensures
            r@ == self@,
    {
        let thumbnail_photo_id = match &self.thumbnail_photo_id {
            Some(t) => Some(t.clone()),
            None => None,
        };
        Album {
            id: self.id.clone(),
            key: copy_bytes(&self.key),
            title: self.title.clone(),
            thumbnail_photo_id,
            tags: copy_strings(&self.tags),
            photos: copy_strings(&self.photos),
        }
    }

    /// Adds the given photos, each only if the album does not hold it yet.
    pub fn add_photos(&mut self, photo_ids: &[String])
        ensures
            final(self)@.photos == with_photos_added(old(self)@.photos, string_views(photo_ids@)),
            final(self)@.id == old(self)@.id,
            final(self)@.key == old(self)@.key,
            final(self)@.title == old(self)@.title,
            final(self)@.tags == old(self)@.tags,
            final(self)@.thumbnail_photo_id == old(self)@.thumbnail_photo_id,
    {
        let ghost ids = string_views(photo_ids@);
        let mut i: usize = 0;
        while i < photo_ids.len()
            invariant
                i <= photo_ids@.len(),
                ids == string_views(photo_ids@),
                self@.photos == with_photos_added(old(self)@.photos, ids.take(i as int)),
                self@.id == old(self)@.id,
                self@.key == old(self)@.key,
                self@.title == old(self)@.title,
                self@.tags == old(self)@.tags,
                self@.thumbnail_photo_id == old(self)@.thumbnail_photo_id,
            decreases photo_ids@.len() - i,
        {
            proof {
                assert(ids.take(i + 1).drop_last() =~= ids.take(i as int));
                assert(ids.take(i + 1).last() == photo_ids@[i as int]@);
            }
            if !contains_string(&self.photos, &photo_ids[i]) {
                let ghost prev = self.photos@;
                self.photos.push(photo_ids[i].clone());
                proof {
                    assert(string_views(self.photos@) =~= string_views(prev).push(photo_ids@[i as int]@));
                }
            }
            i = i + 1;
        }
        proof {
            assert(ids.take(photo_ids@.len() as int) =~= ids);
        }
    }

    /// Removes the given photos; the cover is unset if it is one of them.
    pub fn remove_photos(&mut self, photo_ids: &[String])
        ensures
            final(self)@.photos == with_photos_removed(old(self)@.photos, string_views(photo_ids@)),
            final(self)@.thumbnail_photo_id == cover_after_removal(old(self)@.thumbnail_photo_id, string_views(photo_ids@)),
            final(self)@.id == old(self)@.id,
            final(self)@.key == old(self)@.key,
            final(self)@.title == old(self)@.title,
            final(self)@.tags == old(self)@.tags,
    {
        let ghost ids = string_views(photo_ids@);
        let ghost photos = old(self)@.photos;
        let ghost pred = |p: Seq<char>| !ids.contains(p);
        let mut kept: Vec<String> = Vec::new();
        let mut i: usize = 0;
        while i < self.photos.len()
            invariant
                i <= self.photos@.len(),
                ids == string_views(photo_ids@),
                photos == self@.photos,
                photos == old(self)@.photos,
                photos.len() == self.photos@.len(),
                *self == *old(self),
                pred == (|p: Seq<char>| !ids.contains(p)),
                string_views(kept@) == photos.take(i as int).filter(pred),
            decreases self.photos@.len() - i,
        {
            proof {
                assert(photos.take(i + 1) =~= photos.take(i as int).push(photos[i as int]));
                photos.take(i as int).lemma_filter_push(photos[i as int], pred);
            }
            if !contains_str(photo_ids, self.photos[i].as_str()) {
                let ghost prev = kept@;
                kept.push(self.photos[i].clone());
                proof {
                    assert(string_views(kept@) =~= string_views(prev).push(photos[i as int]));
                }
            }
            i = i + 1;
        }
        proof {
            assert(photos.take(photos.len() as int) =~= photos);
        }
        self.photos = kept;
        let clear = match &self.thumbnail_photo_id {
            Some(t) => contains_str(photo_ids, t.as_str()),
            None => false,
        };
        if clear {
            self.thumbnail_photo_id = None;
        }
    }

    /// Sets the album's title and tags.
    pub fn set_title_tags(&mut self, title: &str, tags: Vec<String>)
        ensures
            final(self)@.title == title@,
            final(self)@.tags == string_views(tags@),
            final(self)@.id == old(self)@.id,
            final(self)@.key == old(self)@.key,
            final(self)@.photos == old(self)@.photos,
            final(self)@.thumbnail_photo_id == old(self)@.thumbnail_photo_id,
    {
        self.title = String::from_str(title);
        self.tags = tags;
    }

    /// Sets the album's cover photo.
    pub fn set_cover(&mut self, thumbnail_photo_id: &str)
        ensures
            final(self)@.thumbnail_photo_id == Some(thumbnail_photo_id@),
            final(self)@.id == old(self)@.id,
            final(self)@.key == old(self)@.key,
            final(self)@.title == old(self)@.title,
            final(self)@.tags == old(self)@.tags,
            final(self)@.photos == old(self)@.photos,
    {
        self.thumbnail_photo_id = Some(String::from_str(thumbnail_photo_id));
    }
}

impl AlbumPhoto {
    /// A copy of the photo.
    pub fn duplicate(&self) -> (r: AlbumPhoto)
        ensures
            r == *self,
    {
        let key = match &self.key {
            Some(k) => Some(k.clone()),
            None => None,
        };
        AlbumPhoto { id: self.id.clone(), width: self.width, height: self.height, key }
    }

    /// A photo of the owner's library, shown without a key.
    pub fn from_library_photo(source: LibraryPhoto) -> (r: AlbumPhoto)
        ensures
            r@ == (AlbumPhotoView { id: source.id@, width: source.width, height: source.height, key: None }),
    {
        AlbumPhoto { id: source.id, width: source.width, height: source.height, key: None }
    }

    /// A photo reached through a share, shown with its key in base64.
    pub fn from_share_photo(source: AlbumShareDataPhoto) -> (r: AlbumPhoto)
        requires
            base64_fits(source.key@.len() as int),
        ensures
            r@ == (AlbumPhotoView { id: source.id@, width: source.width, height: source.height, key: Some(base64_encode(source.key@)) }),
    {
        let key = encode_base64(source.key.as_slice());
        AlbumPhoto { id: source.id, width: source.width, height: source.height, key: Some(key) }
    }
}

/// The photos of the owner's library as album photos, in the same order.
pub fn album_photos_from_library(photos: &Vec<LibraryPhoto>) -> (r: Vec<AlbumPhoto>)
    ensures
        album_photo_views(r@) == photos@.map_values(|p: LibraryPhoto| AlbumPhotoView { id: p.id@, width: p.width, height: p.height, key: None }),
{
    let mut r: Vec<AlbumPhoto> = Vec::new();
    let mut i: usize = 0;
    while i < photos.len()
        invariant
            i <= photos@.len(),
            album_photo_views(r@) == photos@.take(i as int).map_values(|p: LibraryPhoto| AlbumPhotoView { id: p.id@, width: p.width, height: p.height, key: None }),
        decreases photos@.len() - i,
    {
        let ghost prev = r@;
        let item = AlbumPhoto::from_library_photo(photos[i].duplicate());
        r.push(item);
        proof {
            assert(album_photo_views(r@) =~= album_photo_views(prev).push(item@));
            assert(photos@.take(i + 1) =~= photos@.take(i as int).push(photos@[i as int]));
            assert(album_photo_views(r@) =~= photos@.take(i + 1).map_values(|p: LibraryPhoto| AlbumPhotoView { id: p.id@, width: p.width, height: p.height, key: None }));
        }
        i = i + 1;
    }
    proof {
        assert(photos@.take(photos@.len() as int) =~= photos@);
    }
    r
}

/// The first photo with the given id, if any.
fn find_photo(photos: &Vec<AlbumPhoto>, id: &str) -> (r: Option<AlbumPhoto>)
    ensures
        opt_album_photo(r) == first_photo_with_id(album_photo_views(photos@), id@),
{
    let ghost views = album_photo_views(photos@);
    let mut i: usize = 0;
    while i < photos.len()
        invariant
            i <= photos@.len(),
            views == album_photo_views(photos@),
            views.len() == photos@.len(),
            forall|j: int| 0 <= j < i ==> #[trigger] views[j].id != id@,
        decreases photos@.len() - i,
    {
        if same_text(photos[i].id.as_str(), id) {
            let found = photos[i].duplicate();
            proof {
                assert(views[i as int].id == id@);
                let k = choose|k: int|
                    0 <= k < views.len() && #[trigger] views[k].id == id@ && forall|j: int| 0 <= j < k ==> views[j].id != id@;
                if k < i {
                    assert(views[k].id != id@);
                } else if k > i {
                    assert(views[i as int].id != id@);
                }
                assert(found@ == views[i as int]);
            }
            return Some(found);
        }
        i = i + 1;
    }
    None
}

/// An album with its photos' data, from its parts.
pub fn expand(
    id: &String,
    title: &String,
    tags: &Vec<String>,
    photo_ids: &Vec<String>,
    cover: &Option<String>,
    photos: &Vec<AlbumPhoto>,
) -> (r: Result<AlbumExpanded, Error>)
    ensures
        expanded_view(r) == expand_album(id@, title@, string_views(tags@), string_views(photo_ids@), opt_text(*cover), album_photo_views(photos@)),
{
    let ghost views = album_photo_views(photos@);
    let ghost ids = string_views(photo_ids@);
    let ghost pred = |p: AlbumPhotoView| ids.contains(p.id);
    let mut in_album: Vec<AlbumPhoto> = Vec::new();
    let mut i: usize = 0;
    while i < photos.len()
        invariant
            i <= photos@.len(),
            views == album_photo_views(photos@),
            views.len() == photos@.len(),
            ids == string_views(photo_ids@),
            pred == (|p: AlbumPhotoView| ids.contains(p.id)),
            album_photo_views(in_album@) == views.take(i as int).filter(pred),
        decreases photos@.len() - i,
    {
        proof {
            assert(views.take(i + 1) =~= views.take(i as int).push(views[i as int]));
            views.take(i as int).lemma_filter_push(views[i as int], pred);
        }
        if contains_string(photo_ids, &photos[i].id) {
            let ghost prev = in_album@;
            in_album.push(photos[i].duplicate());
            proof {
                assert(album_photo_views(in_album@) =~= album_photo_views(prev).push(views[i as int]));
            }
        }
        i = i + 1;
    }
    proof {
        assert(views.take(views.len() as int) =~= views);
    }
    let thumbnail_photo = match cover {
        Some(c) => match find_photo(photos, c.as_str()) {
            Some(p) => Some(p),
            None => return Err(Error::NotFound),
        },
        None => None,
    };
    Ok(AlbumExpanded { id: id.clone(), title: title.clone(), tags: copy_strings(tags), photos: in_album, thumbnail_photo })
}

/// An album with its photos' data: of the given photos, those in the album,
/// and its cover photo. Fails when the cover is none of the given photos.
pub fn inflate_album(album: &Album, photos: &Vec<AlbumPhoto>) -> (r: Result<AlbumExpanded, Error>)
    ensures
        expanded_view(r) == expand_album(album@.id, album@.title, album@.tags, album@.photos, album@.thumbnail_photo_id, album_photo_views(photos@)),
{
    expand(&album.id, &album.title, &album.tags, &album.photos, &album.thumbnail_photo_id, photos)
}

/// Adding photos keeps the album's photos, in their order, at the front.
pub proof fn lemma_add_photos_keeps_order(photos: Seq<Seq<char>>, ids: Seq<Seq<char>>)
    ensures
        with_photos_added(photos, ids).len() >= photos.len(),
        with_photos_added(photos, ids).take(photos.len() as int) == photos,
    decreases ids.len(),
{
    if ids.len() > 0 {
        lemma_add_photos_keeps_order(photos, ids.drop_last());
        let prev = with_photos_added(photos, ids.drop_last());
        assert(prev.push(ids.last()).take(photos.len() as int) =~= prev.take(photos.len() as int));
    }
}

/// After adding photos, the album holds exactly the photos it held and the
/// added ones.
pub proof fn lemma_add_photos_members(photos: Seq<Seq<char>>, ids: Seq<Seq<char>>, x: Seq<char>)
    ensures
        with_photos_added(photos, ids).contains(x) <==> (photos.contains(x) || ids.contains(x)),
    decreases ids.len(),
{
    if ids.len() > 0 {
        lemma_add_photos_members(photos, ids.drop_last(), x);
        let prev = with_photos_added(photos, ids.drop_last());
        if ids.drop_last().contains(x) {
            let k = choose|k: int| 0 <= k < ids.drop_last().len() && ids.drop_last()[k] == x;
            assert(ids[k] == x);
        }
        if ids.contains(x) && x != ids.last() {
            let k = choose|k: int| 0 <= k < ids.len() && ids[k] == x;
            assert(ids.drop_last()[k] == x);
        }
        if !prev.contains(ids.last()) {
            assert(prev.push(ids.last())[prev.len() as int] == ids.last());
            if prev.push(ids.last()).contains(x) && x != ids.last() {
                let k = choose|k: int| 0 <= k < prev.len() + 1 && prev.push(ids.last())[k] == x;
                assert(prev[k] == x);
            }
        }
        assert(ids[ids.len() - 1] == ids.last());
    }
}

/// Adding photos to an album without repeated photos leaves none repeated.
pub proof fn lemma_add_photos_no_duplicates(photos: Seq<Seq<char>>, ids: Seq<Seq<char>>)
    requires
        photos.no_duplicates(),
    ensures
        with_photos_added(photos, ids).no_duplicates(),
    decreases ids.len(),
{
    if ids.len() > 0 {
        lemma_add_photos_no_duplicates(photos, ids.drop_last());
        let prev = with_photos_added(photos, ids.drop_last());
        if !prev.contains(ids.last()) {
            let next = prev.push(ids.last());
            assert forall|i: int, j: int| 0 <= i < next.len() && 0 <= j < next.len() && i != j implies next[i] != next[j] by {
                if i == prev.len() {
                    assert(prev[j] == next[j]);
                } else if j == prev.len() {
                    assert(prev[i] == next[i]);
                }
            }
        }
    }
}

/// Adding the same photos a second time changes nothing.
pub proof fn lemma_add_photos_idempotent(photos: Seq<Seq<char>>, ids: Seq<Seq<char>>)
    ensures
        with_photos_added(with_photos_added(photos, ids), ids) == with_photos_added(photos, ids),
{
    let once = with_photos_added(photos, ids);
    assert forall|x: Seq<char>| ids.contains(x) implies once.contains(x) by {
        lemma_add_photos_members(photos, ids, x);
    }
    lemma_add_present_photos(once, ids);
}

/// Adding photos that the album already holds changes nothing.
proof fn lemma_add_present_photos(photos: Seq<Seq<char>>, ids: Seq<Seq<char>>)
    requires
        forall|x: Seq<char>| ids.contains(x) ==> photos.contains(x),
    ensures
        with_photos_added(photos, ids) == photos,
    decreases ids.len(),
{
    if ids.len() > 0 {
        assert forall|x: Seq<char>| ids.drop_last().contains(x) implies photos.contains(x) by {
            let k = choose|k: int| 0 <= k < ids.drop_last().len() && ids.drop_last()[k] == x;
            assert(ids[k] == x);
        }
        lemma_add_present_photos(photos, ids.drop_last());
        assert(ids[ids.len() - 1] == ids.last());
    }
}

/// After adding photos, the album holds exactly the photos it held and the
/// added ones, without repeating any.
pub proof fn lemma_add_photos_law(photos: Seq<Seq<char>>, ids: Seq<Seq<char>>)
    requires
        photos.no_duplicates(),
    ensures
        with_photos_added(photos, ids).no_duplicates(),
        with_photos_added(photos, ids).take(photos.len() as int) == photos,
        forall|x: Seq<char>| #[trigger] with_photos_added(photos, ids).contains(x) <==> (photos.contains(x) || ids.contains(x)),
{
    lemma_add_photos_no_duplicates(photos, ids);
    lemma_add_photos_keeps_order(photos, ids);
    assert forall|x: Seq<char>| #[trigger] with_photos_added(photos, ids).contains(x) <==> (photos.contains(x) || ids.contains(x)) by {
        lemma_add_photos_members(photos, ids, x);
    }
}

/// After removing photos, the album holds exactly the photos it held that
/// were not removed, and its cover is none of the removed photos.
pub proof fn lemma_remove_photos_law(photos: Seq<Seq<char>>, cover: Option<Seq<char>>, ids: Seq<Seq<char>>)
    ensures
        forall|x: Seq<char>| #[trigger] with_photos_removed(photos, ids).contains(x) <==> (photos.contains(x) && !ids.contains(x)),
        cover_after_removal(cover, ids) matches Some(c) ==> !ids.contains(c),
{
    let pred = |p: Seq<char>| !ids.contains(p);
    assert forall|x: Seq<char>| #[trigger] with_photos_removed(photos, ids).contains(x) <==> (photos.contains(x) && !ids.contains(x)) by {
        if with_photos_removed(photos, ids).contains(x) {
            let k = choose|k: int| 0 <= k < photos.filter(pred).len() && photos.filter(pred)[k] == x;
            photos.lemma_filter_pred(pred, k);
            lemma_filter_member(photos, pred, k);
        }
        if photos.contains(x) && !ids.contains(x) {
            let k = choose|k: int| 0 <= k < photos.len() && photos[k] == x;
            photos.lemma_filter_contains(pred, k);
        }
    }
}

/// Every photo an expanded album shows belongs to the album, and every given
/// photo that belongs to the album is shown.
pub proof fn lemma_expand_album_photos(
    id: Seq<char>,
    title: Seq<char>,
    tags: Seq<Seq<char>>,
    photo_ids: Seq<Seq<char>>,
    cover: Option<Seq<char>>,
    photos: Seq<AlbumPhotoView>,
)
    ensures
        expand_album(id, title, tags, photo_ids, cover, photos) matches Ok(e) ==> {
            &&& forall|i: int| 0 <= i < e.photos.len() ==> photo_ids.contains(#[trigger] e.photos[i].id)
            &&& forall|i: int| 0 <= i < photos.len() && photo_ids.contains(photos[i].id) ==> e.photos.contains(#[trigger] photos[i])
            &&& e.thumbnail_photo matches Some(t) ==> cover == Some(t.id)
        },
{
    let pred = |p: AlbumPhotoView| photo_ids.contains(p.id);
    assert forall|i: int| 0 <= i < photos.filter(pred).len() implies photo_ids.contains(#[trigger] photos.filter(pred)[i].id) by {
        photos.lemma_filter_pred(pred, i);
    }
    assert forall|i: int| 0 <= i < photos.len() && photo_ids.contains(photos[i].id) implies photos.filter(pred).contains(#[trigger] photos[i]) by {
        photos.lemma_filter_contains(pred, i);
    }
    if let Some(c) = cover {
        if exists|i: int| 0 <= i < photos.len() && #[trigger] photos[i].id == c {
            let w = choose|i: int| 0 <= i < photos.len() && #[trigger] photos[i].id == c;
            lemma_first_index_exists(photos, c, w);
        }
    }
}

/// Where some photo has the id, a first one does.
proof fn lemma_first_index_exists(photos: Seq<AlbumPhotoView>, id: Seq<char>, w: int)
    requires
        0 <= w < photos.len(),
        photos[w].id == id,
    ensures
        exists|i: int| 0 <= i < photos.len() && #[trigger] photos[i].id == id && forall|j: int| 0 <= j < i ==> photos[j].id != id,
    decreases w,
{
    if exists|j: int| 0 <= j < w && #[trigger] photos[j].id == id {
        let j = choose|j: int| 0 <= j < w && #[trigger] photos[j].id == id;
        lemma_first_index_exists(photos, id, j);
    } else {
        assert(photos[w].id == id && forall|j: int| 0 <= j < w ==> photos[j].id != id);
    }
}

} // verus!
