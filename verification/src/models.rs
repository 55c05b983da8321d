//! The records a user's library is made of, each with a view in which its
//! texts are character sequences and its byte vectors byte sequences.

use vstd::prelude::*;
use crate::text::string_views;

verus! {

/// Bytes, encrypted and base64-encoded, as they are stored for an item.
#[derive(Debug, Clone, PartialEq, Eq)]
pub struct TextItem {
    pub key: String,
    pub base64: String,
    pub nonce: String,
}

/// The encryption key of one item of the library.
#[derive(Debug, Clone, PartialEq, Eq)]
pub struct ItemKey {
    pub item_id: String,
    pub key: Vec<u8>,
}

/// A photo as the library lists it.
#[derive(Debug, Clone, PartialEq, Eq)]
pub struct LibraryPhoto {
    pub id: String,
    pub hash: String,
    pub width: u32,
    pub height: u32,
}

/// An album as the library lists it.
#[derive(Debug, Clone, PartialEq, Eq)]
pub struct LibraryAlbum {
    pub id: String,
}

/// A share as the library lists it.
#[derive(Debug, Clone, PartialEq, Eq)]
pub struct LibraryShare {
    pub id: String,
    pub password: String,
    pub album_id: String,
}

/// Everything a user owns: the keys of the items, the photos, the albums
/// and the shares.
#[derive(Debug, Clone, PartialEq, Eq)]
pub struct Library {
    pub item_keys: Vec<ItemKey>,
    pub photos: Vec<LibraryPhoto>,
    pub albums: Vec<LibraryAlbum>,
    pub shares: Vec<LibraryShare>,
}

/// A stored photo: its dimensions, a timestamp to sort by, its content type
/// and the nonces its three encrypted variants were sealed with.
#[derive(Debug, Clone, PartialEq, Eq)]
pub struct Photo {
    pub id: String,
    /// Hash of the original file's bytes.
    pub hash: String,
    pub width: u32,
    pub height: u32,
    /// When the photo was taken, or else uploaded, in seconds since the epoch.
    pub timestamp: i64,
    pub content_type: String,
    pub nonce_thumbnail: String,
    pub nonce_preview: String,
    pub nonce_original: String,
}

/// An album: its key, title, cover photo, tags and photo ids.
#[derive(Debug, Clone, PartialEq, Eq)]
pub struct Album {
    pub id: String,
    pub key: Vec<u8>,
    pub title: String,
    pub thumbnail_photo_id: Option<String>,
    pub tags: Vec<String>,
    pub photos: Vec<String>,
}

/// A photo of an album as clients are shown it; `key` holds the photo's
/// key in base64 where the viewer reached it through a share.
#[derive(Debug, Clone, PartialEq, Eq)]
pub struct AlbumPhoto {
    pub id: String,
    pub width: u32,
    pub height: u32,
    pub key: Option<String>,
}

/// An album with its photos' data in place of their ids.
#[derive(Debug, Clone, PartialEq, Eq)]
pub struct AlbumExpanded {
    pub id: String,
    pub title: String,
    pub tags: Vec<String>,
    pub photos: Vec<AlbumPhoto>,
    pub thumbnail_photo: Option<AlbumPhoto>,
}

/// A photo of a shared album, with its key.
#[derive(Debug, Clone, PartialEq, Eq)]
pub struct AlbumShareDataPhoto {
    pub id: String,
    pub key: Vec<u8>,
    pub width: u32,
    pub height: u32,
}

/// What a share of an album gives access to.
#[derive(Debug, Clone, PartialEq, Eq)]
pub struct AlbumShareData {
    pub album_id: String,
    pub album_key: Vec<u8>,
    pub photos: Vec<AlbumShareDataPhoto>,
}

/// What a share gives access to.
#[derive(Debug, Clone, PartialEq, Eq)]
pub enum ShareData {
    Album(AlbumShareData),
}

/// A share.
#[derive(Debug, Clone, PartialEq, Eq)]
pub struct Share {
    pub data: ShareData,
}

/// View of an [`ItemKey`].
pub struct ItemKeyView {
    pub item_id: Seq<char>,
    pub key: Seq<u8>,
}

/// View of a [`LibraryPhoto`].
pub struct LibraryPhotoView {
    pub id: Seq<char>,
    pub hash: Seq<char>,
    pub width: u32,
    pub height: u32,
}

/// View of a [`LibraryShare`].
pub struct LibraryShareView {
    pub id: Seq<char>,
    pub password: Seq<char>,
    pub album_id: Seq<char>,
}

/// View of a [`Library`]; an album is seen by its id.
pub struct LibraryView {
    pub item_keys: Seq<ItemKeyView>,
    pub photos: Seq<LibraryPhotoView>,
    pub albums: Seq<Seq<char>>,
    pub shares: Seq<LibraryShareView>,
}

/// View of an [`Album`].
pub struct AlbumView {
    pub id: Seq<char>,
    pub key: Seq<u8>,
    pub title: Seq<char>,
    pub thumbnail_photo_id: Option<Seq<char>>,
    pub tags: Seq<Seq<char>>,
    pub photos: Seq<Seq<char>>,
}

/// View of an [`AlbumPhoto`].
pub struct AlbumPhotoView {
    pub id: Seq<char>,
    pub width: u32,
    pub height: u32,
    pub key: Option<Seq<char>>,
}

/// View of an [`AlbumExpanded`].
pub struct AlbumExpandedView {
    pub id: Seq<char>,
    pub title: Seq<char>,
    pub tags: Seq<Seq<char>>,
    pub photos: Seq<AlbumPhotoView>,
    pub thumbnail_photo: Option<AlbumPhotoView>,
}

/// View of an [`AlbumShareDataPhoto`].
pub struct AlbumShareDataPhotoView {
    pub id: Seq<char>,
    pub key: Seq<u8>,
    pub width: u32,
    pub height: u32,
}

/// View of an [`AlbumShareData`].
pub struct AlbumShareDataView {
    pub album_id: Seq<char>,
    pub album_key: Seq<u8>,
    pub photos: Seq<AlbumShareDataPhotoView>,
}

/// The view of an optional string.
pub open spec fn opt_text(o: Option<String>) -> Option<Seq<char>> {
    match o {
        Some(s) => Some(s@),
        None => None,
    }
}

impl View for ItemKey {
    type V = ItemKeyView;

    open spec fn view(&self) -> ItemKeyView {
        ItemKeyView { item_id: self.item_id@, key: self.key@ }
    }
}

impl View for LibraryPhoto {
    type V = LibraryPhotoView;

    open spec fn view(&self) -> LibraryPhotoView {
        LibraryPhotoView { id: self.id@, hash: self.hash@, width: self.width, height: self.height }
    }
}

impl View for LibraryShare {
    type V = LibraryShareView;

    open spec fn view(&self) -> LibraryShareView {
        LibraryShareView { id: self.id@, password: self.password@, album_id: self.album_id@ }
    }
}

impl View for Library {
    type V = LibraryView;

    open spec fn view(&self) -> LibraryView {
        LibraryView {
            item_keys: self.item_keys@.map_values(|k: ItemKey| k@),
            photos: self.photos@.map_values(|p: LibraryPhoto| p@),
            albums: self.albums@.map_values(|a: LibraryAlbum| a.id@),
            shares: self.shares@.map_values(|s: LibraryShare| s@),
        }
    }
}

impl View for Album {
    type V = AlbumView;

    open spec fn view(&self) -> AlbumView {
        AlbumView {
            id: self.id@,
            key: self.key@,
            title: self.title@,
            thumbnail_photo_id: opt_text(self.thumbnail_photo_id),
            tags: string_views(self.tags@),
            photos: string_views(self.photos@),
        }
    }
}

impl View for AlbumPhoto {
    type V = AlbumPhotoView;

    open spec fn view(&self) -> AlbumPhotoView {
        AlbumPhotoView { id: self.id@, width: self.width, height: self.height, key: opt_text(self.key) }
    }
}

/// The view of an optional album photo.
pub open spec fn opt_album_photo(o: Option<AlbumPhoto>) -> Option<AlbumPhotoView> {
    match o {
        Some(p) => Some(p@),
        None => None,
    }
}

impl View for AlbumExpanded {
    type V = AlbumExpandedView;

    open spec fn view(&self) -> AlbumExpandedView {
        AlbumExpandedView {
            id: self.id@,
            title: self.title@,
            tags: string_views(self.tags@),
            photos: self.photos@.map_values(|p: AlbumPhoto| p@),
            thumbnail_photo: opt_album_photo(self.thumbnail_photo),
        }
    }
}

impl View for AlbumShareDataPhoto {
    type V = AlbumShareDataPhotoView;

    open spec fn view(&self) -> AlbumShareDataPhotoView {
        AlbumShareDataPhotoView { id: self.id@, key: self.key@, width: self.width, height: self.height }
    }
}

impl View for AlbumShareData {
    type V = AlbumShareDataView;

    open spec fn view(&self) -> AlbumShareDataView {
        AlbumShareDataView {
            album_id: self.album_id@,
            album_key: self.album_key@,
            photos: self.photos@.map_values(|p: AlbumShareDataPhoto| p@),
        }
    }
}

} // verus!
