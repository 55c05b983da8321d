//! The checks and conversions of the server's request handlers.

use vstd::prelude::*;
use vstd::string::*;
use vstd::utf8::*;
use crate::error::Error;
use crate::library::{copy_bytes, copy_strings};
use crate::models::opt_text;
use crate::photo_files::{file_id, file_id_of, PhotoVariant};
use crate::server::collections::AlbumRecord;
use crate::text::{same_text, string_views};

verus! {

broadcast use vstd::seq_lib::group_seq_properties;

/// A photo as the server stores it: its id, owner and dimensions.
#[derive(Debug, Clone, PartialEq, Eq)]
pub struct PhotoRecord {
    pub id: String,
    pub user_id: String,
    pub width: i32,
    pub height: i32,
}

/// A photo's id and dimensions, as clients are sent them.
#[derive(Debug, Clone, PartialEq, Eq)]
pub struct PhotoSmall {
    pub id: String,
    pub width: u16,
    pub height: u16,
}

/// An album as clients are sent it.
#[derive(Debug, Clone, PartialEq, Eq)]
pub struct ClientAlbum {
    pub id: String,
    pub title: String,
    pub thumb_photo: Option<PhotoSmall>,
    pub photos: Vec<PhotoSmall>,
    pub tags: Vec<String>,
}

/// A request to update an album; absent fields stay as they are.
#[derive(Debug, Clone, PartialEq, Eq)]
pub struct UpdateAlbum {
    pub title: Option<String>,
    pub public: Option<bool>,
    pub thumb_photo_id: Option<String>,
    pub photos: Option<Vec<String>>,
}

/// A request to create an album.
#[derive(Debug, Clone, PartialEq, Eq)]
pub struct CreateAlbum {
    pub title: String,
}

/// What an OAuth provider sends back to the server.
#[derive(Debug, Clone, PartialEq, Eq)]
pub struct OauthCallback {
    pub code: String,
    pub state: String,
}

/// Encrypted data: a nonce and the ciphertext.
#[derive(Debug, Clone, PartialEq, Eq)]
pub struct EncryptedData {
    pub nonce: String,
    pub data: String,
}

/// A photo's key encrypted for a share.
#[derive(Debug, Clone, PartialEq, Eq)]
pub struct ShareKey {
    pub id: String,
    pub key: EncryptedData,
}

/// A photo upload: its encrypted data and key, and its keys for shares.
#[derive(Debug, Clone, PartialEq, Eq)]
pub struct UploadPhoto {
    pub data: EncryptedData,
    pub data_version: u8,
    pub key: EncryptedData,
    pub share_keys: Vec<ShareKey>,
}

/// A part of a multipart request: its name and bytes.
#[derive(Debug, Clone, PartialEq, Eq)]
pub struct FormData {
    pub name: String,
    pub bytes: Vec<u8>,
}

impl PhotoSmall {
    /// A stored photo's id and dimensions, the dimensions cut to 16 bits.
    pub fn from(photo: &PhotoRecord) -> (r: PhotoSmall)
        ensures
            r.id@ == photo.id@,
            r.width == photo.width as u16,
            r.height == photo.height as u16,
    {
        PhotoSmall {
            id: photo.id.clone(),
            width: #[verifier::truncate] (photo.width as u16),
            height: #[verifier::truncate] (photo.height as u16),
        }
    }
}

/// The view of a photo sent to clients.
pub open spec fn small_view(p: PhotoSmall) -> (Seq<char>, u16, u16) {
    (p.id@, p.width, p.height)
}

/// What clients are sent of a stored photo.
pub open spec fn small_of(p: PhotoRecord) -> (Seq<char>, u16, u16) {
    (p.id@, p.width as u16, p.height as u16)
}

impl ClientAlbum {
    /// An album as clients are sent it, from the album, its cover photo (if
    /// found) and its photos (those found).
    pub fn from(album: &AlbumRecord, thumb_photo: Option<&PhotoRecord>, photos: &Vec<PhotoRecord>) -> (r: ClientAlbum)
        ensures
            r.id@ == album.id@,
            r.title@ == album.title@,
            string_views(r.tags@) == string_views(album.tags@),
            r.photos@.map_values(|p: PhotoSmall| small_view(p)) == photos@.map_values(|p: PhotoRecord| small_of(p)),
            match (r.thumb_photo, thumb_photo) {
                (Some(t), Some(p)) => small_view(t) == small_of(*p),
                (None, None) => true,
                _ => false,
            },
    {
        let mut shown: Vec<PhotoSmall> = Vec::new();
        let mut i: usize = 0;
        while i < photos.len()
            invariant
                i <= photos@.len(),
                shown@.map_values(|p: PhotoSmall| small_view(p)) == photos@.take(i as int).map_values(|p: PhotoRecord| small_of(p)),
            decreases photos@.len() - i,
        {
            let item = PhotoSmall::from(&photos[i]);
            let ghost prev = shown@;
            shown.push(item);
            proof {
                assert(shown@.map_values(|p: PhotoSmall| small_view(p)) =~= prev.map_values(|p: PhotoSmall| small_view(p)).push(small_view(item)));
                assert(photos@.take(i + 1) =~= photos@.take(i as int).push(photos@[i as int]));
            }
            i = i + 1;
        }
        proof {
            assert(photos@.take(photos@.len() as int) =~= photos@);
        }
        let thumb = match thumb_photo {
            Some(p) => Some(PhotoSmall::from(p)),
            None => None,
        };
        ClientAlbum { id: album.id.clone(), title: album.title.clone(), thumb_photo: thumb, photos: shown, tags: copy_strings(&album.tags) }
    }
}

/// Applies an update to an album: its title, whether it is public, its
/// photos and its cover, where the update sets them.
pub fn apply_album_update(album: &mut AlbumRecord, update: &UpdateAlbum)
    ensures
        final(album).id == old(album).id,
        final(album).user_id == old(album).user_id,
        final(album).tags == old(album).tags,
        final(album).title@ == (match update.title { Some(t) => t@, None => old(album).title@ }),
        final(album).public == (match update.public { Some(p) => p, None => old(album).public }),
        string_views(final(album).photos@) == (match update.photos { Some(p) => string_views(p@), None => string_views(old(album).photos@) }),
        opt_text(final(album).thumb_photo_id) == (match update.thumb_photo_id { Some(t) => Some(t@), None => opt_text(old(album).thumb_photo_id) }),
{
    if let Some(title) = &update.title {
        album.title = title.clone();
    }
    if let Some(public) = update.public {
        album.public = public;
    }
    if let Some(photos) = &update.photos {
        album.photos = copy_strings(photos);
    }
    if let Some(thumb) = &update.thumb_photo_id {
        album.thumb_photo_id = Some(thumb.clone());
    }
}

/// The number of parts named `file`.
pub open spec fn file_part_count(parts: Seq<FormData>) -> nat
    decreases parts.len(),
{
    if parts.len() == 0 {
        0
    } else {
        file_part_count(parts.drop_last()) + if parts.last().name@ == "file"@ { 1nat } else { 0nat }
    }
}

/// The part of an upload holding the file: the one part named `file`.
/// Fails when there is none or more than one.
pub fn select_upload_file(parts: &Vec<FormData>) -> (r: Result<usize, Error>)
    ensures
        file_part_count(parts@) == 0 ==> r == Err::<usize, Error>(Error::NoFile),
        file_part_count(parts@) > 1 ==> r == Err::<usize, Error>(Error::MoreThanOneFile),
        file_part_count(parts@) == 1 ==> (r matches Ok(i) && i < parts@.len() && parts@[i as int].name@ == "file"@),
{
    let mut found: Option<usize> = None;
    let mut i: usize = 0;
    while i < parts.len()
        invariant
            i <= parts@.len(),
            file_part_count(parts@.take(i as int)) <= 1,
            found is None <==> file_part_count(parts@.take(i as int)) == 0,
            found matches Some(k) ==> k < i && parts@[k as int].name@ == "file"@,
        decreases parts@.len() - i,
    {
        proof {
            assert(parts@.take(i + 1).drop_last() =~= parts@.take(i as int));
            assert(parts@.take(i + 1).last() == parts@[i as int]);
        }
        if same_text(parts[i].name.as_str(), "file") {
            if found.is_some() {
                proof {
                    lemma_file_count_grows(parts@, i as int + 1);
                }
                return Err(Error::MoreThanOneFile);
            }
            found = Some(i);
        }
        i = i + 1;
    }
    proof {
        assert(parts@.take(parts@.len() as int) =~= parts@);
    }
    match found {
        Some(k) => Ok(k),
        None => Err(Error::NoFile),
    }
}

/// Counting over more parts never counts fewer files.
proof fn lemma_file_count_grows(parts: Seq<FormData>, n: int)
    requires
        0 <= n <= parts.len(),
    ensures
        file_part_count(parts) >= file_part_count(parts.take(n)),
    decreases parts.len() - n,
{
    if n < parts.len() {
        assert(parts.take(n + 1).drop_last() =~= parts.take(n));
        lemma_file_count_grows(parts, n + 1);
    } else {
        assert(parts.take(n) =~= parts);
    }
}

/// The parts of a photo upload: its data, thumbnail, preview and original.
#[derive(Debug, Clone, PartialEq, Eq)]
pub struct UploadParts {
    pub data: Vec<u8>,
    pub thumbnail: Vec<u8>,
    pub preview: Vec<u8>,
    pub original: Vec<u8>,
}

/// The bytes of the last part with the given name; none where no part has it.
pub open spec fn part_bytes(parts: Seq<FormData>, name: Seq<char>) -> Seq<u8>
    decreases parts.len(),
{
    if parts.len() == 0 {
        Seq::empty()
    } else if parts.last().name@ == name {
        parts.last().bytes@
    } else {
        part_bytes(parts.drop_last(), name)
    }
}

/// Whether a part has one of the names an upload may use.
pub open spec fn known_part_name(name: Seq<char>) -> bool {
    name == "data"@ || name == "thumbnail"@ || name == "preview"@ || name == "original"@
}

/// Sorts the parts of a photo upload by name. Fails when a part has a name
/// other than `data`, `thumbnail`, `preview` and `original`; a name given
/// twice keeps its last part.
pub fn sort_upload_parts(parts: &Vec<FormData>) -> (r: Result<UploadParts, Error>)
    ensures
        r is Ok <==> forall|i: int| 0 <= i < parts@.len() ==> known_part_name((#[trigger] parts@[i]).name@),
        r is Err ==> r == Err::<UploadParts, Error>(Error::UnsupportedMultipartName),
        r matches Ok(u) ==> {
            &&& u.data@ == part_bytes(parts@, "data"@)
            &&& u.thumbnail@ == part_bytes(parts@, "thumbnail"@)
            &&& u.preview@ == part_bytes(parts@, "preview"@)
            &&& u.original@ == part_bytes(parts@, "original"@)
        },
{
    let mut u = UploadParts { data: Vec::new(), thumbnail: Vec::new(), preview: Vec::new(), original: Vec::new() };
    let mut i: usize = 0;
    while i < parts.len()
        invariant
            i <= parts@.len(),
            forall|j: int| 0 <= j < i ==> known_part_name((#[trigger] parts@[j]).name@),
            u.data@ == part_bytes(parts@.take(i as int), "data"@),
            u.thumbnail@ == part_bytes(parts@.take(i as int), "thumbnail"@),
            u.preview@ == part_bytes(parts@.take(i as int), "preview"@),
            u.original@ == part_bytes(parts@.take(i as int), "original"@),
        decreases parts@.len() - i,
    {
        proof {
            assert(parts@.take(i + 1).drop_last() =~= parts@.take(i as int));
            assert(parts@.take(i + 1).last() == parts@[i as int]);
            reveal_strlit("data");
            reveal_strlit("thumbnail");
            reveal_strlit("preview");
            reveal_strlit("original");
            assert("data"@.len() == 4 && "thumbnail"@.len() == 9 && "preview"@.len() == 7 && "original"@.len() == 8);
        }
        let name = parts[i].name.as_str();
        if same_text(name, "data") {
            u.data = copy_bytes(&parts[i].bytes);
        } else if same_text(name, "thumbnail") {
            u.thumbnail = copy_bytes(&parts[i].bytes);
        } else if same_text(name, "preview") {
            u.preview = copy_bytes(&parts[i].bytes);
        } else if same_text(name, "original") {
            u.original = copy_bytes(&parts[i].bytes);
        } else {
            return Err(Error::UnsupportedMultipartName);
        }
        i = i + 1;
    }
    proof {
        assert(parts@.take(parts@.len() as int) =~= parts@);
    }
    Ok(u)
}

/// Checks a registration: the username must be free and not empty, and the
/// password (in UTF-8 bytes) at least `min_length` long, in that order.
pub fn validate_registration(username_exists: bool, username: &str, password: &str, min_length: usize) -> (r: Result<(), Error>)
    ensures
        r == (if username_exists {
            Err(Error::UsernameExists)
        } else if username@.len() == 0 {
            Err(Error::UsernameEmpty)
        } else if encode_utf8(password@).len() < min_length {
            Err(Error::PasswordTooShort)
        } else {
            Ok(())
        }),
{
    if username_exists {
        Err(Error::UsernameExists)
    } else if username.is_empty() {
        Err(Error::UsernameEmpty)
    } else if password.as_bytes().len() < min_length {
        Err(Error::PasswordTooShort)
    } else {
        Ok(())
    }
}

/// The files of stored photos to delete, each photo's original, preview and
/// thumbnail in turn; photos not found are skipped. Refused with
/// [`Error::Unauthorized`] when one of the photos belongs to another user.
pub open spec fn deletion_files(user_id: Seq<char>, photos: Seq<Option<PhotoRecord>>) -> Result<Seq<Seq<char>>, Error>
    decreases photos.len(),
{
    if photos.len() == 0 {
        Ok(Seq::empty())
    } else {
        match deletion_files(user_id, photos.drop_last()) {
            Err(e) => Err(e),
            Ok(files) => match photos.last() {
                None => Ok(files),
                Some(p) => if p.user_id@ != user_id {
                    Err(Error::Unauthorized)
                } else {
                    Ok(files + seq![
                        file_id_of(p.id@, PhotoVariant::Original),
                        file_id_of(p.id@, PhotoVariant::Preview),
                        file_id_of(p.id@, PhotoVariant::Thumbnail),
                    ])
                },
            },
        }
    }
}

/// The files to delete for photos a user asks to delete, from the photos
/// found for the ids (none where an id has no photo).
pub fn photo_deletion_files(user_id: &str, photos: &Vec<Option<PhotoRecord>>) -> (r: Result<Vec<String>, Error>)
    ensures
        match r {
            Ok(files) => deletion_files(user_id@, photos@) == Ok::<Seq<Seq<char>>, Error>(string_views(files@)),
            Err(e) => deletion_files(user_id@, photos@) == Err::<Seq<Seq<char>>, Error>(e),
        },
{
    let mut files: Vec<String> = Vec::new();
    let mut i: usize = 0;
    proof {
        assert(photos@.take(0) =~= Seq::<Option<PhotoRecord>>::empty());
        assert(string_views(files@) =~= Seq::<Seq<char>>::empty());
    }
    while i < photos.len()
        invariant
            i <= photos@.len(),
            deletion_files(user_id@, photos@.take(i as int)) == Ok::<Seq<Seq<char>>, Error>(string_views(files@)),
        decreases photos@.len() - i,
    {
        proof {
            assert(photos@.take(i + 1).drop_last() =~= photos@.take(i as int));
            assert(photos@.take(i + 1).last() == photos@[i as int]);
        }
        match &photos[i] {
            Some(p) => {
                if !same_text(p.user_id.as_str(), user_id) {
                    proof {
                        lemma_deletion_refused(user_id@, photos@, i as int + 1);
                    }
                    return Err(Error::Unauthorized);
                }
                let ghost prev = files@;
                let original = file_id(p.id.as_str(), PhotoVariant::Original);
                let preview = file_id(p.id.as_str(), PhotoVariant::Preview);
                let thumbnail = file_id(p.id.as_str(), PhotoVariant::Thumbnail);
                files.push(original);
                files.push(preview);
                files.push(thumbnail);
                proof {
                    assert(string_views(files@) =~= string_views(prev) + seq![original@, preview@, thumbnail@]);
                }
            },
            None => {},
        }
        i = i + 1;
    }
    proof {
        assert(photos@.take(photos@.len() as int) =~= photos@);
    }
    Ok(files)
}

/// Whether a photo was found.
pub open spec fn is_found(o: Option<PhotoRecord>) -> bool {
    o is Some
}

/// Whether a file is the original, preview or thumbnail of a found photo.
pub open spec fn is_file_of(o: Option<PhotoRecord>, f: Seq<char>) -> bool {
    match o {
        Some(p) => f == file_id_of(p.id@, PhotoVariant::Original) || f == file_id_of(p.id@, PhotoVariant::Preview)
            || f == file_id_of(p.id@, PhotoVariant::Thumbnail),
        None => false,
    }
}

/// Whether a file is one of the three files of a found photo.
pub open spec fn file_of_found_photo(photos: Seq<Option<PhotoRecord>>, f: Seq<char>) -> bool {
    exists|i: int| 0 <= i < photos.len() && #[trigger] is_file_of(photos[i], f)
}

/// Deleting photos is refused, with [`Error::Unauthorized`], exactly when a
/// found photo belongs to another user. Otherwise every found photo has its
/// original, preview and thumbnail deleted, in that order and in the
/// photos' order, and nothing else is: three files per found photo.
pub proof fn lemma_deletion_files_law(user_id: Seq<char>, photos: Seq<Option<PhotoRecord>>)
    ensures
        deletion_files(user_id, photos) is Ok <==> (forall|i: int| #![trigger photos[i]]
            0 <= i < photos.len() && photos[i] is Some ==> photos[i]->Some_0.user_id@ == user_id),
        deletion_files(user_id, photos) is Err ==> deletion_files(user_id, photos) == Err::<Seq<Seq<char>>, Error>(Error::Unauthorized),
        deletion_files(user_id, photos) matches Ok(files) ==> {
            let found = photos.filter(|o: Option<PhotoRecord>| is_found(o));
            &&& files.len() == 3 * found.len()
            &&& forall|k: int| 0 <= k < found.len() ==> {
                &&& files[3 * k] == file_id_of((#[trigger] found[k])->Some_0.id@, PhotoVariant::Original)
                &&& files[3 * k + 1] == file_id_of(found[k]->Some_0.id@, PhotoVariant::Preview)
                &&& files[3 * k + 2] == file_id_of(found[k]->Some_0.id@, PhotoVariant::Thumbnail)
            }
            &&& forall|i: int| #![trigger photos[i]] 0 <= i < photos.len() && photos[i] is Some ==> {
                &&& files.contains(file_id_of(photos[i]->Some_0.id@, PhotoVariant::Original))
                &&& files.contains(file_id_of(photos[i]->Some_0.id@, PhotoVariant::Preview))
                &&& files.contains(file_id_of(photos[i]->Some_0.id@, PhotoVariant::Thumbnail))
            }
            &&& forall|f: Seq<char>| files.contains(f) ==> file_of_found_photo(photos, f)
        },
{
    lemma_deletion_refusal(user_id, photos);
    lemma_deletion_count(user_id, photos);
    lemma_deletion_covers(user_id, photos);
    lemma_deletion_only_found(user_id, photos);
}

/// Deletion is refused exactly when a found photo is another user's.
proof fn lemma_deletion_refusal(user_id: Seq<char>, photos: Seq<Option<PhotoRecord>>)
    ensures
        deletion_files(user_id, photos) is Ok <==> (forall|i: int| #![trigger photos[i]]
            0 <= i < photos.len() && photos[i] is Some ==> photos[i]->Some_0.user_id@ == user_id),
        deletion_files(user_id, photos) is Err ==> deletion_files(user_id, photos) == Err::<Seq<Seq<char>>, Error>(Error::Unauthorized),
    decreases photos.len(),
{
    if photos.len() > 0 {
        let init = photos.drop_last();
        lemma_deletion_refusal(user_id, init);
        assert forall|i: int| 0 <= i < init.len() implies #[trigger] init[i] == photos[i] by {}
        if deletion_files(user_id, init) is Err {
            let i = choose|i: int| #![trigger init[i]]
                !(0 <= i < init.len() && init[i] is Some ==> init[i]->Some_0.user_id@ == user_id);
            assert(photos[i] == init[i]);
        } else {
            assert forall|i: int| #![trigger photos[i]]
                0 <= i < photos.len() - 1 && photos[i] is Some implies photos[i]->Some_0.user_id@ == user_id by {
                assert(init[i] == photos[i]);
            }
            assert(photos[photos.len() - 1] == photos.last());
        }
    }
}

/// Three files are deleted per found photo, in the photos' order: the
/// original, the preview and the thumbnail of each.
proof fn lemma_deletion_count(user_id: Seq<char>, photos: Seq<Option<PhotoRecord>>)
    ensures
        deletion_files(user_id, photos) matches Ok(files) ==> {
            let found = photos.filter(|o: Option<PhotoRecord>| is_found(o));
            &&& files.len() == 3 * found.len()
            &&& forall|k: int| 0 <= k < found.len() ==> {
                &&& files[3 * k] == file_id_of((#[trigger] found[k])->Some_0.id@, PhotoVariant::Original)
                &&& files[3 * k + 1] == file_id_of(found[k]->Some_0.id@, PhotoVariant::Preview)
                &&& files[3 * k + 2] == file_id_of(found[k]->Some_0.id@, PhotoVariant::Thumbnail)
            }
        },
    decreases photos.len(),
{
    let pred = |o: Option<PhotoRecord>| is_found(o);
    if photos.len() > 0 {
        let init = photos.drop_last();
        let last = photos.last();
        assert(photos =~= init.push(last));
        init.lemma_filter_push(last, pred);
        lemma_deletion_count(user_id, init);
        if let Ok(files0) = deletion_files(user_id, init) {
            if let Ok(files) = deletion_files(user_id, photos) {
                let found0 = init.filter(pred);
                let found = photos.filter(pred);
                assert forall|k: int| 0 <= k < found.len() implies {
                    &&& files[3 * k] == file_id_of((#[trigger] found[k])->Some_0.id@, PhotoVariant::Original)
                    &&& files[3 * k + 1] == file_id_of(found[k]->Some_0.id@, PhotoVariant::Preview)
                    &&& files[3 * k + 2] == file_id_of(found[k]->Some_0.id@, PhotoVariant::Thumbnail)
                } by {
                    if k < found0.len() {
                        assert(found[k] == found0[k]);
                        assert(files[3 * k] == files0[3 * k]);
                        assert(files[3 * k + 1] == files0[3 * k + 1]);
                        assert(files[3 * k + 2] == files0[3 * k + 2]);
                    }
                }
            }
        }
    } else {
        assert(photos.filter(pred) =~= Seq::<Option<PhotoRecord>>::empty()) by {
            reveal(Seq::filter);
        }
    }
}

/// Every found photo has its three files deleted.
proof fn lemma_deletion_covers(user_id: Seq<char>, photos: Seq<Option<PhotoRecord>>)
    ensures
        deletion_files(user_id, photos) matches Ok(files) ==> forall|i: int| #![trigger photos[i]]
            0 <= i < photos.len() && photos[i] is Some ==> {
                &&& files.contains(file_id_of(photos[i]->Some_0.id@, PhotoVariant::Original))
                &&& files.contains(file_id_of(photos[i]->Some_0.id@, PhotoVariant::Preview))
                &&& files.contains(file_id_of(photos[i]->Some_0.id@, PhotoVariant::Thumbnail))
            },
    decreases photos.len(),
{
    if photos.len() > 0 {
        let init = photos.drop_last();
        let last = photos.last();
        lemma_deletion_covers(user_id, init);
        if let Ok(files0) = deletion_files(user_id, init) {
            if let Some(p) = last {
                if p.user_id@ == user_id {
                    let a = file_id_of(p.id@, PhotoVariant::Original);
                    let b = file_id_of(p.id@, PhotoVariant::Preview);
                    let c = file_id_of(p.id@, PhotoVariant::Thumbnail);
                    let files = files0 + seq![a, b, c];
                    assert(files[files0.len() as int] == a);
                    assert(files[files0.len() as int + 1] == b);
                    assert(files[files0.len() as int + 2] == c);
                    assert forall|i: int| #![trigger photos[i]] 0 <= i < photos.len() && photos[i] is Some implies {
                        &&& files.contains(file_id_of(photos[i]->Some_0.id@, PhotoVariant::Original))
                        &&& files.contains(file_id_of(photos[i]->Some_0.id@, PhotoVariant::Preview))
                        &&& files.contains(file_id_of(photos[i]->Some_0.id@, PhotoVariant::Thumbnail))
                    } by {
                        if i < init.len() {
                            assert(init[i] == photos[i]);
                            let q = init[i]->Some_0;
                            let ja = choose|j: int| 0 <= j < files0.len() && files0[j] == file_id_of(q.id@, PhotoVariant::Original);
                            let jb = choose|j: int| 0 <= j < files0.len() && files0[j] == file_id_of(q.id@, PhotoVariant::Preview);
                            let jc = choose|j: int| 0 <= j < files0.len() && files0[j] == file_id_of(q.id@, PhotoVariant::Thumbnail);
                            assert(files[ja] == files0[ja]);
                            assert(files[jb] == files0[jb]);
                            assert(files[jc] == files0[jc]);
                        }
                    }
                }
            } else {
                assert forall|i: int| #![trigger photos[i]] 0 <= i < photos.len() && photos[i] is Some implies {
                    &&& files0.contains(file_id_of(photos[i]->Some_0.id@, PhotoVariant::Original))
                    &&& files0.contains(file_id_of(photos[i]->Some_0.id@, PhotoVariant::Preview))
                    &&& files0.contains(file_id_of(photos[i]->Some_0.id@, PhotoVariant::Thumbnail))
                } by {
                    assert(i < init.len());
                    assert(init[i] == photos[i]);
                }
            }
        }
    }
}

/// Only files of found photos are deleted.
proof fn lemma_deletion_only_found(user_id: Seq<char>, photos: Seq<Option<PhotoRecord>>)
    ensures
        deletion_files(user_id, photos) matches Ok(files) ==> forall|f: Seq<char>| files.contains(f) ==> file_of_found_photo(photos, f),
    decreases photos.len(),
{
    if photos.len() > 0 {
        let init = photos.drop_last();
        let last = photos.last();
        lemma_deletion_only_found(user_id, init);
        if let Ok(files0) = deletion_files(user_id, init) {
            if let Ok(files) = deletion_files(user_id, photos) {
                assert forall|f: Seq<char>| files.contains(f) implies file_of_found_photo(photos, f) by {
                    let j = choose|j: int| 0 <= j < files.len() && files[j] == f;
                    if j < files0.len() {
                        assert(files0[j] == f);
                        assert(files0.contains(f));
                        let i = choose|i: int| 0 <= i < init.len() && #[trigger] is_file_of(init[i], f);
                        assert(photos[i] == init[i]);
                        assert(is_file_of(photos[i], f));
                    } else {
                        let k = photos.len() - 1;
                        assert(photos[k] == last);
                        assert(is_file_of(photos[k], f));
                    }
                }
            }
        }
    }
}

/// Once a prefix of the photos is refused, so are all of them.
proof fn lemma_deletion_refused(user_id: Seq<char>, photos: Seq<Option<PhotoRecord>>, n: int)
    requires
        0 <= n <= photos.len(),
        deletion_files(user_id, photos.take(n)) == Err::<Seq<Seq<char>>, Error>(Error::Unauthorized),
    ensures
        deletion_files(user_id, photos) == Err::<Seq<Seq<char>>, Error>(Error::Unauthorized),
    decreases photos.len() - n,
{
    if n < photos.len() {
        assert(photos.take(n + 1).drop_last() =~= photos.take(n));
        lemma_deletion_refused(user_id, photos, n + 1);
    } else {
        assert(photos.take(n) =~= photos);
    }
}

/// The content disposition a served photo gets: an attachment under its
/// file name when offered as a download, else inline.
pub open spec fn disposition_of(file_name: Seq<char>, offer_as_download: bool) -> Seq<char> {
    if offer_as_download {
        "attachment; filename=\""@ + file_name + "\""@
    } else {
        "inline;"@
    }
}

/// The content disposition of a served photo.
pub fn content_disposition(file_name: &str, offer_as_download: bool) -> (r: String)
    ensures
        r@ == disposition_of(file_name@, offer_as_download),
{
    if offer_as_download {
        let mut r = String::from_str("attachment; filename=\"");
        r.append(file_name);
        r.append("\"");
        r
    } else {
        String::from_str("inline;")
    }
}

} // verus!
