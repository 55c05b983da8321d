//! Uploading a photo: skipping one the library holds already, encrypting its
//! three variants under a fresh key, and the record and files to store; and
//! showing a stored variant again as a data URL.

use vstd::prelude::*;
use vstd::string::*;
use vstd::utf8::*;
use crate::encoding::{fits_base64, base64_encode, base64_fits, encode_base64};
use crate::encryption::aes128::{aes128_gcm_siv_seal, spec_decrypt, KEY_LENGTH, MAX_MESSAGE_LENGTH, NONCE_LENGTH};
use crate::encryption::symmetric::{decrypt_slice, encrypt_slice, generate_key};
use crate::error::Error;
use crate::hashing::{compute_sha256_hash, sha256_hex};
use crate::library::keys_without;
use crate::models::{ItemKeyView, Library, LibraryPhotoView, Photo};
use crate::photo_files::{file_id, file_id_of, PhotoVariant};
use crate::random::{id, ID_LENGTH};
use crate::multipart::{multipart_body, Multipart, MultipartBuilder};

verus! {

/// A file to store: its id and its bytes.
#[derive(Debug, Clone, PartialEq, Eq)]
pub struct File {
    pub id: String,
    pub bytes: Vec<u8>,
}

/// What an upload did: skipped a photo the library held already, or stored
/// a new one; either way the id of the library's photo.
#[derive(Debug, Clone, PartialEq, Eq)]
pub struct PhotoUploadResult {
    pub skipped: bool,
    pub photo_id: String,
}

/// A processed image: its dimensions and the bytes of its three variants.
#[derive(Debug, Clone, PartialEq, Eq)]
pub struct ProcessedImage {
    pub width: u32,
    pub height: u32,
    pub bytes_thumbnail: Vec<u8>,
    pub bytes_preview: Vec<u8>,
    pub bytes_original: Vec<u8>,
}

/// The content type of uploaded photos.
pub const PHOTO_CONTENT_TYPE: &'static str = "image/jpeg";

/// The timestamp of a photo: when it was taken, where that is known, else now.
pub open spec fn timestamp_of(date_taken: Option<i64>, now: i64) -> i64 {
    match date_taken {
        Some(t) => t,
        None => now,
    }
}

/// The timestamp to store for a photo.
pub fn photo_timestamp(date_taken: Option<i64>, now: i64) -> (r: i64)
    ensures
        r == timestamp_of(date_taken, now),
{
    match date_taken {
        Some(t) => t,
        None => now,
    }
}

/// The nonce a photo's variant was encrypted with.
pub open spec fn nonce_of(photo: Photo, variant: PhotoVariant) -> Seq<char> {
    match variant {
        PhotoVariant::Thumbnail => photo.nonce_thumbnail@,
        PhotoVariant::Preview => photo.nonce_preview@,
        PhotoVariant::Original => photo.nonce_original@,
    }
}

impl Photo {
    /// The nonce the given variant was encrypted with.
    pub fn nonce_for(&self, variant: PhotoVariant) -> (r: &String)
        ensures
            r@ == nonce_of(*self, variant),
    {
        match variant {
            PhotoVariant::Thumbnail => &self.nonce_thumbnail,
            PhotoVariant::Preview => &self.nonce_preview,
            PhotoVariant::Original => &self.nonce_original,
        }
    }
}

/// A file of a photo holds its variant's bytes: it is their AES-GCM-SIV
/// ciphertext under the key and the variant's nonce, and decrypting it gives
/// them back.
pub open spec fn file_holds(photo: Photo, variant: PhotoVariant, key: Seq<u8>, file: File, bytes: Seq<u8>) -> bool {
    &&& file.id@ == file_id_of(photo.id@, variant)
    &&& nonce_of(photo, variant).len() == NONCE_LENGTH
    &&& file.bytes@ == aes128_gcm_siv_seal(key, encode_utf8(nonce_of(photo, variant)), bytes)
    &&& spec_decrypt(key, encode_utf8(nonce_of(photo, variant)), file.bytes@) == Ok::<Seq<u8>, Error>(bytes)
}

/// Whether the variants of an image can be encrypted (none too long).
pub open spec fn image_fits(image: ProcessedImage) -> bool {
    &&& image.bytes_thumbnail@.len() <= MAX_MESSAGE_LENGTH
    &&& image.bytes_preview@.len() <= MAX_MESSAGE_LENGTH
    &&& image.bytes_original@.len() <= MAX_MESSAGE_LENGTH
}

/// Encrypts one variant of a photo into its file.
fn encrypt_variant(photo_id: &str, variant: PhotoVariant, key: &[u8], bytes: &[u8]) -> (r: Result<(String, File), Error>)
    ensures
        r is Ok <==> key@.len() == KEY_LENGTH && bytes@.len() <= MAX_MESSAGE_LENGTH,
        key@.len() != KEY_LENGTH ==> r == Err::<(String, File), Error>(Error::InvalidKeyLength),
        key@.len() == KEY_LENGTH && bytes@.len() > MAX_MESSAGE_LENGTH ==> r == Err::<(String, File), Error>(Error::EncryptionFailed),
        r matches Ok((nonce, file)) ==> {
            &&& file.id@ == file_id_of(photo_id@, variant)
            &&& nonce@.len() == NONCE_LENGTH
            &&& file.bytes@ == aes128_gcm_siv_seal(key@, encode_utf8(nonce@), bytes@)
            &&& spec_decrypt(key@, encode_utf8(nonce@), file.bytes@) == Ok::<Seq<u8>, Error>(bytes@)
        },
{
    match encrypt_slice(key, bytes) {
        Ok(res) => Ok((res.nonce, File { id: file_id(photo_id, variant), bytes: res.bytes })),
        Err(e) => Err(e),
    }
}

/// The record and the three files of a photo whose variants are encrypted
/// under `key`; each file holds its variant. Fails when the key does not have
/// the cipher's length or a variant is too long to encrypt.
pub fn encrypt_photo(
    photo_id: String,
    key: &[u8],
    hash: String,
    image: &ProcessedImage,
    timestamp: i64,
) -> (r: Result<(Photo, Vec<File>), Error>)
    ensures
        r is Ok <==> key@.len() == KEY_LENGTH && image_fits(*image),
        key@.len() != KEY_LENGTH ==> r == Err::<(Photo, Vec<File>), Error>(Error::InvalidKeyLength),
        key@.len() == KEY_LENGTH && !image_fits(*image) ==> r == Err::<(Photo, Vec<File>), Error>(Error::EncryptionFailed),
        r matches Ok((photo, files)) ==> {
            &&& photo.id@ == photo_id@
            &&& photo.hash@ == hash@
            &&& photo.width == image.width
            &&& photo.height == image.height
            &&& photo.timestamp == timestamp
            &&& photo.content_type@ == PHOTO_CONTENT_TYPE@
            &&& files@.len() == 3
            &&& file_holds(photo, PhotoVariant::Thumbnail, key@, files@[0], image.bytes_thumbnail@)
            &&& file_holds(photo, PhotoVariant::Preview, key@, files@[1], image.bytes_preview@)
            &&& file_holds(photo, PhotoVariant::Original, key@, files@[2], image.bytes_original@)
        },
{
    let (nonce_thumbnail, thumbnail) = match encrypt_variant(photo_id.as_str(), PhotoVariant::Thumbnail, key, image.bytes_thumbnail.as_slice()) {
        Ok(x) => x,
        Err(e) => return Err(e),
    };
    let (nonce_preview, preview) = match encrypt_variant(photo_id.as_str(), PhotoVariant::Preview, key, image.bytes_preview.as_slice()) {
        Ok(x) => x,
        Err(e) => return Err(e),
    };
    let (nonce_original, original) = match encrypt_variant(photo_id.as_str(), PhotoVariant::Original, key, image.bytes_original.as_slice()) {
        Ok(x) => x,
        Err(e) => return Err(e),
    };
    let photo = Photo {
        id: photo_id,
        hash,
        width: image.width,
        height: image.height,
        timestamp,
        content_type: String::from_str(PHOTO_CONTENT_TYPE),
        nonce_thumbnail,
        nonce_preview,
        nonce_original,
    };
    let mut files: Vec<File> = Vec::new();
    files.push(thumbnail);
    files.push(preview);
    files.push(original);
    Ok((photo, files))
}

/// The photo of the library with the same hash as the given bytes (the first
/// one), if there is one.
pub open spec fn photo_with_hash(library: crate::models::LibraryView, hash: Seq<char>) -> Option<LibraryPhotoView> {
    if exists|i: int| 0 <= i < library.photos.len() && #[trigger] library.photos[i].hash == hash {
        let i = choose|i: int| 0 <= i < library.photos.len() && #[trigger] library.photos[i].hash == hash
            && forall|j: int| 0 <= j < i ==> library.photos[j].hash != hash;
        Some(library.photos[i])
    } else {
        None
    }
}

/// What uploading bytes the library holds already gives, before any image
/// is processed: a skipped upload of the first photo with the same SHA-256
/// hash; none for bytes the library does not hold.
pub fn existing_upload(library: &Library, bytes: &[u8]) -> (r: Option<PhotoUploadResult>)
    ensures
        match photo_with_hash(library@, sha256_hex(bytes@)) {
            Some(p) => r matches Some(res) && res.skipped && res.photo_id@ == p.id,
            None => r is None,
        },
{
    let hash = compute_sha256_hash(bytes);
    match library.find_photo_by_hash(hash.as_str()) {
        Some(i) => {
            proof {
                let h = sha256_hex(bytes@);
                let k = choose|k: int| 0 <= k < library@.photos.len() && #[trigger] library@.photos[k].hash == h
                    && forall|j: int| 0 <= j < k ==> library@.photos[j].hash != h;
                if k < i {
                    assert(library@.photos[k].hash != h);
                } else if k > i {
                    assert(library@.photos[i as int].hash != h);
                }
            }
            Some(PhotoUploadResult { skipped: true, photo_id: library.photos[i].id.clone() })
        },
        None => None,
    }
}

/// What an upload is to do.
pub enum UploadPlan {
    /// The library holds a photo with the same hash already.
    Skipped(PhotoUploadResult),
    /// A new photo: its record, its encrypted files, and the result to report.
    Upload { photo: Photo, key: Vec<u8>, files: Vec<File>, result: PhotoUploadResult },
}

/// Plans the upload of a photo from its file's bytes, its processed image,
/// when it was taken (if known) and the time now. A photo whose SHA-256 hash
/// the library holds already is skipped, and the library is left unchanged.
/// Otherwise the photo gets a fresh id and key, its variants are encrypted
/// under the key, and the library lists it and stores its key. Fails, leaving
/// the library unchanged, only when a variant is too long to encrypt.
pub fn plan_photo_upload(
    library: &mut Library,
    bytes: &[u8],
    image: &ProcessedImage,
    date_taken: Option<i64>,
    now: i64,
) -> (r: Result<UploadPlan, Error>)
    ensures
        old(library).wf() ==> final(library).wf(),
        (exists|i: int| 0 <= i < old(library)@.photos.len() && #[trigger] old(library)@.photos[i].hash == sha256_hex(bytes@))
            ==> match r {
                Ok(UploadPlan::Skipped(res)) => {
                    &&& res.skipped
                    &&& *final(library) == *old(library)
                    &&& {
                        let i = choose|i: int| 0 <= i < old(library)@.photos.len() && #[trigger] old(library)@.photos[i].hash == sha256_hex(bytes@)
                            && forall|j: int| 0 <= j < i ==> old(library)@.photos[j].hash != sha256_hex(bytes@);
                        res.photo_id@ == old(library)@.photos[i].id
                    }
                },
                _ => false,
            },
        (forall|i: int| 0 <= i < old(library)@.photos.len() ==> #[trigger] old(library)@.photos[i].hash != sha256_hex(bytes@))
            ==> match r {
                Ok(UploadPlan::Upload { photo, key, files, result }) => {
                    &&& image_fits(*image)
                    &&& !result.skipped
                    &&& result.photo_id@ == photo.id@
                    &&& photo.id@.len() == ID_LENGTH
                    &&& key@.len() == KEY_LENGTH
                    &&& photo.hash@ == sha256_hex(bytes@)
                    &&& photo.width == image.width
                    &&& photo.height == image.height
                    &&& photo.timestamp == timestamp_of(date_taken, now)
                    &&& photo.content_type@ == PHOTO_CONTENT_TYPE@
                    &&& files@.len() == 3
                    &&& file_holds(photo, PhotoVariant::Thumbnail, key@, files@[0], image.bytes_thumbnail@)
                    &&& file_holds(photo, PhotoVariant::Preview, key@, files@[1], image.bytes_preview@)
                    &&& file_holds(photo, PhotoVariant::Original, key@, files@[2], image.bytes_original@)
                    &&& final(library)@.photos == old(library)@.photos.push(LibraryPhotoView { id: photo.id@, hash: photo.hash@, width: photo.width, height: photo.height })
                    &&& final(library)@.item_keys == keys_without(old(library)@.item_keys, photo.id@).push(ItemKeyView { item_id: photo.id@, key: key@ })
                    &&& final(library)@.albums == old(library)@.albums
                    &&& final(library)@.shares == old(library)@.shares
                },
                Ok(UploadPlan::Skipped(_)) => false,
                Err(e) => e == Error::EncryptionFailed && !image_fits(*image) && *final(library) == *old(library),
            },
{
    let hash = compute_sha256_hash(bytes);
    match library.find_photo_by_hash(hash.as_str()) {
        Some(i) => {
            let photo_id = library.photos[i].id.clone();
            proof {
                let h = sha256_hex(bytes@);
                let k = choose|k: int| 0 <= k < library@.photos.len() && #[trigger] library@.photos[k].hash == h
                    && forall|j: int| 0 <= j < k ==> library@.photos[j].hash != h;
                if k < i {
                    assert(library@.photos[k].hash != h);
                } else if k > i {
                    assert(library@.photos[i as int].hash != h);
                }
            }
            return Ok(UploadPlan::Skipped(PhotoUploadResult { skipped: true, photo_id }));
        },
        None => {},
    }
    let key = generate_key();
    let photo_id = id();
    let timestamp = photo_timestamp(date_taken, now);
    let (photo, files) = match encrypt_photo(photo_id, key.as_slice(), hash, image, timestamp) {
        Ok(x) => x,
        Err(e) => return Err(e),
    };
    let result = PhotoUploadResult { skipped: false, photo_id: photo.id.clone() };
    library.add_photo(&photo, key.clone());
    Ok(UploadPlan::Upload { photo, key, files, result })
}

/// A data URL of the given content type with the bytes in base64:
/// `data:<content type>;base64,<bytes>`.
pub open spec fn data_url(content_type: Seq<char>, bytes: Seq<u8>) -> Seq<char> {
    "data:"@ + content_type + ";base64,"@ + base64_encode(bytes)
}

/// The data URL of some bytes.
pub fn image_src(content_type: &str, bytes: &[u8]) -> (r: String)
    requires
        base64_fits(bytes@.len() as int),
    ensures
        r@ == data_url(content_type@, bytes@),
{
    let encoded = encode_base64(bytes);
    let mut r = String::from_str("data:");
    r.append(content_type);
    r.append(";base64,");
    r.append(encoded.as_str());
    r
}

/// What showing a stored variant gives: the data URL of the bytes its file
/// decrypts to with the key and the variant's nonce, or the decryption's
/// error.
pub open spec fn shown_variant(photo: Photo, variant: PhotoVariant, key: Seq<u8>, encrypted: Seq<u8>) -> Result<Seq<char>, Error> {
    match spec_decrypt(key, encode_utf8(nonce_of(photo, variant)), encrypted) {
        Ok(bytes) => if base64_fits(bytes.len() as int) {
            Ok(data_url(photo.content_type@, bytes))
        } else {
            Err(Error::DecryptionFailed)
        },
        Err(e) => Err(e),
    }
}

/// The view of a text result.
pub open spec fn text_result(r: Result<String, Error>) -> Result<Seq<char>, Error> {
    match r {
        Ok(s) => Ok(s@),
        Err(e) => Err(e),
    }
}

/// The data URL of a stored variant of a photo, from the variant's encrypted
/// file and the photo's key.
pub fn photo_image_src(photo: &Photo, variant: PhotoVariant, key: &[u8], encrypted: &[u8]) -> (r: Result<String, Error>)
    ensures
        text_result(r) == shown_variant(*photo, variant, key@, encrypted@),
{
    let nonce = photo.nonce_for(variant);
    match decrypt_slice(key, nonce.as_str().as_bytes(), encrypted) {
        Ok(bytes) => {
            if !fits_base64(bytes.len()) {
                return Err(Error::DecryptionFailed);
            }
            Ok(image_src(photo.content_type.as_str(), bytes.as_slice()))
        },
        Err(e) => Err(e),
    }
}

/// A stored variant is shown as the bytes it was made from: the data URL of
/// a variant whose file holds some bytes is that of those bytes.
pub proof fn lemma_uploaded_variant_shows(photo: Photo, variant: PhotoVariant, key: Seq<u8>, file: File, bytes: Seq<u8>)
    requires
        file_holds(photo, variant, key, file, bytes),
        base64_fits(bytes.len() as int),
    ensures
        shown_variant(photo, variant, key, file.bytes@) == Ok::<Seq<char>, Error>(data_url(photo.content_type@, bytes)),
{
}

/// The parts files are sent as: each file's id with its bytes, in order.
pub open spec fn file_parts(files: Seq<File>) -> Seq<(Seq<char>, Seq<u8>)> {
    files.map_values(|f: File| (f.id@, f.bytes@))
}

/// The multipart body that stores files: one part per file, named by the
/// file's id.
pub fn files_multipart(files: &Vec<File>) -> (m: Multipart)
    ensures
        m.body@ == multipart_body(file_parts(files@)),
        m.content_length == m.body@.len(),
        m.content_type@ == "multipart/form-data; boundary=MULTIPARTBINARY"@,
{
    let mut builder = MultipartBuilder::new();
    let mut i: usize = 0;
    while i < files.len()
        invariant
            i <= files@.len(),
            builder.parts() == file_parts(files@.take(i as int)),
        decreases files@.len() - i,
    {
        builder = builder.add_bytes(files[i].id.as_str(), files[i].bytes.as_slice());
        proof {
            assert(files@.take(i + 1) =~= files@.take(i as int).push(files@[i as int]));
            assert(file_parts(files@.take(i + 1)) =~= file_parts(files@.take(i as int)).push((files@[i as int].id@, files@[i as int].bytes@)));
        }
        i = i + 1;
    }
    proof {
        assert(files@.take(files@.len() as int) =~= files@);
    }
    builder.build()
}

/// The multipart body that uploads an encrypted photo: its data (serialized),
/// then its thumbnail, preview and original.
pub fn photo_upload_multipart(data: &[u8], thumbnail: &[u8], preview: &[u8], original: &[u8]) -> (m: Multipart)
    ensures
        m.body@ == multipart_body(seq![("data"@, data@), ("thumbnail"@, thumbnail@), ("preview"@, preview@), ("original"@, original@)]),
        m.content_length == m.body@.len(),
{
    let m = MultipartBuilder::new()
        .add_bytes("data", data)
        .add_bytes("thumbnail", thumbnail)
        .add_bytes("preview", preview)
        .add_bytes("original", original)
        .build();
    proof {
        assert(seq![("data"@, data@), ("thumbnail"@, thumbnail@), ("preview"@, preview@), ("original"@, original@)]
            =~= Seq::<(Seq<char>, Seq<u8>)>::empty().push(("data"@, data@)).push(("thumbnail"@, thumbnail@)).push(("preview"@, preview@)).push(("original"@, original@)));
    }
    m
}

} // verus!
