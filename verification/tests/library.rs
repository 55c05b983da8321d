use upholi::albums::{album_photos_from_library, inflate_album};
use upholi::client::{authorize_share, create_album, delete_album, delete_photos, determine_photo_key};
use upholi::encoding::encode_base64;
use upholi::encryption::aes128::derive_key_from_string;
use upholi::error::Error;
use upholi::exif::{image_orientation, Exif, ExifEntry, ExifValue, TAG_DATE_TIME, TAG_EXPOSURE_TIME, TAG_F_NUMBER, TAG_GPS_LATITUDE, TAG_ISO_SPEED_RATINGS, TAG_MAKE, TAG_ORIENTATION};
use upholi::hashing::compute_sha256_hash;
use upholi::keys::{get_share_key, KeyStore, LocalStorage};
use upholi::models::{Album, AlbumPhoto, AlbumShareData, AlbumShareDataPhoto, Library, LibraryPhoto, LibraryShare, Photo, Share, ShareData};
use upholi::photo_files::{file_id, file_ids, PhotoVariant};
use upholi::shares::{album_photos_from_share, album_share_data, can_share, photo_key_from_shares, share_item_ids, upsert_share};
use upholi::uploads::{encrypt_photo, image_src, photo_image_src, photo_timestamp, plan_photo_upload, ProcessedImage, UploadPlan};
use upholi::encryption::symmetric::encrypt_slice_with_nonce;

fn strings(v: &[&str]) -> Vec<String> {
    v.iter().map(|s| s.to_string()).collect()
}

fn album(photos: &[&str], cover: Option<&str>) -> Album {
    Album {
        id: "album".to_string(),
        key: b"0123456789abcdef".to_vec(),
        title: "Title".to_string(),
        thumbnail_photo_id: cover.map(|c| c.to_string()),
        tags: strings(&["t"]),
        photos: strings(photos),
    }
}

fn library_photo(id: &str) -> LibraryPhoto {
    LibraryPhoto { id: id.to_string(), hash: format!("hash-{}", id), width: 100, height: 50 }
}

#[test]
fn add_photos_skips_present_ones() {
    let mut a = album(&["a", "b"], None);
    a.add_photos(&strings(&["b", "c", "c", "d"]));
    assert_eq!(a.photos, strings(&["a", "b", "c", "d"]));
    a.add_photos(&strings(&["b", "c", "c", "d"]));
    assert_eq!(a.photos, strings(&["a", "b", "c", "d"]));
}

#[test]
fn remove_photos_unsets_cover() {
    let mut a = album(&["a", "b", "c"], Some("b"));
    a.remove_photos(&strings(&["b", "x"]));
    assert_eq!(a.photos, strings(&["a", "c"]));
    assert_eq!(a.thumbnail_photo_id, None);
    let mut keep = album(&["a", "b"], Some("a"));
    keep.remove_photos(&strings(&["b"]));
    assert_eq!(keep.thumbnail_photo_id, Some("a".to_string()));
}

#[test]
fn title_tags_and_cover() {
    let mut a = album(&[], None);
    a.set_title_tags("New", strings(&["x", "y"]));
    a.set_cover("p");
    assert_eq!(a.title, "New");
    assert_eq!(a.tags, strings(&["x", "y"]));
    assert_eq!(a.thumbnail_photo_id, Some("p".to_string()));
}

#[test]
fn new_album_cover_is_first_photo() {
    let a = Album::new("id".to_string(), vec![1], "T".to_string(), strings(&["p", "q"]));
    assert_eq!(a.thumbnail_photo_id, Some("p".to_string()));
    let empty = Album::new("id".to_string(), vec![1], "T".to_string(), vec![]);
    assert_eq!(empty.thumbnail_photo_id, None);
}

#[test]
fn inflate_keeps_album_photos_in_library_order() {
    let photos = album_photos_from_library(&vec![library_photo("c"), library_photo("a"), library_photo("x")]);
    let expanded = inflate_album(&album(&["a", "c"], Some("a")), &photos).unwrap();
    let ids: Vec<&str> = expanded.photos.iter().map(|p| p.id.as_str()).collect();
    assert_eq!(ids, vec!["c", "a"]);
    assert_eq!(expanded.thumbnail_photo.as_ref().unwrap().id, "a");
    assert_eq!(expanded.thumbnail_photo.unwrap().key, None);
    assert_eq!(expanded.tags, strings(&["t"]));
    assert_eq!(inflate_album(&album(&["a"], Some("zzz")), &photos).err(), Some(Error::NotFound));
}

#[test]
fn library_keys_and_lookups() {
    let mut library = Library::default();
    library.set_item_key("a".to_string(), vec![1]);
    library.set_item_key("b".to_string(), vec![2]);
    library.set_item_key("a".to_string(), vec![3]);
    assert_eq!(library.find_encryption_key("a"), Some(&vec![3]));
    assert_eq!(library.find_encryption_key("b"), Some(&vec![2]));
    assert_eq!(library.find_encryption_key("c"), None);
    assert_eq!(library.item_keys.len(), 2);

    library.photos = vec![library_photo("1"), library_photo("2"), library_photo("3")];
    assert_eq!(library.find_photo_by_hash("hash-2"), Some(1));
    assert_eq!(library.find_photo_by_hash("nope"), None);
    let newest: Vec<String> = library.photos_newest_first().into_iter().map(|p| p.id).collect();
    assert_eq!(newest, strings(&["3", "2", "1"]));
    library.remove_photos(&strings(&["2"]));
    assert_eq!(library.photos.len(), 2);
}

#[test]
fn library_shares() {
    let mut library = Library::new();
    library.upsert_share(LibraryShare { id: "s1".to_string(), password: "p".to_string(), album_id: "a".to_string() }, vec![1]);
    library.upsert_share(LibraryShare { id: "s2".to_string(), password: "p".to_string(), album_id: "b".to_string() }, vec![2]);
    library.upsert_share(LibraryShare { id: "s1".to_string(), password: "q".to_string(), album_id: "a".to_string() }, vec![3]);
    assert_eq!(library.shares.len(), 2);
    let s = library.share_for_album("a").unwrap();
    assert_eq!(s.password, "q");
    assert_eq!(library.find_encryption_key("s1"), Some(&vec![3]));
    assert_eq!(library.share_ids_for_album("b"), strings(&["s2"]));
    assert_eq!(library.share_for_album("c"), None);
}

#[test]
fn create_and_delete_album() {
    let mut library = Library::new();
    let a = create_album(&mut library, "Holiday", strings(&["p1", "p2"]));
    assert_eq!(a.id.len(), 20);
    assert_eq!(a.key.len(), 16);
    assert_eq!(a.title, "Holiday");
    assert_eq!(a.thumbnail_photo_id, Some("p1".to_string()));
    assert_eq!(library.albums.len(), 1);
    assert_eq!(library.find_encryption_key(&a.id), Some(&a.key));

    library.upsert_share(LibraryShare { id: "s1".to_string(), password: "p".to_string(), album_id: a.id.clone() }, vec![1]);
    library.upsert_share(LibraryShare { id: "s2".to_string(), password: "p".to_string(), album_id: "other".to_string() }, vec![2]);
    let deleted = delete_album(&mut library, &a.id);
    assert_eq!(deleted, strings(&["s1"]));
    assert!(library.albums.is_empty());
    assert_eq!(library.shares.len(), 1);
    assert_eq!(library.shares[0].id, "s2");
}

#[test]
fn delete_photos_everywhere() {
    let mut library = Library::new();
    library.photos = vec![library_photo("a"), library_photo("b")];
    let albums = vec![album(&["a", "b"], Some("a")), album(&["b"], Some("b"))];
    let (updated, files) = delete_photos(&mut library, &albums, &strings(&["a"]));
    assert_eq!(updated[0].photos, strings(&["b"]));
    assert_eq!(updated[0].thumbnail_photo_id, None);
    assert_eq!(updated[1].thumbnail_photo_id, Some("b".to_string()));
    assert_eq!(files, strings(&["a-thumbnail", "a-preview", "a-original"]));
    assert_eq!(library.photos.len(), 1);
    assert_eq!(library.photos[0].id, "b");
}

#[test]
fn file_ids_per_variant() {
    assert_eq!(file_id("x", PhotoVariant::Thumbnail), "x-thumbnail");
    assert_eq!(file_id("x", PhotoVariant::Preview), "x-preview");
    assert_eq!(file_id("x", PhotoVariant::Original), "x-original");
    assert_eq!(PhotoVariant::Original.name(), "original");
    assert_eq!(file_ids(&strings(&["x", "y"])).len(), 6);
}

fn shareable_library() -> Library {
    let mut library = Library::new();
    library.photos = vec![library_photo("a"), library_photo("b")];
    library.set_item_key("a".to_string(), b"key-a".to_vec());
    library.set_item_key("b".to_string(), b"key-b".to_vec());
    library
}

#[test]
fn share_items_and_data() {
    let a = album(&["a", "b"], None);
    assert_eq!(
        share_item_ids(&a),
        strings(&["album", "a", "a-thumbnail", "a-preview", "a-original", "b", "b-thumbnail", "b-preview", "b-original"])
    );
    let library = shareable_library();
    assert!(can_share(&a, &library));
    assert!(!can_share(&album(&["a", "missing"], None), &library));
    let data = album_share_data(&a, &library);
    assert_eq!(data.album_id, "album");
    assert_eq!(data.album_key, a.key);
    assert_eq!(data.photos.len(), 2);
    assert_eq!(data.photos[1].key, b"key-b".to_vec());
    assert_eq!((data.photos[1].width, data.photos[1].height), (100, 50));
}

#[test]
fn upsert_share_reuses_id() {
    let mut library = shareable_library();
    let a = album(&["a"], None);
    let first = upsert_share(&mut library, &a, "password").unwrap();
    assert_eq!(first.share_id.len(), 20);
    assert_eq!(first.share_key, derive_key_from_string("password", &first.share_id).unwrap());
    assert_eq!(first.items, strings(&["album", "a", "a-thumbnail", "a-preview", "a-original"]));
    let second = upsert_share(&mut library, &a, "other").unwrap();
    assert_eq!(second.share_id, first.share_id);
    assert_eq!(library.shares.len(), 1);
    assert_eq!(library.shares[0].password, "other");
    assert_eq!(library.find_encryption_key(&first.share_id), Some(&second.share_key));
}

fn share_with(photos: Vec<AlbumShareDataPhoto>) -> Share {
    Share { data: ShareData::Album(AlbumShareData { album_id: "album".to_string(), album_key: vec![], photos }) }
}

fn share_photo(id: &str, key: &[u8]) -> AlbumShareDataPhoto {
    AlbumShareDataPhoto { id: id.to_string(), key: key.to_vec(), width: 1, height: 2 }
}

#[test]
fn photo_keys_from_shares() {
    let shares = vec![share_with(vec![share_photo("a", b"k1")]), share_with(vec![share_photo("b", b"k2"), share_photo("a", b"k3")])];
    assert_eq!(photo_key_from_shares(&shares, "a"), Ok(b"k1".to_vec()));
    assert_eq!(photo_key_from_shares(&shares, "b"), Ok(b"k2".to_vec()));
    assert_eq!(photo_key_from_shares(&shares, "c"), Err(Error::NotFound));
    assert_eq!(determine_photo_key(None, &shares, "b"), Ok(b"k2".to_vec()));
    let library = shareable_library();
    assert_eq!(determine_photo_key(Some(&library), &shares, "a"), Ok(b"key-a".to_vec()));
    assert_eq!(determine_photo_key(Some(&library), &shares, "c"), Err(Error::NotFound));
    let shown = album_photos_from_share(&vec![share_photo("a", b"k1")]);
    assert_eq!(shown[0].key, Some(encode_base64(b"k1")));
    let _ = AlbumPhoto::from_library_photo(library_photo("a"));
}

fn image() -> ProcessedImage {
    ProcessedImage { width: 640, height: 480, bytes_thumbnail: b"thumb".to_vec(), bytes_preview: b"preview".to_vec(), bytes_original: b"original".to_vec() }
}

#[test]
fn upload_then_show() {
    let mut library = Library::new();
    let bytes = b"raw photo bytes";
    let plan = plan_photo_upload(&mut library, bytes, &image(), Some(1000), 2000).unwrap();
    let (photo, key, files, result) = match plan {
        UploadPlan::Upload { photo, key, files, result } => (photo, key, files, result),
        UploadPlan::Skipped(_) => panic!("a new photo is not skipped"),
    };
    assert!(!result.skipped);
    assert_eq!(result.photo_id, photo.id);
    assert_eq!(photo.hash, compute_sha256_hash(bytes));
    assert_eq!(photo.timestamp, 1000);
    assert_eq!(photo.content_type, "image/jpeg");
    assert_eq!(files[0].id, format!("{}-thumbnail", photo.id));
    assert_eq!(files[2].id, format!("{}-original", photo.id));
    assert_eq!(library.photos.len(), 1);
    assert_eq!(library.find_encryption_key(&photo.id), Some(&key));

    let src = photo_image_src(&photo, PhotoVariant::Original, &key, &files[2].bytes).unwrap();
    assert_eq!(src, format!("data:image/jpeg;base64,{}", encode_base64(b"original")));
    assert!(photo_image_src(&photo, PhotoVariant::Preview, &key, &files[2].bytes).is_err());

    let again = plan_photo_upload(&mut library, bytes, &image(), None, 3000).unwrap();
    match again {
        UploadPlan::Skipped(r) => {
            assert!(r.skipped);
            assert_eq!(r.photo_id, photo.id);
        },
        UploadPlan::Upload { .. } => panic!("a known photo is skipped"),
    }
    assert_eq!(library.photos.len(), 1);
}

#[test]
fn timestamps_and_sources() {
    assert_eq!(photo_timestamp(Some(5), 9), 5);
    assert_eq!(photo_timestamp(None, 9), 9);
    assert_eq!(image_src("image/png", b"message"), "data:image/png;base64,bWVzc2FnZQ==");
    let key = b"e0ca4c29d5504e8d";
    let encrypted = encrypt_slice_with_nonce(key, b"452b4dd698de", b"message").unwrap();
    let photo = Photo {
        id: "p".to_string(),
        hash: String::new(),
        width: 1,
        height: 1,
        timestamp: 0,
        content_type: "image/jpeg".to_string(),
        nonce_thumbnail: "452b4dd698de".to_string(),
        nonce_preview: String::new(),
        nonce_original: String::new(),
    };
    assert_eq!(photo_image_src(&photo, PhotoVariant::Thumbnail, key, &encrypted.bytes).unwrap(), "data:image/jpeg;base64,bWVzc2FnZQ==");
    assert_eq!(photo_image_src(&photo, PhotoVariant::Original, key, &encrypted.bytes).err(), Some(Error::InvalidNonceLength));
}

#[test]
fn authorize_share_stores_derived_key() {
    let mut store = KeyStore::load(LocalStorage::new()).unwrap();
    let share = "abcdefghij0123456789";
    assert_eq!(authorize_share(&mut store, share, "pw", false), Ok(false));
    assert_eq!(get_share_key(&store, share).unwrap(), None);
    assert_eq!(authorize_share(&mut store, share, "pw", true), Ok(true));
    assert_eq!(get_share_key(&store, share).unwrap(), Some(derive_key_from_string("pw", share).unwrap()));
    let long_salt = "x".repeat(49);
    assert_eq!(authorize_share(&mut store, &long_salt, "pw", true), Err(Error::PasswordHashFailed));
}

fn entry(tag: u32, value: ExifValue, readable: &str) -> ExifEntry {
    ExifEntry { tag, value, readable: readable.to_string() }
}

#[test]
fn exif_from_entries() {
    let entries = vec![
        entry(TAG_MAKE, ExifValue::Ascii("Canon".to_string()), ""),
        entry(TAG_F_NUMBER, ExifValue::URational(vec![(28, 10)]), "f/2.8"),
        entry(TAG_EXPOSURE_TIME, ExifValue::URational(vec![(1, 250)]), "1 / 250 s"),
        entry(TAG_ISO_SPEED_RATINGS, ExifValue::U16(vec![400]), "400"),
        entry(TAG_ORIENTATION, ExifValue::U16(vec![6]), ""),
        entry(TAG_DATE_TIME, ExifValue::Ascii("2020:01:02 03:04:05".to_string()), ""),
        entry(TAG_GPS_LATITUDE, ExifValue::URational(vec![(52, 1), (30, 1), (0, 1)]), ""),
    ];
    let exif = Exif::from_entries(&entries);
    assert_eq!(exif.manufactorer, Some("Canon".to_string()));
    assert_eq!(exif.aperture, Some("f/2.8".to_string()));
    assert_eq!(exif.exposure_time, Some("1/250s".to_string()));
    assert_eq!(exif.iso, Some(400));
    assert_eq!(exif.orientation, Some(6));
    assert_eq!(exif.date_taken, Some(1577934245));
    assert_eq!(exif.gps_latitude, Some(vec![(52, 1), (30, 1), (0, 1)]));
    assert_eq!(exif.gps_longitude, None);
    assert_eq!(exif.model, None);
    assert_eq!(image_orientation(&Some(exif)), 6);
    assert_eq!(image_orientation(&None), 1);
}

#[test]
fn exif_of_non_image_is_empty() {
    let exif = Exif::parse_from_photo_bytes(b"not an image").unwrap();
    assert_eq!(exif, Exif::empty());
}

#[test]
fn exif_number_with_zero_denominator() {
    let exif = Exif::from_entries(&vec![entry(TAG_ISO_SPEED_RATINGS, ExifValue::URational(vec![(5, 0)]), "")]);
    assert_eq!(exif.iso, None);
    let exif = Exif::from_entries(&vec![entry(TAG_ISO_SPEED_RATINGS, ExifValue::URational(vec![(7, 2)]), "")]);
    assert_eq!(exif.iso, Some(3));
}

#[test]
fn share_album_shows_share_photos_with_keys() {
    let a = album(&["a", "b"], Some("b"));
    let data = AlbumShareData { album_id: "album".to_string(), album_key: a.key.clone(), photos: vec![share_photo("b", b"kb"), share_photo("z", b"kz")] };
    let shown = upholi::shares::share_album(&a, &data).unwrap();
    assert_eq!(shown.photos.len(), 1);
    assert_eq!(shown.photos[0].key, Some(encode_base64(b"kb")));
    assert_eq!(shown.thumbnail_photo.unwrap().id, "b");
}

#[test]
fn register_sets_master_key() {
    let mut store = KeyStore::load(LocalStorage::new()).unwrap();
    let (derived, master) = upholi::client::register_keys(&mut store, "username", "password").unwrap();
    assert_eq!(derived, upholi::keys::get_key_from_user_credentials("username", "password").unwrap());
    assert_eq!(master.len(), 16);
    assert_eq!(upholi::keys::get_master_key(&store), master);
    assert_eq!(upholi::client::register_keys(&mut store, "", "password").err(), Some(Error::UsernameEmpty));
    assert_eq!(upholi::keys::get_master_key(&store), master);
}

#[test]
fn existing_upload_is_skipped_before_processing() {
    let mut library = Library::new();
    assert!(upholi::uploads::existing_upload(&library, b"bytes").is_none());
    library.photos.push(LibraryPhoto { id: "p".to_string(), hash: compute_sha256_hash(b"bytes"), width: 1, height: 1 });
    let r = upholi::uploads::existing_upload(&library, b"bytes").unwrap();
    assert!(r.skipped);
    assert_eq!(r.photo_id, "p");
}

#[test]
fn album_full_lists_newest_photos_first() {
    let mut library = Library::new();
    library.photos = vec![library_photo("a"), library_photo("b"), library_photo("c")];
    let full = upholi::client::get_album_full(&album(&["a", "c"], Some("c")), &library).unwrap();
    let ids: Vec<&str> = full.photos.iter().map(|p| p.id.as_str()).collect();
    assert_eq!(ids, vec!["c", "a"]);
    assert_eq!(full.thumbnail_photo.unwrap().id, "c");
}

#[test]
fn key_lookup_takes_first_entry() {
    let mut library = Library::new();
    library.set_item_key("a".to_string(), vec![1]);
    library.item_keys.push(upholi::models::ItemKey { item_id: "a".to_string(), key: vec![3] });
    assert_eq!(library.find_encryption_key("a"), Some(&vec![1]));
    library.set_item_key("a".to_string(), vec![4]);
    assert_eq!(library.item_keys.len(), 1);
    assert_eq!(library.find_encryption_key("a"), Some(&vec![4]));
}

#[test]
fn encrypt_photo_files_and_key_length() {
    let key = b"photophotophoto0".to_vec();
    let (photo, files) = encrypt_photo("p1".to_string(), &key, "hash".to_string(), &image(), 7).unwrap();
    assert_eq!(photo.id, "p1");
    assert_eq!(photo.timestamp, 7);
    let ids: Vec<&str> = files.iter().map(|f| f.id.as_str()).collect();
    assert_eq!(ids, vec!["p1-thumbnail", "p1-preview", "p1-original"]);
    assert_ne!(files[2].bytes, b"original".to_vec());
    assert_eq!(
        encrypt_photo("p1".to_string(), b"short", "hash".to_string(), &image(), 7).err(),
        Some(Error::InvalidKeyLength)
    );
}

#[test]
fn exif_of_tiff_with_make() {
    let mut tiff: Vec<u8> = vec![b'I', b'I', 0x2a, 0x00, 0x08, 0x00, 0x00, 0x00];
    tiff.extend_from_slice(&[0x01, 0x00]);
    tiff.extend_from_slice(&[0x0f, 0x01, 0x02, 0x00, 0x06, 0x00, 0x00, 0x00, 0x1a, 0x00, 0x00, 0x00]);
    tiff.extend_from_slice(&[0x00, 0x00, 0x00, 0x00]);
    tiff.extend_from_slice(b"Canon\0");
    let exif = Exif::parse_from_photo_bytes(&tiff).unwrap();
    assert_eq!(exif.manufactorer, Some("Canon".to_string()));
    assert_eq!(exif.model, None);
    assert_eq!(exif.orientation, None);
}

#[test]
fn share_refreshed_after_album_change() {
    let mut library = Library::new();
    library.upsert_share(LibraryShare { id: "s2".to_string(), password: "pb".to_string(), album_id: "b".to_string() }, vec![2]);
    library.upsert_share(LibraryShare { id: "s1".to_string(), password: "pa".to_string(), album_id: "a".to_string() }, vec![1]);
    assert_eq!(
        upholi::shares::share_to_refresh(&library, "a"),
        Some(("s1".to_string(), "pa".to_string()))
    );
    assert_eq!(upholi::shares::share_to_refresh(&library, "c"), None);
}

#[test]
fn login_sets_stored_master_key() {
    let mut store = KeyStore::load(LocalStorage::new()).unwrap();
    assert_eq!(upholi::client::login_master_key(&mut store, None).err(), Some(Error::NotFound));
    assert!(upholi::keys::get_master_key(&store).is_empty());
    let key = b"mastermasterkey0".to_vec();
    assert_eq!(upholi::client::login_master_key(&mut store, Some(key.clone())).unwrap(), key);
    assert_eq!(upholi::keys::get_master_key(&store), key);
    let reloaded = KeyStore::load(store.storage().duplicate()).unwrap();
    assert_eq!(upholi::keys::get_master_key(&reloaded), key);
}
