use upholi::error::Error;
use upholi::hashing::compute_md5_hash;
use upholi::server::collections::{
    apply_collection_update, authenticate_to_collection, AlbumRecord, AuthenticateOutcome, AuthenticateToCollection,
    ClientCollection, Collection, CollectionSharing, UpdateCollection, UpdateCollectionSharingOptions,
};
use upholi::server::photos::{NewPhotoFiles, Photo, StoredPaths};
use upholi::server::handlers::{
    apply_album_update, content_disposition, photo_deletion_files, select_upload_file, sort_upload_parts,
    validate_registration, ClientAlbum, FormData, PhotoRecord, PhotoSmall, UpdateAlbum,
};
use upholi::server::oauth::{authorization_header, get_provider, Github, OAuth2Provider};
use upholi::server::session::Session;
use upholi::server::settings::{Database, Server, Settings, SettingsOverrides, Storage, StorageProvider};
use upholi::server::storage::LocalDiskStorageProvider;

#[test]
fn generate_filename() {
    test_generate_filename_with_extension("jpg");
    test_generate_filename_with_extension(".jpg");
    test_generate_filename_with_extension("123");
    test_generate_filename_with_extension("啊");
}

#[test]
fn generate_filename_no_extension() {
    let name = Photo::generate_filename("").unwrap_or_default();

    assert!(name.len() > 0, "{}", name);
    assert!(!name.contains('.'), "{}", name);
}

#[test]
fn generate_filename_bad_extension() {
    test_generate_filename_bad_extension("&@");
    test_generate_filename_bad_extension(".(");
}

fn test_generate_filename_with_extension(extension: &str) {
    let name = Photo::generate_filename(extension).unwrap_or_default();

    assert!(name.ends_with(extension));
    assert!(!name.starts_with(extension));
    assert!(name.contains('.'));
    assert!(name.len() > extension.len());
}

fn test_generate_filename_bad_extension(extension: &str) {
    let result = Photo::generate_filename(extension);
    assert!(result.is_err());
}

#[test]
fn generate_filename_errors() {
    assert_eq!(Photo::generate_filename("jp g").err(), Some(Error::InvalidExtension));
    assert_eq!(Photo::generate_filename("jpg.").err(), Some(Error::ExtensionEndsWithPeriod));
    let name = Photo::generate_filename("png").unwrap();
    assert_eq!(name.len(), 24);
    assert!(name.ends_with(".png"));
    assert!(name[..20].chars().all(|c| c.is_ascii_alphanumeric()));
}

#[test]
fn new_photo_file_names() {
    let files = Photo::prepare_files(b"abc");
    assert_eq!(files.id.len(), 20);
    assert!(files.name.ends_with(".jpg"));
    assert_eq!(files.thumbnail_file_name, format!("thumb_{}", files.name));
    assert_eq!(files.preview_file_name, format!("preview_{}", files.name));
    assert_eq!(files.hash, compute_md5_hash(b"abc"));
    assert_eq!(Photo::compute_md5_hash(b"abc"), "900150983cd24fb0d6963f7d28e17f72");
}

fn paths() -> StoredPaths {
    StoredPaths { original: "o".to_string(), thumbnail: "t".to_string(), preview: "p".to_string() }
}

fn files() -> NewPhotoFiles {
    NewPhotoFiles {
        id: "id".to_string(),
        name: "name.jpg".to_string(),
        thumbnail_file_name: "thumb_name.jpg".to_string(),
        preview_file_name: "preview_name.jpg".to_string(),
        hash: "hash".to_string(),
    }
}

#[test]
fn new_photo_record() {
    assert_eq!(Photo::new(1, files(), true, upholi::exif::Exif::empty(), 10, 20, paths(), 99).err(), Some(Error::PhotoExists));
    let photo = Photo::new(1, files(), false, upholi::exif::Exif::empty(), 10, 20, paths(), 99).unwrap();
    assert_eq!(photo.created_on, 99);
    assert_eq!((photo.width, photo.height), (10, 20));
    assert_eq!(photo.path_thumbnail, "t");
    let mut exif = upholi::exif::Exif::empty();
    exif.date_taken = Some(5);
    let taken = Photo::new(1, files(), false, exif, 10, 20, paths(), 99).unwrap();
    assert_eq!(taken.created_on, 5);
    let client = taken.to_client_photo();
    assert_eq!((client.id.as_str(), client.width, client.height), ("id", 10, 20));
    assert_eq!(taken.check_insertable(), Ok(()));
}

fn create_dummy_photo_with_id(id: &str) -> Photo {
    Photo {
        id: id.to_string(),
        user_id: 0i64,
        name: "photo name".to_string(),
        width: 150,
        height: 2500,
        created_on: 0,
        hash: "abc123".to_string(),
        path_thumbnail: "path_thumbnail".to_string(),
        path_preview: "path_preview".to_string(),
        path_original: "path_original".to_string(),
        exif: upholi::exif::Exif::empty(),
    }
}

#[test]
fn insert_empty_id() {
    let photo = create_dummy_photo_with_id("");
    let result = photo.check_insertable();

    assert!(result.is_err());
}

#[test]
fn new() {
    let session = Session::new();

    assert!(session.id.len() != 0);
    assert!(session.user_id.is_none());
}

#[test]
fn set_user() {
    const USER_ID: i64 = 999555i64;

    let mut session = Session::new();
    session.set_user(USER_ID);

    assert!(session.user_id.is_some());
    assert_eq!(session.user_id.unwrap(), USER_ID);
}

#[test]
fn set_oauth_data() {
    const STATE: &str = "aaabbbccc";
    const PKCE_VERIFIER: &str = "abcdef123456";

    let mut session = Session::new();
    session.set_oauth_data(STATE, PKCE_VERIFIER);

    assert!(session.oauth.is_some());

    let oauth = session.oauth.unwrap();
    assert_eq!(oauth.state, STATE);
    assert_eq!(oauth.pkce_verifier, PKCE_VERIFIER);
}

#[test]
fn oauth_callback_checks_state() {
    let mut session = Session::new();
    assert_eq!(session.oauth_verifier_for("x"), None);
    session.set_oauth_data("state", "verifier");
    assert_eq!(session.oauth_verifier_for("other"), None);
    assert_eq!(session.oauth_verifier_for("state"), Some("verifier".to_string()));
    session.complete_login(7);
    assert_eq!(session.user_id, Some(7));
    assert!(session.oauth.is_none());
}

fn base_settings() -> Settings {
    Settings {
        server: Server { address: "0.0.0.0:8080".to_string(), wwwroot_path: "wwwroot".to_string() },
        database: Database { connection_string: "mongodb://localhost".to_string() },
        storage: Storage {
            provider: StorageProvider::Disk,
            directory_photos: "photos".to_string(),
            azure_storage_account_name: String::new(),
            azure_storage_account_key: String::new(),
        },
    }
}

fn no_overrides() -> SettingsOverrides {
    SettingsOverrides {
        server_address: None,
        server_wwwroot_path: None,
        database_connection_string: None,
        storage_provider: None,
        storage_directory_photos: None,
        storage_azure_storage_account_name: None,
        storage_azure_storage_account_key: None,
    }
}

#[test]
fn settings_overrides() {
    let mut overrides = no_overrides();
    overrides.server_address = Some("127.0.0.1:80".to_string());
    overrides.storage_provider = Some("Azure".to_string());
    let settings = Settings::new(base_settings(), overrides);
    assert_eq!(settings.server.address, "127.0.0.1:80");
    assert_eq!(settings.server.wwwroot_path, "wwwroot");
    assert_eq!(settings.storage.provider, StorageProvider::Azure);

    let unchanged = Settings::new(base_settings(), no_overrides());
    assert_eq!(unchanged, base_settings());

    let mut bad = no_overrides();
    bad.storage_provider = Some("Tape".to_string());
    assert_eq!(Settings::try_new(&base_settings(), &bad).err(), Some(Error::InvalidSetting));
}

#[test]
fn absolute_photo_path() {
    let _provider = LocalDiskStorageProvider::new();
    assert_eq!(LocalDiskStorageProvider::get_absolute_photo_path("/srv", "/data/photos", "abc-thumbnail").unwrap(), "/data/photos/abc-thumbnail");
    assert_eq!(LocalDiskStorageProvider::get_absolute_photo_path("/srv", "/data/photos/", "abc").unwrap(), "/data/photos/abc");
    assert_eq!(LocalDiskStorageProvider::get_absolute_photo_path("/srv", "/data/photos", "/etc/x").unwrap(), "/etc/x");
    assert_eq!(LocalDiskStorageProvider::get_absolute_photo_path("/srv", "photos", "abc").unwrap(), "/srv/photos/abc");
    assert_eq!(LocalDiskStorageProvider::get_absolute_photo_path("/srv/", "photos", "abc").unwrap(), "/srv/photos/abc");
    assert_eq!(LocalDiskStorageProvider::get_absolute_photo_path("srv", "photos", "abc").err(), Some(Error::InvalidPath));
    assert_eq!(upholi::server::storage::join_path("a", ""), "a/");
    assert_eq!(upholi::server::storage::join_path("", "x"), "x");
}

fn collection() -> Collection {
    Collection {
        id: "collection0123456789".to_string(),
        user_id: "user".to_string(),
        title: "Old".to_string(),
        albums: vec!["a".to_string()],
        sharing: CollectionSharing { token: "token".to_string(), password_hash: None },
    }
}

#[test]
fn collection_update() {
    let mut c = collection();
    let update = UpdateCollection {
        title: Some("New".to_string()),
        public: Some(true),
        albums: Some(vec!["b".to_string(), "c".to_string()]),
        sharing: Some(UpdateCollectionSharingOptions { shared: true, require_password: true, password: Some("secret".to_string()) }),
    };
    apply_collection_update(&mut c, &update).unwrap();
    assert_eq!(c.title, "New");
    assert_eq!(c.albums, vec!["b".to_string(), "c".to_string()]);
    let hash = c.sharing.password_hash.clone().unwrap();
    assert!(upholi::passwords::verify_password_hash("secret", &hash));
    assert!(c.password_correct("secret"));
    assert!(!c.password_correct("wrong"));

    let empty = UpdateCollection {
        title: None,
        public: None,
        albums: None,
        sharing: Some(UpdateCollectionSharingOptions { shared: true, require_password: true, password: Some(String::new()) }),
    };
    assert_eq!(apply_collection_update(&mut c, &empty).err(), Some(Error::PasswordEmpty));

    let keep = UpdateCollection {
        title: None,
        public: None,
        albums: None,
        sharing: Some(UpdateCollectionSharingOptions { shared: true, require_password: true, password: None }),
    };
    apply_collection_update(&mut c, &keep).unwrap();
    assert_eq!(c.sharing.password_hash, Some(hash));

    let open = UpdateCollection {
        title: None,
        public: None,
        albums: None,
        sharing: Some(UpdateCollectionSharingOptions { shared: true, require_password: false, password: None }),
    };
    apply_collection_update(&mut c, &open).unwrap();
    assert_eq!(c.sharing.password_hash, None);
}

#[test]
fn collection_authentication() {
    let mut c = collection();
    let update = UpdateCollection {
        title: None,
        public: None,
        albums: None,
        sharing: Some(UpdateCollectionSharingOptions { shared: true, require_password: true, password: Some("pw".to_string()) }),
    };
    apply_collection_update(&mut c, &update).unwrap();
    let mut session = Session::new();

    let none = AuthenticateToCollection { password: None };
    assert_eq!(authenticate_to_collection(&none, Some(&c), &mut session, true), AuthenticateOutcome::NoPassword);
    let wrong = AuthenticateToCollection { password: Some("nope".to_string()) };
    assert_eq!(authenticate_to_collection(&wrong, None, &mut session, true), AuthenticateOutcome::NotFound);
    assert_eq!(authenticate_to_collection(&wrong, Some(&c), &mut session, true), AuthenticateOutcome::Unauthorized);
    let right = AuthenticateToCollection { password: Some("pw".to_string()) };
    assert_eq!(
        authenticate_to_collection(&right, Some(&c), &mut session, false),
        AuthenticateOutcome::Authenticated { session_changed: true, set_cookie: true }
    );
    assert_eq!(
        authenticate_to_collection(&right, Some(&c), &mut session, true),
        AuthenticateOutcome::Authenticated { session_changed: false, set_cookie: false }
    );
    assert_eq!(session.authenticated_for_collection_tokens, vec!["token".to_string()]);
}

fn album_record(id: &str, title: &str) -> AlbumRecord {
    AlbumRecord {
        id: id.to_string(),
        user_id: "user".to_string(),
        title: title.to_string(),
        public: false,
        thumb_photo_id: Some(format!("{}-cover", id)),
        photos: vec![],
        tags: vec!["t".to_string()],
    }
}

#[test]
fn client_collection_lists_found_albums_in_order() {
    let mut c = collection();
    c.albums = vec!["b".to_string(), "missing".to_string(), "a".to_string()];
    let albums = vec![album_record("a", "A"), album_record("b", "B")];
    let client = ClientCollection::from(&c, &albums);
    assert_eq!(client.albums.len(), 2);
    assert_eq!(client.albums[0].id, "b");
    assert_eq!(client.albums[0].title, "B");
    assert_eq!(client.albums[0].thumb_photo_id, Some("b-cover".to_string()));
    assert_eq!(client.albums[1].id, "a");
    assert!(!client.sharing.require_password);
    assert_eq!(client.sharing.token, "token");
}

#[test]
fn photo_small_truncates_dimensions() {
    let p = PhotoRecord { id: "p".to_string(), user_id: "u".to_string(), width: 70000, height: 1500 };
    let small = PhotoSmall::from(&p);
    assert_eq!(small.width, 70000u32 as u16);
    assert_eq!(small.height, 1500);
}

#[test]
fn client_album_from_record() {
    let album = album_record("a", "A");
    let photos = vec![PhotoRecord { id: "p1".to_string(), user_id: "u".to_string(), width: 10, height: 20 }];
    let thumb = PhotoRecord { id: "a-cover".to_string(), user_id: "u".to_string(), width: 1, height: 2 };
    let client = ClientAlbum::from(&album, Some(&thumb), &photos);
    assert_eq!(client.id, "a");
    assert_eq!(client.photos.len(), 1);
    assert_eq!(client.photos[0].id, "p1");
    assert_eq!(client.thumb_photo.unwrap().id, "a-cover");
    assert_eq!(client.tags, vec!["t".to_string()]);
}

#[test]
fn album_update_applies_set_fields() {
    let mut album = album_record("a", "A");
    let update = UpdateAlbum { title: Some("B".to_string()), public: Some(true), thumb_photo_id: None, photos: Some(vec!["x".to_string()]) };
    apply_album_update(&mut album, &update);
    assert_eq!(album.title, "B");
    assert!(album.public);
    assert_eq!(album.photos, vec!["x".to_string()]);
    assert_eq!(album.thumb_photo_id, Some("a-cover".to_string()));
}

fn part(name: &str, bytes: &[u8]) -> FormData {
    FormData { name: name.to_string(), bytes: bytes.to_vec() }
}

#[test]
fn upload_file_selection() {
    assert_eq!(select_upload_file(&vec![]).err(), Some(Error::NoFile));
    assert_eq!(select_upload_file(&vec![part("other", b"x")]).err(), Some(Error::NoFile));
    assert_eq!(select_upload_file(&vec![part("other", b"x"), part("file", b"y")]).unwrap(), 1);
    assert_eq!(select_upload_file(&vec![part("file", b"x"), part("file", b"y")]).err(), Some(Error::MoreThanOneFile));
}

#[test]
fn upload_parts_sorting() {
    let parts = vec![part("data", b"d"), part("thumbnail", b"t"), part("preview", b"p"), part("original", b"o"), part("data", b"d2")];
    let sorted = sort_upload_parts(&parts).unwrap();
    assert_eq!(sorted.data, b"d2".to_vec());
    assert_eq!(sorted.thumbnail, b"t".to_vec());
    assert_eq!(sorted.preview, b"p".to_vec());
    assert_eq!(sorted.original, b"o".to_vec());
    assert_eq!(sort_upload_parts(&vec![part("bogus", b"x")]).err(), Some(Error::UnsupportedMultipartName));
}

#[test]
fn registration_checks_in_order() {
    assert_eq!(validate_registration(true, "", "", 8), Err(Error::UsernameExists));
    assert_eq!(validate_registration(false, "", "", 8), Err(Error::UsernameEmpty));
    assert_eq!(validate_registration(false, "bob", "short", 8), Err(Error::PasswordTooShort));
    assert_eq!(validate_registration(false, "bob", "longenough", 8), Ok(()));
}

#[test]
fn deletion_checks_owner() {
    let mine = PhotoRecord { id: "p".to_string(), user_id: "me".to_string(), width: 1, height: 1 };
    let theirs = PhotoRecord { id: "q".to_string(), user_id: "them".to_string(), width: 1, height: 1 };
    let files = photo_deletion_files("me", &vec![Some(mine.clone()), None]).unwrap();
    assert_eq!(files, vec!["p-original".to_string(), "p-preview".to_string(), "p-thumbnail".to_string()]);
    assert_eq!(photo_deletion_files("me", &vec![Some(mine), Some(theirs)]).err(), Some(Error::Unauthorized));
}

#[test]
fn served_photo_disposition() {
    assert_eq!(content_disposition("a.jpg", true), "attachment; filename=\"a.jpg\"");
    assert_eq!(content_disposition("a.jpg", false), "inline;");
}

#[test]
fn github_provider() {
    let _github: Github = get_provider();
    assert_eq!(Github::get_provider_id(), "github");
    assert_eq!(authorization_header("tok"), "Bearer tok");
}

#[test]
fn photos_are_visible_to_their_owner() {
    let photo = create_dummy_photo_with_id("p");
    assert_eq!(Photo::get_as_user(Some(photo.clone()), 0), Ok(Some(photo.clone())));
    assert_eq!(Photo::get_as_user(Some(photo), 1), Err(Error::Unauthorized));
    assert_eq!(Photo::get_as_user(None, 1), Ok(None));
}

#[test]
fn collection_update_without_any_password_is_refused() {
    let mut c = collection();
    let update = UpdateCollection {
        title: Some("New".to_string()),
        public: None,
        albums: Some(vec!["b".to_string()]),
        sharing: Some(UpdateCollectionSharingOptions { shared: true, require_password: true, password: None }),
    };
    assert_eq!(apply_collection_update(&mut c, &update).err(), Some(Error::MissingPassword));
    assert_eq!(c, collection());
    let empty = UpdateCollection {
        title: Some("New".to_string()),
        public: None,
        albums: None,
        sharing: Some(UpdateCollectionSharingOptions { shared: true, require_password: true, password: Some(String::new()) }),
    };
    assert_eq!(apply_collection_update(&mut c, &empty).err(), Some(Error::PasswordEmpty));
    assert_eq!(c, collection());
}
