use upholi::legacy::{get_albums, get_photos};

#[test]
fn test_get_albums() {
    let albums = get_albums();
    for album in albums.iter() {
        let album_title_length = album.title.len();

        assert!(album_title_length >= 1, "Album title is empty");
    }
}

#[test]
fn legacy_albums_are_numbered() {
    let albums = get_albums();
    assert_eq!(albums.len(), 2);
    assert_eq!(albums[0].id, 0);
    assert_eq!(albums[0].title, "Boom");
    assert_eq!(albums[1].id, 1);
    assert_eq!(albums[1].title, "Hello world");
    assert_eq!(get_photos(), albums);
}

#[test]
fn legacy_dimensions_roundtrip() {
    use_dimensions();
}

fn use_dimensions() {
    assert_eq!(upholi::legacy::stored_dimension(640), 640);
    assert_eq!(upholi::legacy::dimension_from_stored(640), 640);
    assert_eq!(upholi::legacy::dimension_from_stored(-5), 0);
    assert_eq!(upholi::legacy::stored_dimension(u32::MAX), -1);
    assert_eq!(upholi::legacy::dimension_from_stored(upholi::legacy::stored_dimension(u32::MAX)), 0);
}
