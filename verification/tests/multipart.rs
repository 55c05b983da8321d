use upholi::multipart::MultipartBuilder;

#[test]
fn multipart_body_frames_parts() {
    let multipart = MultipartBuilder::new().add_bytes("data", b"abc").add_bytes("file", b"xy").build();
    let expected = b"--MULTIPARTBINARY\r\nContent-Disposition: form-data; name=\"data\"\r\nContent-Type: application/octet-stream\r\n\r\nabc\r\n--MULTIPARTBINARY\r\nContent-Disposition: form-data; name=\"file\"\r\nContent-Type: application/octet-stream\r\n\r\nxy\r\n--MULTIPARTBINARY--";
    assert_eq!(multipart.body, expected.to_vec());
    assert_eq!(multipart.content_length, expected.len());
    assert_eq!(multipart.content_type, "multipart/form-data; boundary=MULTIPARTBINARY");
}

#[test]
fn multipart_without_parts() {
    let multipart = MultipartBuilder::new().build();
    assert_eq!(multipart.body, b"--MULTIPARTBINARY--".to_vec());
    assert_eq!(multipart.content_length, 19);
}

#[test]
fn files_are_sent_as_parts_named_by_id() {
    let files = vec![
        upholi::uploads::File { id: "p-thumbnail".to_string(), bytes: b"t".to_vec() },
        upholi::uploads::File { id: "p-preview".to_string(), bytes: b"p".to_vec() },
    ];
    let by_files = upholi::uploads::files_multipart(&files);
    let by_hand = MultipartBuilder::new().add_bytes("p-thumbnail", b"t").add_bytes("p-preview", b"p").build();
    assert_eq!(by_files.body, by_hand.body);
    assert_eq!(by_files.content_length, by_hand.content_length);
}

#[test]
fn photo_upload_parts_in_order() {
    let m = upholi::uploads::photo_upload_multipart(b"d", b"t", b"p", b"o");
    let by_hand = MultipartBuilder::new().add_bytes("data", b"d").add_bytes("thumbnail", b"t").add_bytes("preview", b"p").add_bytes("original", b"o").build();
    assert_eq!(m.body, by_hand.body);
}
