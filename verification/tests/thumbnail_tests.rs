use daydream::thumbnail::{encode_uri_path, png_data_url, thumbnail_candidates};
use md5::Digest;

#[test]
fn uri_encoding() {
    assert_eq!(encode_uri_path("/home/u/My Video (1).mp4"), "/home/u/My%20Video%20(1).mp4");
    assert_eq!(encode_uri_path("é"), "%C3%A9");
    assert_eq!(encode_uri_path("a#b?c%d"), "a%23b%3Fc%25d");
    assert_eq!(encode_uri_path("A-Z_a.z~0:9@!$&'*+,;="), "A-Z_a.z~0:9@!$&'*+,;=");
    assert_eq!(encode_uri_path(""), "");
}

#[test]
fn candidate_locations() {
    let hex = format!("{:x}", md5::Md5::digest(b"file:///tmp/x%20y.mp4"));
    let c = thumbnail_candidates(&"/home/u/.cache".to_string(), "/tmp/x y.mp4");
    assert_eq!(c.len(), 2);
    assert_eq!(c[0], format!("/home/u/.cache/thumbnails/large/{hex}.png"));
    assert_eq!(c[1], format!("/home/u/.cache/thumbnails/normal/{hex}.png"));
    let slash = thumbnail_candidates(&"/c/".to_string(), "/tmp/x y.mp4");
    assert_eq!(slash[0], format!("/c/thumbnails/large/{hex}.png"));
}

#[test]
fn known_thumbnail_hash() {
    let expected = format!("{:x}", md5::Md5::digest(b"file:///a"));
    assert_eq!(expected.len(), 32);
    let c = thumbnail_candidates(&"".to_string(), "/a");
    assert_eq!(c[0], format!("thumbnails/large/{expected}.png"));
}

#[test]
fn data_url() {
    assert_eq!(png_data_url(&vec![1, 2, 3]), "data:image/png;base64,AQID");
    assert_eq!(png_data_url(&vec![]), "data:image/png;base64,");
    assert_eq!(png_data_url(&b"hi".to_vec()), "data:image/png;base64,aGk=");
}
