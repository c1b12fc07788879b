use postgres_browser_proxy::{
    crop_origin, decode_data_url, decode_payload, encode_jpeg_data_url, ImageDataError, TARGET_SIZE,
};

#[test]
fn encodes_jpeg_data_urls() {
    assert_eq!(encode_jpeg_data_url(b""), "data:image/jpeg;base64,");
    assert_eq!(encode_jpeg_data_url(b"f"), "data:image/jpeg;base64,Zg==");
    assert_eq!(encode_jpeg_data_url(b"fo"), "data:image/jpeg;base64,Zm8=");
    assert_eq!(encode_jpeg_data_url(b"foo"), "data:image/jpeg;base64,Zm9v");
    assert_eq!(encode_jpeg_data_url(b"foobar"), "data:image/jpeg;base64,Zm9vYmFy");
    assert_eq!(encode_jpeg_data_url(&[0xff, 0xfe, 0x3e]), "data:image/jpeg;base64,//4+");
}

#[test]
fn decodes_data_urls() {
    assert_eq!(decode_data_url("data:image/png;base64,aGVsbG8="), Ok(b"hello".to_vec()));
    assert_eq!(decode_data_url("  aGVsbG8=\n"), Ok(b"hello".to_vec()));
    assert_eq!(decode_data_url("data:image/png;base64,  Zm9v \r\n"), Ok(b"foo".to_vec()));
    assert_eq!(decode_data_url("data:image/png;base64,!!"), Err(ImageDataError::Base64));
    assert_eq!(decode_payload("Zm9vYmFy"), Ok(b"foobar".to_vec()));
}

#[test]
fn round_trip_through_data_url() {
    let bytes: Vec<u8> = (0u8..=255).collect();
    let url = encode_jpeg_data_url(&bytes);
    assert_eq!(decode_data_url(&url), Ok(bytes));
}

#[test]
fn crop_window() {
    assert_eq!(TARGET_SIZE, 512);
    assert_eq!(crop_origin(912, 512), (200, 0));
    assert_eq!(crop_origin(512, 912), (0, 0));
    assert_eq!(crop_origin(600, 700), (0, 44));
    assert_eq!(crop_origin(512, 512), (0, 0));
}

#[test]
fn canonical_base64_only() {
    assert_eq!(decode_payload("aGk="), Ok(b"hi".to_vec()));
    assert_eq!(decode_payload(""), Ok(vec![]));
    assert_eq!(decode_payload("aGk"), Err(ImageDataError::Base64));
    assert_eq!(decode_payload("aGl="), Err(ImageDataError::Base64));
    assert_eq!(decode_payload("aGk=aGk="), Err(ImageDataError::Base64));
}
