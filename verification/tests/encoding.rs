use invoice_scan::encode::build_request;
use invoice_scan::encode::decode_image;
use invoice_scan::encode::encode_image;

#[test]
fn base64_round_trip() {
    let data = vec![0u8, 1, 2, 127, 128, 250, 255];
    let text = encode_image(&data);
    let back = decode_image(&text).unwrap();
    assert_eq!(back, data);
}

#[test]
fn base64_round_trip_empty() {
    let data: Vec<u8> = vec![];
    let text = encode_image(&data);
    assert_eq!(text, "");
    assert_eq!(decode_image(&text).unwrap(), data);
}

#[test]
fn base64_exact_values() {
    assert_eq!(encode_image(&b"abc".to_vec()), "YWJj");
    assert_eq!(encode_image(&b"ab".to_vec()), "YWI=");
    assert_eq!(encode_image(&b"a".to_vec()), "YQ==");
}

#[test]
fn base64_decode_exact() {
    assert_eq!(decode_image("YWJj"), Some(b"abc".to_vec()));
}

#[test]
fn base64_decode_rejects_garbage() {
    assert_eq!(decode_image("!!!"), None);
}

#[test]
fn request_carries_encoded_images() {
    let images = vec![b"abc".to_vec(), b"a".to_vec()];
    let req = build_request("test-model", "extract the fields", &images);
    assert_eq!(req.model, "test-model");
    assert_eq!(req.prompt, "extract the fields");
    assert_eq!(req.images, vec!["YWJj".to_string(), "YQ==".to_string()]);
}
