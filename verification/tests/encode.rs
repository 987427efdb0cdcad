use base64::Engine;
use shazam_lib::encode_to_base64;

#[test]
fn test_encode_to_base64() {
    let encoded = encode_to_base64(b"hello");
    assert_eq!(encoded, "aGVsbG8=");
}

#[test]
fn test_encode_to_base64_empty() {
    let encoded = encode_to_base64(b"");
    assert_eq!(encoded, "");
}

#[test]
fn each_length_of_the_last_group() {
    assert_eq!(encode_to_base64(b"f"), "Zg==");
    assert_eq!(encode_to_base64(b"fo"), "Zm8=");
    assert_eq!(encode_to_base64(b"foo"), "Zm9v");
    assert_eq!(encode_to_base64(b"foob"), "Zm9vYg==");
}

#[test]
fn whole_alphabet() {
    // All 64 groups of six bits, in order.
    let mut bytes: Vec<u8> = Vec::new();
    for i in 0..16u8 {
        let v = [4 * i, 4 * i + 1, 4 * i + 2, 4 * i + 3];
        bytes.push(v[0] << 2 | v[1] >> 4);
        bytes.push((v[1] & 15) << 4 | v[2] >> 2);
        bytes.push((v[2] & 3) << 6 | v[3]);
    }
    assert_eq!(
        encode_to_base64(&bytes),
        "ABCDEFGHIJKLMNOPQRSTUVWXYZabcdefghijklmnopqrstuvwxyz0123456789+/",
    );
}

#[test]
fn nothing_is_lost() {
    for n in 0..100usize {
        let bytes: Vec<u8> = (0..n).map(|i| (i * 37 + n) as u8).collect();
        let encoded = encode_to_base64(&bytes);
        assert_eq!(encoded.len(), 4 * ((n + 2) / 3));
        assert_eq!(base64::engine::general_purpose::STANDARD.decode(&encoded).unwrap(), bytes);
    }
}
