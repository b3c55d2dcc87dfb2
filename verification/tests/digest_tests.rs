use incremental_build::digest::content_digest;

#[test]
fn digest_of_known_bytes() {
    let d = content_digest(&b"abc".to_vec());
    assert_eq!(
        d,
        "ba7816bf8f01cfea414140de5dae2223b00361a396177a9cb410ff61f20015ad"
    );
}

#[test]
fn digest_of_empty_bytes() {
    let d = content_digest(&Vec::new());
    assert_eq!(
        d,
        "e3b0c44298fc1c149afbf4c8996fb92427ae41e4649b934ca495991b7852b855"
    );
}

#[test]
fn digest_is_always_64_hex_chars() {
    let d = content_digest(&vec![0u8, 255u8, 16u8]);
    assert_eq!(d.len(), 64);
    assert!(d.chars().all(|c| c.is_ascii_hexdigit()));
}

#[test]
fn digests_differ_when_bytes_differ() {
    let d1 = content_digest(&b"one".to_vec());
    let d2 = content_digest(&b"two".to_vec());
    assert_ne!(d1, d2);
}
