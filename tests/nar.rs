use nix_archiver::nar::{compute_nar_hash_for_blob, nar_serialize};

#[test]
fn test_nar_hash_sri_format() {
    let hash = compute_nar_hash_for_blob(b"Hello, Nix!").unwrap();
    assert!(hash.starts_with("sha256-"), "unexpected prefix: {}", hash);
    assert_eq!(hash.len(), 51, "unexpected hash length: {}", hash);
}

#[test]
fn test_nar_hash_is_deterministic() {
    let content = b"Hello, Nix!";
    let h1 = compute_nar_hash_for_blob(content).unwrap();
    let h2 = compute_nar_hash_for_blob(content).unwrap();
    assert_eq!(h1, h2);
}

#[test]
fn test_nar_hash_differs_for_different_content() {
    let h1 = compute_nar_hash_for_blob(b"content_a").unwrap();
    let h2 = compute_nar_hash_for_blob(b"content_b").unwrap();
    assert_ne!(h1, h2);
}

#[test]
fn test_nar_hash_empty_file() {
    let hash = compute_nar_hash_for_blob(b"").unwrap();
    assert!(hash.starts_with("sha256-"));
    assert_eq!(hash.len(), 51);
}

#[test]
fn test_nar_hash_content_not_multiple_of_8() {
    let hash = compute_nar_hash_for_blob(b"12345").unwrap();
    assert!(hash.starts_with("sha256-"));
    assert_eq!(hash.len(), 51);
}

#[test]
fn test_nar_hash_content_exactly_8_bytes() {
    let hash = compute_nar_hash_for_blob(b"12345678").unwrap();
    assert!(hash.starts_with("sha256-"));
    assert_eq!(hash.len(), 51);
}

#[test]
fn test_nar_hash_different_sizes_produce_different_hashes() {
    let h5 = compute_nar_hash_for_blob(b"12345").unwrap();
    let h8 = compute_nar_hash_for_blob(b"12345678").unwrap();
    assert_ne!(h5, h8);
}

#[test]
fn archive_layout_of_five_bytes() {
    let nar = nar_serialize(b"12345");
    let mut expected: Vec<u8> = Vec::new();
    expected.extend_from_slice(b"nix-archive-1\0\0\0");
    expected.extend_from_slice(b"(\0\0\0\0\0\0\0");
    expected.extend_from_slice(b"type\0\0\0\0");
    expected.extend_from_slice(b"regular\0");
    expected.extend_from_slice(b"contents\0\0\0\0");
    expected.extend_from_slice(&5u64.to_le_bytes());
    expected.extend_from_slice(b"12345\0\0\0");
    expected.extend_from_slice(b")\0\0\0\0\0\0\0");
    assert_eq!(nar, expected);
}

#[test]
fn empty_file_hash_matches_its_archive_digest() {
    let digest = <sha2::Sha256 as sha2::Digest>::digest(nar_serialize(b"").as_slice());
    let expected = format!("sha256-{}", data_encoding::BASE64.encode(&digest));
    assert_eq!(compute_nar_hash_for_blob(b"").unwrap(), expected);
}
