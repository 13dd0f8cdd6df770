use nix_archiver::entry::PackageEntry;
use nix_archiver::store::{pack, should_replace, unpack, StoreError};

const SHA: &str = "abc1234567890abcdef01234567890abcdef0123";

fn fact(ts: u64, sha: &str) -> PackageEntry {
    PackageEntry::new("nodejs".to_string(), "14.17.0".to_string(), sha.to_string(), ts)
}

#[test]
fn absent_key_is_inserted() {
    assert!(should_replace(None, &fact(1000, SHA)));
}

#[test]
fn newer_observation_wins() {
    let old = fact(1000, SHA);
    let new = fact(2000, SHA);
    assert!(should_replace(Some(&old), &new));
    assert!(!should_replace(Some(&new), &old));
}

#[test]
fn equal_timestamp_keeps_existing() {
    let a = fact(1000, SHA);
    let b = fact(1000, "0000000000000000000000000000000000000000");
    assert!(!should_replace(Some(&a), &b));
}

#[test]
fn inserting_twice_is_idempotent() {
    let f = fact(1500, SHA);
    assert!(should_replace(None, &f));
    assert!(!should_replace(Some(&f), &f));
}

#[test]
fn newest_wins_over_a_sequence() {
    let seq = vec![fact(1000, SHA), fact(3000, "1111111111111111111111111111111111111111"), fact(2000, SHA), fact(3000, "2222222222222222222222222222222222222222")];
    let mut stored: Option<PackageEntry> = None;
    for f in seq.iter() {
        if should_replace(stored.as_ref(), f) {
            stored = Some(f.clone());
        }
    }
    let kept = stored.unwrap();
    assert_eq!(kept.timestamp, 3000);
    assert_eq!(kept.commit_sha, "1111111111111111111111111111111111111111");
}

#[test]
fn record_round_trip() {
    let f = fact(1234567890, SHA);
    let rec = pack(&f).unwrap();
    assert_eq!(rec.commit.len(), 20);
    assert_eq!(rec.commit[0], 0xab);
    assert_eq!(unpack(&rec), f);
}

#[test]
fn uppercase_revision_is_stored_lowercase() {
    let f = fact(1, "ABC1234567890ABCDEF01234567890ABCDEF0123");
    let rec = pack(&f).unwrap();
    assert_eq!(unpack(&rec).commit_sha, SHA);
}

#[test]
fn short_or_non_hex_revision_is_rejected() {
    assert_eq!(pack(&fact(1, "abc123")), Err(StoreError::InvalidCommitSha));
    assert_eq!(pack(&fact(1, "zzz1234567890abcdef01234567890abcdef0123")), Err(StoreError::InvalidCommitSha));
}

#[test]
fn content_hash_round_trip() {
    let h = nix_archiver::nar::compute_nar_hash_for_blob(b"x").unwrap();
    let f = fact(7, SHA).with_nar_hash(h.clone());
    let rec = pack(&f).unwrap();
    assert_eq!(rec.nar.as_ref().map(|b| b.len()), Some(32));
    assert_eq!(unpack(&rec), f);
}

#[test]
fn malformed_content_hash_is_rejected() {
    assert_eq!(pack(&fact(1, SHA).with_nar_hash("md5-abc".to_string())), Err(StoreError::InvalidNarHash));
    assert_eq!(pack(&fact(1, SHA).with_nar_hash("sha256-AAAA".to_string())), Err(StoreError::InvalidNarHash));
    assert_eq!(pack(&fact(1, "abc").with_nar_hash("md5".to_string())), Err(StoreError::InvalidCommitSha));
}

#[test]
fn non_canonical_base64_hash_is_rejected() {
    let tail = data_encoding::BASE64.encode(&[7u8; 30]);
    let odd = format!("sha256-AA==AA=={}", tail);
    assert_eq!(pack(&fact(1, SHA).with_nar_hash(odd)), Err(StoreError::InvalidNarHash));
    let canonical = format!("sha256-{}", data_encoding::BASE64.encode(&[7u8; 32]));
    assert!(pack(&fact(1, SHA).with_nar_hash(canonical)).is_ok());
}
