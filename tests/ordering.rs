use std::cmp::Ordering;
use nix_archiver::entry::PackageEntry;
use nix_archiver::version_key::{cmp_num_vecs, compare_versions, parse_version_key, sort_versions_semver};

fn entry(version: &str) -> PackageEntry {
    PackageEntry::new("go".to_string(), version.to_string(), "abc".to_string(), 0)
}

#[test]
fn stable_is_newer_than_prereleases() {
    assert_eq!(compare_versions("1.21", "1.21rc3"), Ordering::Greater);
    assert_eq!(compare_versions("1.21rc3", "1.21rc2"), Ordering::Greater);
    assert_eq!(compare_versions("1.21rc2", "1.21beta1"), Ordering::Greater);
    assert_eq!(compare_versions("1.21beta1", "1.21alpha9"), Ordering::Greater);
    assert_eq!(compare_versions("1.20.2", "1.20.1"), Ordering::Greater);
    assert_eq!(compare_versions("1.20.1", "1.20.2"), Ordering::Less);
}

#[test]
fn numeric_components_dominate_tags() {
    assert_eq!(compare_versions("1.22alpha1", "1.21"), Ordering::Greater);
    assert_eq!(compare_versions("2.0rc1", "1.99.99"), Ordering::Greater);
}

#[test]
fn missing_components_count_as_zero() {
    assert_eq!(compare_versions("1.0", "1.0.0"), Ordering::Equal);
    assert_eq!(cmp_num_vecs(&[1, 2], &[1, 2, 0]), Ordering::Equal);
    assert_eq!(cmp_num_vecs(&[1, 2], &[1, 2, 1]), Ordering::Less);
}

#[test]
fn semver_prerelease_separators_are_folded() {
    let k = parse_version_key("1.18.0-rc.2");
    assert_eq!(k.nums, vec![1, 18, 0]);
    assert_eq!(k.pre_tier, 2);
    assert_eq!(k.pre_num, 2);
    let b = parse_version_key("1.18.0-BETA.1");
    assert_eq!(b.pre_tier, 1);
    assert_eq!(b.pre_num, 1);
}

#[test]
fn unknown_tag_is_stable_with_its_digits() {
    let k = parse_version_key("2.3-unstable-2024");
    assert_eq!(k.nums, vec![2, 3]);
    assert_eq!(k.pre_tier, 3);
    assert_eq!(k.pre_num, 2024);
    let s = parse_version_key("");
    assert!(s.nums.is_empty());
    assert_eq!(s.pre_tier, 3);
}

#[test]
fn oversized_component_reads_as_zero() {
    let k = parse_version_key("99999999999999999999.1");
    assert_eq!(k.nums, vec![0, 1]);
}

#[test]
fn sort_newest_first() {
    let input = vec![entry("1.20.1"), entry("1.21beta1"), entry("1.21"), entry("1.21rc2"), entry("1.20.2"), entry("1.21rc3")];
    let sorted = sort_versions_semver(input);
    let versions: Vec<&str> = sorted.iter().map(|e| e.version.as_str()).collect();
    assert_eq!(versions, vec!["1.21", "1.21rc3", "1.21rc2", "1.21beta1", "1.20.2", "1.20.1"]);
}

#[test]
fn sort_keeps_order_of_equal_versions() {
    let mut a = entry("1.0");
    a.commit_sha = "first".to_string();
    let mut b = entry("1.0.0");
    b.commit_sha = "second".to_string();
    let sorted = sort_versions_semver(vec![a, entry("0.9"), b]);
    assert_eq!(sorted[0].commit_sha, "first");
    assert_eq!(sorted[1].commit_sha, "second");
    assert_eq!(sorted[2].version, "0.9");
    assert!(sort_versions_semver(Vec::new()).is_empty());
}

#[test]
fn sort_is_stable_for_equivalent_versions() {
    let mk = |v: &str, sha: &str| {
        let mut e = entry(v);
        e.commit_sha = sha.to_string();
        e
    };
    let sorted = sort_versions_semver(vec![mk("2.0", "x"), mk("1.0", "a"), mk("2.0.0", "y"), mk("1.0.0", "b"), mk("2", "z")]);
    let shas: Vec<&str> = sorted.iter().map(|e| e.commit_sha.as_str()).collect();
    assert_eq!(shas, vec!["x", "y", "z", "a", "b"]);
}
