use nix_archiver::entry::PackageEntry;

fn make_entry() -> PackageEntry {
    PackageEntry::new(
        "nodejs".to_string(),
        "14.17.0".to_string(),
        "abc1234567890abcdef01234567890abcdef0123".to_string(),
        1234567890,
    )
}

#[test]
fn lib_test_package_entry_key() {
    let entry = PackageEntry::new(
        "nodejs".to_string(),
        "14.17.0".to_string(),
        "abc123".to_string(),
        1234567890,
    );
    assert_eq!(entry.key(), "nodejs:14.17.0");
}

#[test]
fn test_nix_fetchtarball_generation() {
    let entry = PackageEntry::new(
        "nodejs".to_string(),
        "14.17.0".to_string(),
        "abc123".to_string(),
        1234567890,
    );
    let nix = entry.with_nar_hash("sha256-test".to_string()).to_nix_fetchtarball();
    assert!(nix.contains("abc123.tar.gz"));
    assert!(nix.contains("sha256-test"));
}

#[test]
fn models_test_package_entry_key() {
    assert_eq!(make_entry().key(), "nodejs:14.17.0");
}

#[test]
fn test_key_uses_attr_name_and_version() {
    let e = PackageEntry::new(
        "charliermarsh.ruff".to_string(),
        "2026.36.0".to_string(),
        "abc1234567890abcdef01234567890abcdef0123".to_string(),
        0,
    );
    assert_eq!(e.key(), "charliermarsh.ruff:2026.36.0");
}

#[test]
fn test_nix_fetchtarball_contains_sha() {
    let nix = make_entry().to_nix_fetchtarball();
    assert!(nix.contains("abc1234567890abcdef01234567890abcdef0123.tar.gz"));
}

#[test]
fn test_nix_import_contains_pkgs_and_attr() {
    let nix = make_entry().to_nix_import();
    assert!(nix.contains("import"));
    assert!(nix.contains("pkgs.nodejs"));
}

#[test]
fn test_display_format_contains_name_version_and_short_sha() {
    let s = make_entry().display_string();
    assert!(s.contains("nodejs"));
    assert!(s.contains("14.17.0"));
    assert!(s.contains("abc12345"));
}

#[test]
fn new_entry_is_primary() {
    assert!(make_entry().is_primary);
}

#[test]
fn fetchtarball_exact_text() {
    let e = PackageEntry::new("a".to_string(), "1".to_string(), "ff".to_string(), 1);
    assert_eq!(
        e.to_nix_fetchtarball(),
        "fetchTarball {\n  url = \"https://github.com/NixOS/nixpkgs/archive/ff.tar.gz\";\n}"
    );
    assert_eq!(
        e.to_nix_import(),
        "let\n  pkgs = import (fetchTarball {\n  url = \"https://github.com/NixOS/nixpkgs/archive/ff.tar.gz\";\n}) {};\nin\n  pkgs.a"
    );
}

#[test]
fn display_with_short_revision_keeps_it_whole() {
    let e = PackageEntry::new("a".to_string(), "1.0".to_string(), "abc".to_string(), 1);
    assert_eq!(e.display_string(), "a 1.0 @ abc");
}

#[test]
fn content_hash_pins_the_fetch_and_shows_in_summary() {
    let e = PackageEntry::new("a".to_string(), "1".to_string(), "ff".to_string(), 1)
        .with_nar_hash("sha256-xyz".to_string());
    assert_eq!(
        e.to_nix_fetchtarball(),
        "fetchTarball {\n  url = \"https://github.com/NixOS/nixpkgs/archive/ff.tar.gz\";\n  sha256 = \"sha256-xyz\";\n}"
    );
    assert_eq!(e.display_string(), "a 1 @ ff (sha256-xyz)");
    assert_eq!(e.nar_hash, Some("sha256-xyz".to_string()));
}
