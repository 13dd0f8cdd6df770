use nix_archiver::entry::PackageEntry;
use nix_archiver::manifest::{commits_to_prefetch, nixpkgs_var, render_manifest, unique_commits};

fn e(name: &str, version: &str, sha: &str) -> PackageEntry {
    PackageEntry::new(name.to_string(), version.to_string(), sha.to_string(), 0)
}

const A: &str = "aaaaaaaaaaaaaaaaaaaaaaaaaaaaaaaaaaaaaaaa";
const B: &str = "bbbbbbbbbbbbbbbbbbbbbbbbbbbbbbbbbbbbbbbb";

#[test]
fn snapshots_are_shared_by_revision() {
    let entries = vec![e("nodejs", "20.11.0", A), e("python", "3.12.1", B), e("go", "1.21", A)];
    assert_eq!(unique_commits(&entries), vec![A.to_string(), B.to_string()]);
    assert_eq!(nixpkgs_var(A), "nixpkgs_aaaaaaaaaaaa");
    assert_eq!(nixpkgs_var("abc"), "nixpkgs_abc");
}

#[test]
fn manifest_text_is_exact() {
    let entries = vec![e("nodejs", "20.11.0", A)];
    let text = render_manifest(&entries, &vec![A.to_string()], &vec!["SRC".to_string()]);
    let expected = format!(
        "# Pins packages to specific historical versions from Nixpkgs\n\nlet\n  nixpkgs_aaaaaaaaaaaa = SRC;\nin\n{{\n  # nodejs v20.11.0 (commit: {})\n  nodejs = import nixpkgs_aaaaaaaaaaaa {{}};\n\n}}\n",
        A
    );
    assert_eq!(text, expected);
}

#[test]
fn prefetch_selection() {
    let commits = vec![A.to_string(), B.to_string(), "c".to_string()];
    let cached = vec![true, false, false];
    assert_eq!(commits_to_prefetch(&commits, &cached, false, None), vec![B.to_string(), "c".to_string()]);
    assert_eq!(commits_to_prefetch(&commits, &cached, true, Some(2)), vec![A.to_string(), B.to_string()]);
    assert_eq!(commits_to_prefetch(&commits, &cached, false, Some(0)), Vec::<String>::new());
}
