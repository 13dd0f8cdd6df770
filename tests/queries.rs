use nix_archiver::entry::PackageEntry;
use nix_archiver::filter::filter_versions;
use nix_archiver::formatting::format_relative_time;
use nix_archiver::pins::parse_packages_spec;
use nix_archiver::store::{matches_substring, sort_by_observed};
use nix_archiver::version_key::has_major;
use nix_archiver::walker::{chunk_size, effective_bound};

fn e(version: &str, ts: u64) -> PackageEntry {
    PackageEntry::new("nodejs".to_string(), version.to_string(), "abc".to_string(), ts)
}

#[test]
fn filter_by_major_pattern_and_date() {
    let all = vec![e("18.0.0", 1_600_000_000), e("20.1.0", 1_700_000_000), e("20.11.0", 1_710_000_000)];
    let major = filter_versions(all.clone(), Some(20), None, None).unwrap();
    assert_eq!(major.len(), 2);
    let pattern = filter_versions(all.clone(), None, Some(r"^20\.1\."), None).unwrap();
    assert_eq!(pattern, vec![e("20.1.0", 1_700_000_000)]);
    let since = filter_versions(all.clone(), None, None, Some("2024-01-01")).unwrap();
    assert_eq!(since, vec![e("20.11.0", 1_710_000_000)]);
    assert_eq!(filter_versions(all, None, None, None).unwrap().len(), 3);
}

#[test]
fn filter_errors() {
    assert!(filter_versions(vec![e("1.0", 1)], None, Some("("), None).is_err());
    assert!(filter_versions(vec![e("1.0", 1)], None, None, Some("01/02/2024")).is_err());
    assert!(filter_versions(Vec::new(), None, Some("(["), Some("bad")).is_err());
}

#[test]
fn major_of_versions() {
    assert!(has_major("20.11.0", 20));
    assert!(!has_major("2.0", 20));
    assert!(has_major("beta", u64::MAX));
}

#[test]
fn relative_times() {
    let now = 1_700_000_000;
    assert_eq!(format_relative_time(now, now - 30), "just now");
    assert_eq!(format_relative_time(now, now + 500), "just now");
    assert_eq!(format_relative_time(now, now - 60), "1 min ago");
    assert_eq!(format_relative_time(now, now - 7200), "2 hours ago");
    assert_eq!(format_relative_time(now, now - 86400 * 3), "3 days ago");
    assert_eq!(format_relative_time(now, now - 86400 * 65), "2 months ago");
    assert_eq!(format_relative_time(now, now - 86400 * 365), "1 year ago");
}

#[test]
fn chunks_cover_the_batch() {
    assert_eq!(chunk_size(10, 4), 3);
    assert_eq!(chunk_size(8, 4), 2);
    assert_eq!(chunk_size(0, 4), 1);
    assert_eq!(chunk_size(3, 8), 1);
}

#[test]
fn substring_search_ignores_case() {
    assert!(matches_substring("vscode-extensions.biomejs.biome", "BIOMEJS"));
    assert!(matches_substring("vscode-extensions.biomejs.biome", "vscode-extensions"));
    assert!(!matches_substring("nodejs", "biomejs"));
}

#[test]
fn observation_order_newest_first() {
    let sorted = sort_by_observed(vec![e("14.17.0", 1000), e("18.0.0", 3000), e("16.0.0", 2000)]);
    let ts: Vec<u64> = sorted.iter().map(|x| x.timestamp).collect();
    assert_eq!(ts, vec![3000, 2000, 1000]);
}

#[test]
fn pin_list_entries() {
    let content = r#"{
        # pinned
        nodejs = "20.11.0";
        python = "latest";
        foo.bar = "1.0";
        other = "${x}";
    }"#;
    let pins = parse_packages_spec("packages.nix", content).unwrap();
    assert_eq!(pins, vec![("nodejs".to_string(), "20.11.0".to_string()), ("python".to_string(), "latest".to_string())]);
    assert!(parse_packages_spec("packages.nix", "{ nodejs = ").is_err());
}

#[test]
fn stop_bound_choice() {
    assert_eq!(effective_bound(true, Some(3), Some(4), Some(5)), None);
    assert_eq!(effective_bound(false, Some(3), Some(4), Some(5)), Some(3));
    assert_eq!(effective_bound(false, None, Some(4), Some(5)), Some(4));
    assert_eq!(effective_bound(false, None, None, Some(5)), Some(5));
    assert_eq!(effective_bound(false, None, None, None), None);
}
