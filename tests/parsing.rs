use nix_archiver::fallback::{extract_callpackage_attr, extract_interpolation, extract_mktplcref, extract_packages_regex, extract_pname, extract_sourceversion};
use nix_archiver::parsers::{extract_package_info_static, extract_packages_from_file};
use nix_archiver::validate::{extract_attr_name, is_valid_version, looks_like_package_name, path_to_attr_name};
use nix_archiver::entry::PackageInfo;
use regex::Regex;

fn extract_one(path: &str, content: &str) -> Option<PackageInfo> {
    extract_packages_from_file(path, content).into_iter().next()
}

#[test]
fn test_version_regex() {
    let indexer_regex = Regex::new(r#"version\s*=\s*"([^"]+)""#).unwrap();
    let content = r#"
            pname = "nodejs";
            version = "14.17.0";
        "#;
    let caps = indexer_regex.captures(content).unwrap();
    assert_eq!(caps.get(1).unwrap().as_str(), "14.17.0");
}

#[test]
fn test_attr_name_extraction() {
    let path = "pkgs/development/libraries/nodejs/default.nix";
    assert_eq!(extract_attr_name(path), Some("nodejs".to_string()));
}

#[test]
fn test_ast_simple_pname_version() {
    let content = r#"
        { lib, stdenv }:
        stdenv.mkDerivation rec {
            pname = "ripgrep";
            version = "14.1.1";
        }
    "#;
    let info = extract_one("pkgs/tools/text/ripgrep/default.nix", content).unwrap();
    assert_eq!(info.attr_name, "ripgrep");
    assert_eq!(info.version, "14.1.1");
}

#[test]
fn test_ast_fallback_to_path_when_no_pname() {
    let content = r#"
        { lib, stdenv }:
        stdenv.mkDerivation {
            version = "1.0.0";
        }
    "#;
    let info = extract_one("pkgs/development/libraries/mylib/default.nix", content).unwrap();
    assert_eq!(info.attr_name, "mylib");
    assert_eq!(info.version, "1.0.0");
}

#[test]
fn test_ast_interpolated_version() {
    let content = r#"
        { lib, stdenv }:
        let
            major = "3";
            minor = "12";
            patch = "5";
        in
        stdenv.mkDerivation {
            pname = "cpython";
            version = "${major}.${minor}.${patch}";
        }
    "#;
    let info = extract_one("pkgs/development/interpreters/cpython/default.nix", content).unwrap();
    assert_eq!(info.attr_name, "cpython");
    assert_eq!(info.version, "3.12.5");
}

#[test]
fn test_ast_mktplcref_biome_style() {
    let content = r#"
        { lib, vscode-utils }:
        vscode-utils.buildVscodeMarketplaceExtension {
            mktplcRef = {
                name = "biome";
                publisher = "biomejs";
                version = "2025.10.241456";
                hash = "sha256-tihEFcDDYr/khLIcJbR5VSC/RujEvp/gcnWlokAqNBc=";
            };
        }
    "#;
    let info = extract_one(
        "pkgs/applications/editors/vscode/extensions/biomejs.biome/default.nix",
        content,
    ).unwrap();
    assert_eq!(info.attr_name, "vscode-extensions.biomejs.biome");
    assert_eq!(info.version, "2025.10.241456");
}

#[test]
fn test_ast_mktplcref_ruff_let_style() {
    let content = r#"
        { stdenvNoCC, lib, vscode-utils }:
        vscode-utils.buildVscodeMarketplaceExtension {
            mktplcRef =
                let
                    sources = {
                        "x86_64-linux" = { arch = "linux-x64"; hash = "sha256-abc="; };
                    };
                in
                {
                    name = "ruff";
                    publisher = "charliermarsh";
                    version = "2026.36.0";
                }
                // sources."x86_64-linux";
        }
    "#;
    let info = extract_one(
        "pkgs/applications/editors/vscode/extensions/charliermarsh.ruff/default.nix",
        content,
    ).unwrap();
    assert_eq!(info.attr_name, "vscode-extensions.charliermarsh.ruff");
    assert_eq!(info.version, "2026.36.0");
}

#[test]
fn test_ast_multi_package_sourceversion() {
    let content = r#"
        {
            python311 = callPackage ./cpython {
                sourceVersion = { major = "3"; minor = "11"; patch = "14"; };
            };
            python312 = callPackage ./cpython {
                sourceVersion = { major = "3"; minor = "12"; patch = "12"; };
            };
        }
    "#;
    let pkgs = extract_packages_from_file("pkgs/development/interpreters/python/default.nix", content);
    assert_eq!(pkgs.len(), 2);
    let names: Vec<&str> = pkgs.iter().map(|p| p.attr_name.as_str()).collect();
    assert!(names.contains(&"python311"));
    assert!(names.contains(&"python312"));
    let v311 = pkgs.iter().find(|p| p.attr_name == "python311").unwrap();
    assert_eq!(v311.version, "3.11.14");
    let v312 = pkgs.iter().find(|p| p.attr_name == "python312").unwrap();
    assert_eq!(v312.version, "3.12.12");
}

#[test]
fn test_version_validation() {
    assert!(is_valid_version("14.17.0"));
    assert!(is_valid_version("1.2.3"));
    assert!(is_valid_version("2.0.0-alpha"));
    assert!(is_valid_version("3.1.4+build.123"));
    assert!(is_valid_version("20.20.0"));
    assert!(is_valid_version("v1.0.0"));
    assert!(is_valid_version("2026.36.0"));

    assert!(!is_valid_version("v${lib.head (lib.strings.splitString"));
    assert!(!is_valid_version("${version}"));
    assert!(!is_valid_version("lib.version"));
    assert!(!is_valid_version("(someFunction)"));
    assert!(!is_valid_version("{interpolation}"));

    assert!(!is_valid_version("invalid"));
    assert!(!is_valid_version(""));
}

#[test]
fn test_path_to_attr_name() {
    assert_eq!(
        path_to_attr_name("pkgs/development/libraries/nodejs/default.nix"),
        Some("nodejs".to_string())
    );
    assert_eq!(
        path_to_attr_name("pkgs/applications/editors/vscode/extensions/biomejs.biome/default.nix"),
        Some("biomejs.biome".to_string())
    );
    assert_eq!(path_to_attr_name("default.nix"), None);
}

#[test]
fn path_outside_package_root_gives_no_name() {
    assert_eq!(path_to_attr_name("nixos/modules/services/foo/default.nix"), None);
    assert_eq!(path_to_attr_name("pkgs/a/b"), None);
}

#[test]
fn parent_directory_named_like_the_root_is_kept() {
    assert_eq!(path_to_attr_name("pkgs/a/pkgs/default.nix"), Some("pkgs".to_string()));
    assert_eq!(
        extract_attr_name("pkgs/applications/editors/vscode/extensions/biomejs.biome/default.nix"),
        Some("biomejs.biome".to_string())
    );
}

#[test]
fn validation_rejects_code_fragments_with_digits() {
    assert!(!is_valid_version("1.2${x}"));
    assert!(!is_valid_version("1.(2"));
    assert!(!is_valid_version("1}2"));
    assert!(!is_valid_version("splitString1"));
    assert!(!is_valid_version("1.0 beta"));
}

#[test]
fn package_name_heuristic() {
    assert!(looks_like_package_name("python311"));
    assert!(looks_like_package_name("_private-name"));
    assert!(!looks_like_package_name("3python"));
    assert!(!looks_like_package_name(""));
    assert!(!looks_like_package_name("a.b"));
    assert!(!looks_like_package_name(&"a".repeat(81)));
    assert!(looks_like_package_name(&"a".repeat(80)));
}

#[test]
fn syntax_error_falls_back_to_heuristics() {
    let content = r#"
        { lib, stdenv }:
        stdenv.mkDerivation {
            pname = "broken";
            version = "2.4.1";
            src = fetchurl { url = "x"
    "#;
    let pkgs = extract_packages_from_file("pkgs/tools/misc/broken/default.nix", content);
    assert_eq!(pkgs.len(), 1);
    assert_eq!(pkgs[0].attr_name, "broken");
    assert_eq!(pkgs[0].version, "2.4.1");
    let direct = extract_packages_regex("pkgs/tools/misc/broken/default.nix", content).unwrap();
    assert_eq!(direct, pkgs[0]);
}

#[test]
fn fallback_finds_only_one_of_several_siblings() {
    let content = r#"
        {
            python311 = callPackage ./cpython {
                sourceVersion = { major = "3"; minor = "11"; patch = "14"; };
            };
            python312 = callPackage ./cpython {
                sourceVersion = { major = "3"; minor = "12"; patch = "12"; };
            };
    "#;
    let pkgs = extract_packages_from_file("pkgs/development/interpreters/python/default.nix", content);
    assert_eq!(pkgs.len(), 1);
    assert_eq!(pkgs[0].attr_name, "python311");
    assert_eq!(pkgs[0].version, "3.11.14");
}

#[test]
fn callpackage_line_scan() {
    let content = "  python311 = callPackage ./cpython {\n    sourceVersion = { major = \"3\"; };\n  };\n";
    assert_eq!(extract_callpackage_attr(content), Some("python311".to_string()));
    let closed = "  foo = callPackage ./foo {\n  }\n  sourceVersion = {};\n";
    assert_eq!(extract_callpackage_attr(closed), None);
    assert_eq!(extract_callpackage_attr("no bindings here"), None);
}

#[test]
fn extraction_is_deterministic() {
    let content = r#"{ pname = "hello"; version = "2.12.1"; }"#;
    let a = extract_packages_from_file("pkgs/tools/misc/hello/default.nix", content);
    let b = extract_packages_from_file("pkgs/tools/misc/hello/default.nix", content);
    assert_eq!(a, b);
    assert_eq!(a.len(), 1);
    assert_eq!(a[0].version, "2.12.1");
}

#[test]
fn with_namespace_version_is_resolved() {
    let content = r#"
        { stdenv }:
        let
            sourceVersion = { major = "1"; minor = "2"; patch = "3"; };
        in
        stdenv.mkDerivation {
            pname = "thing";
            version = with sourceVersion; "${major}.${minor}.${patch}";
        }
    "#;
    let info = extract_one("pkgs/tools/misc/thing/default.nix", content).unwrap();
    assert_eq!(info.attr_name, "thing");
    assert_eq!(info.version, "1.2.3");
}

#[test]
fn nested_field_interpolation_is_not_resolved() {
    let content = r#"
        { stdenv, versions }:
        stdenv.mkDerivation {
            pname = "thing";
            version = "${versions.major}.1";
        }
    "#;
    assert!(extract_packages_from_file("pkgs/tools/misc/thing/default.nix", content).is_empty());
}

#[test]
fn marketplace_without_publisher_uses_path_then_pname() {
    let content = r#"{ mktplcRef = { name = "solo"; version = "0.1.0"; }; }"#;
    let info = extract_one("pkgs/applications/editors/vscode/extensions/solo-ext/default.nix", content).unwrap();
    assert_eq!(info.attr_name, "solo-ext");
    assert_eq!(info.version, "0.1.0");
    let with_pname = r#"{ pname = "solo-pname"; mktplcRef = { name = "solo"; version = "0.1.0"; }; }"#;
    let info = extract_one("x/default.nix", with_pname).unwrap();
    assert_eq!(info.attr_name, "solo-pname");
    assert_eq!(info.version, "0.1.0");
    assert!(extract_packages_from_file("x/default.nix", content).is_empty());
}

#[test]
fn empty_file_yields_nothing() {
    assert!(extract_packages_from_file("pkgs/a/b/c/default.nix", "").is_empty());
}

#[test]
fn regex_heuristics_one_by_one() {
    let text = r#"
        pname = "tool";
        sourceVersion = { major = "3"; minor = "9"; patch = "18"; suffix = "rc1"; };
        mktplcRef = { name = "x"; version = "1.2.3"; };
    "#;
    assert_eq!(extract_pname(text), Some("tool".to_string()));
    assert_eq!(extract_sourceversion(text), Some("3.9.18rc1".to_string()));
    assert_eq!(extract_mktplcref(text), Some("1.2.3".to_string()));
    assert_eq!(extract_interpolation(text), Some("3.9.18".to_string()));
    let no_patch = r#" major = "2"; minor = "7"; "#;
    assert_eq!(extract_interpolation(no_patch), Some("2.7.0".to_string()));
    assert_eq!(extract_mktplcref(r#"mktplcRef = { version = "${v}"; }"#), None);
    assert_eq!(extract_pname("nothing"), None);
}

#[test]
fn first_package_of_a_file() {
    let content = r#"{ pname = "hello"; version = "2.12.1"; }"#;
    let info = extract_package_info_static("pkgs/tools/misc/hello/default.nix", content).unwrap();
    assert_eq!(info.attr_name, "hello");
    assert_eq!(info.version, "2.12.1");
    assert!(extract_package_info_static("x.nix", "{ }").is_none());
}

#[test]
fn invalid_literal_version_uses_assembled_parts() {
    let content = r#"
        { stdenv }:
        let major = "1"; minor = "4"; patch = "2"; suffix = "b"; in
        stdenv.mkDerivation {
            pname = "assembled";
            version = lib.version;
        }
    "#;
    let info = extract_one("pkgs/tools/misc/assembled/default.nix", content).unwrap();
    assert_eq!(info.version, "1.4.2b");
}
