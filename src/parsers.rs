//! Extraction of package facts from one declaration file: the structured
//! parse first, the heuristics only when the parser reports a syntax error.

use vstd::prelude::*;
use crate::entry::PackageInfo;
use crate::extract::{infos_view, structured_packages, extract_from_bindings};
use crate::fallback::{fallback_package, extract_packages_regex};
use crate::nix_read::{nix_bindings, nix_parses, read_bindings};

verus! {

/// What the heuristics yield, as a sequence of at most one package.
pub open spec fn fallback_packages(path: Seq<char>, content: Seq<char>) -> Seq<(Seq<char>, Seq<char>)> {
    match fallback_package(path, content) {
        Some(p) => seq![p],
        None => Seq::empty(),
    }
}

/// What extraction yields for a file: the structured strategies over the
/// parsed bindings when the parser accepts it, the heuristics otherwise.
pub open spec fn extracted(path: Seq<char>, content: Seq<char>) -> Seq<(Seq<char>, Seq<char>)> {
    if nix_parses(content) {
        structured_packages(nix_bindings(content), path)
    } else {
        fallback_packages(path, content)
    }
}

/// Extraction is a function of the path and the text: two results of
/// [`extract_packages_from_file`] on the same inputs are the same packages,
/// in the same order.
pub proof fn lemma_extraction_deterministic(path: Seq<char>, content: Seq<char>, r1: Seq<PackageInfo>, r2: Seq<PackageInfo>)
    requires
        infos_view(r1) == extracted(path, content),
        infos_view(r2) == extracted(path, content),
    ensures
        infos_view(r1) == infos_view(r2),
{
}

/// All packages a declaration file defines, as far as extraction can tell.
/// A file the parser accepts is read by the structured strategies; a file
/// with a syntax error by the heuristics.
pub fn extract_packages_from_file(path: &str, content: &str) -> (r: Vec<PackageInfo>)
    ensures
        infos_view(r@) == extracted(path@, content@),
        nix_parses(content@) ==> infos_view(r@) == structured_packages(nix_bindings(content@), path@),
        !nix_parses(content@) ==> infos_view(r@) == fallback_packages(path@, content@),
{
    match read_bindings(content) {
        Some(bs) => extract_from_bindings(&bs, path),
        None => match extract_packages_regex(path, content) {
            Some(p) => {
                let r = vec![p];
                assert(infos_view(r@) =~= fallback_packages(path@, content@));
                r
            },
            None => {
                let r: Vec<PackageInfo> = Vec::new();
                assert(infos_view(r@) =~= fallback_packages(path@, content@));
                r
            },
        },
    }
}


/// The first package a declaration file defines, if any.
pub fn extract_package_info_static(path: &str, content: &str) -> (r: Option<PackageInfo>)
    ensures
        r is None <==> extracted(path@, content@).len() == 0,
        (r matches Some(p) ==> extracted(path@, content@)[0] == crate::extract::info_view(p)),
{
    let mut all = extract_packages_from_file(path, content);
    if all.len() == 0 {
        None
    } else {
        let ghost v = all@;
        let first = all.remove(0);
        assert(infos_view(v)[0] == crate::extract::info_view(first));
        Some(first)
    }
}

} // verus!
