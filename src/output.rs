//! Rows of the listings the command line shows.

use vstd::prelude::*;

verus! {

/// One version of a package in a listing.
#[derive(Debug, Clone, PartialEq, Eq)]
pub struct VersionRow {
    pub version: String,
    pub commit: String,
    pub date: String,
}

/// One package in a listing of several.
#[derive(Debug, Clone, PartialEq, Eq)]
pub struct PackageSummaryRow {
    pub attr_name: String,
    pub version_count: String,
    pub latest_version: String,
    pub latest_date: String,
}

/// One package set with the number of matching packages in it.
#[derive(Debug, Clone, PartialEq, Eq)]
pub struct PackageSetRow {
    pub set: String,
    pub packages: String,
}

} // verus!
