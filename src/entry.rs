//! Package facts and the values the extractor and indexer hand around.

use vstd::prelude::*;

verus! {

/// One observation of a package at a version, in one revision of the tree.
///
/// The store keeps at most one entry per `(attr_name, version)`: the one with
/// the greatest `timestamp`.
#[derive(Debug, Clone, PartialEq, Eq)]
pub struct PackageEntry {
    /// Attribute name (e.g. `nodejs`, `vscode-extensions.biomejs.biome`).
    pub attr_name: String,
    /// Free-form version string.
    pub version: String,
    /// Hash of the revision the fact was observed in.
    pub commit_sha: String,
    /// Content hash of the declaration file, `sha256-<base64>`, when known.
    pub nar_hash: Option<String>,
    /// Revision time, seconds since the epoch.
    pub timestamp: u64,
    /// Reserved for multi-variant support; always set today.
    pub is_primary: bool,
}

/// What the extractor finds in one declaration: an identifier and a version.
#[derive(Debug, Clone, PartialEq, Eq)]
pub struct PackageInfo {
    pub attr_name: String,
    pub version: String,
}

/// Errors of the data model.
#[derive(Debug, Clone, PartialEq, Eq)]
pub enum CoreError {
    InvalidEntry(String),
    InvalidNarHash(String),
    VersionParsing(String),
}

pub open spec fn key_of(attr_name: Seq<char>, version: Seq<char>) -> Seq<char> {
    attr_name + seq![':'] + version
}

pub open spec fn short_sha(sha: Seq<char>) -> Seq<char> {
    if sha.len() <= 8 { sha } else { sha.take(8) }
}

pub open spec fn tarball_url(sha: Seq<char>) -> Seq<char> {
    "https://github.com/NixOS/nixpkgs/archive/"@ + sha + ".tar.gz"@
}

pub open spec fn fetchtarball_text(sha: Seq<char>) -> Seq<char> {
    "fetchTarball {\n  url = \""@ + tarball_url(sha) + "\";\n}"@
}

pub open spec fn fetchtarball_pinned_text(sha: Seq<char>, nar_hash: Seq<char>) -> Seq<char> {
    "fetchTarball {\n  url = \""@ + tarball_url(sha) + "\";\n  sha256 = \""@ + nar_hash + "\";\n}"@
}

/// The fetch expression of an entry: pinned by its content hash when it
/// has one.
pub open spec fn fetch_text_of(sha: Seq<char>, nar_hash: Option<String>) -> Seq<char> {
    match nar_hash {
        Some(h) => fetchtarball_pinned_text(sha, h@),
        None => fetchtarball_text(sha),
    }
}

pub open spec fn import_text(fetch: Seq<char>, attr_name: Seq<char>) -> Seq<char> {
    "let\n  pkgs = import ("@ + fetch + ") {};\nin\n  pkgs."@ + attr_name
}

impl PackageEntry {
    /// A primary entry without a content hash.
    pub fn new(attr_name: String, version: String, commit_sha: String, timestamp: u64) -> (r: Self)
        ensures
            r.attr_name@ == attr_name@,
            r.version@ == version@,
            r.commit_sha@ == commit_sha@,
            r.nar_hash is None,
            r.timestamp == timestamp,
            r.is_primary,
    {
        PackageEntry { attr_name, version, commit_sha, nar_hash: None, timestamp, is_primary: true }
    }

    /// The same entry, carrying the content hash of its declaration file.
    pub fn with_nar_hash(self, nar_hash: String) -> (r: Self)
        ensures
            r.attr_name == self.attr_name,
            r.version == self.version,
            r.commit_sha == self.commit_sha,
            r.nar_hash == Some(nar_hash),
            r.timestamp == self.timestamp,
            r.is_primary == self.is_primary,
    {
        PackageEntry { nar_hash: Some(nar_hash), ..self }
    }

    /// Storage key `attr_name:version`.
    pub fn key(&self) -> (r: String)
        ensures
            r@ == key_of(self.attr_name@, self.version@),
    {
        let mut r = self.attr_name.clone();
        r.append(":");
        r.append(self.version.as_str());
        proof {
            reveal_strlit(":");
        }
        r
    }

    /// A `fetchTarball` expression for the revision this entry was seen in,
    /// pinned by the entry's content hash when it has one.
    pub fn to_nix_fetchtarball(&self) -> (r: String)
        ensures
            r@ == fetch_text_of(self.commit_sha@, self.nar_hash),
    {
        match &self.nar_hash {
            Some(h) => self.to_nix_fetchtarball_pinned(h.as_str()),
            None => self.to_nix_fetchtarball_unpinned(),
        }
    }

    fn to_nix_fetchtarball_unpinned(&self) -> (r: String)
        ensures
            r@ == fetchtarball_text(self.commit_sha@),
    {
        let mut r = String::from_str("fetchTarball {\n  url = \"");
        r.append("https://github.com/NixOS/nixpkgs/archive/");
        r.append(self.commit_sha.as_str());
        r.append(".tar.gz");
        r.append("\";\n}");
        assert(r@ =~= fetchtarball_text(self.commit_sha@));
        r
    }

    /// A `fetchTarball` expression that also pins the archive's content hash.
    pub fn to_nix_fetchtarball_pinned(&self, nar_hash: &str) -> (r: String)
        ensures
            r@ == fetchtarball_pinned_text(self.commit_sha@, nar_hash@),
    {
        let mut r = String::from_str("fetchTarball {\n  url = \"");
        r.append("https://github.com/NixOS/nixpkgs/archive/");
        r.append(self.commit_sha.as_str());
        r.append(".tar.gz");
        r.append("\";\n  sha256 = \"");
        r.append(nar_hash);
        r.append("\";\n}");
        assert(r@ =~= fetchtarball_pinned_text(self.commit_sha@, nar_hash@));
        r
    }

    /// A complete expression importing the package set at this entry's
    /// revision and selecting the package.
    pub fn to_nix_import(&self) -> (r: String)
        ensures
            r@ == import_text(fetch_text_of(self.commit_sha@, self.nar_hash), self.attr_name@),
    {
        let fetch = self.to_nix_fetchtarball();
        let mut r = String::from_str("let\n  pkgs = import (");
        r.append(fetch.as_str());
        r.append(") {};\nin\n  pkgs.");
        r.append(self.attr_name.as_str());
        assert(r@ =~= import_text(fetch_text_of(self.commit_sha@, self.nar_hash), self.attr_name@));
        r
    }

    /// One-line summary: `attr version @ <first 8 characters of the revision>`,
/// followed by ` (<content hash>)` when there is one.
    pub fn display_string(&self) -> (r: String)
        ensures
            r@ == self.attr_name@ + " "@ + self.version@ + " @ "@ + short_sha(self.commit_sha@)
                + match self.nar_hash { Some(h) => " ("@ + h@ + ")"@, None => Seq::empty() },
    {
        let sha = crate::text::chars_of(self.commit_sha.as_str());
        let n: usize = if sha.len() <= 8 { sha.len() } else { 8 };
        let short = crate::text::string_of(&sha.as_slice()[0..n]);
        let mut r = self.attr_name.clone();
        r.append(" ");
        r.append(self.version.as_str());
        r.append(" @ ");
        r.append(short.as_str());
        assert(sha@.subrange(0, n as int) =~= short_sha(self.commit_sha@));
        assert(r@ =~= self.attr_name@ + " "@ + self.version@ + " @ "@ + short_sha(self.commit_sha@));
        match &self.nar_hash {
            Some(h) => {
                let ghost before = r@;
                r.append(" (");
                r.append(h.as_str());
                r.append(")");
                assert(r@ =~= before + (" ("@ + h@ + ")"@));
            },
            None => {
                assert(r@ =~= r@ + Seq::<char>::empty());
            },
        }
        r
    }
}

} // verus!
