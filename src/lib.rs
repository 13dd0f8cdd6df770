//! Historical package-version index: version ordering, declaration-file
//! extraction, deduplicating fact rules and the commit-walk plan.

pub mod text;
pub mod validate;
pub mod entry;
pub mod version_key;
pub mod store;
pub mod syntax;
pub mod extract;
pub mod nix_read;
pub mod fallback;
pub mod parsers;
pub mod walker;
pub mod formatting;
pub mod stats;
pub mod nar;
pub mod pins;
pub mod output;
pub mod filter;
pub mod manifest;
