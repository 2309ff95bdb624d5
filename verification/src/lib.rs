//! Citation records for Cargo packages and their dependencies.
//!
//! The library reads a package manifest, classifies its dependencies and
//! renders BibTeX records; it also holds the decisions of a run: where
//! manifests are looked for, what is done for each, and what is reported.
//! Every function carries a contract that Verus proves. Calls into `toml`
//! and `chrono` stand behind a few trusted items, in `document` and `clock`.
//!
//! - `text`, `ordering`, `joining`: strings, their order, and joined lists
//! - `model`: the manifest, its dependencies, the registry's answer
//! - `document`, `parse`: reading a manifest out of its TOML text
//! - `clock`, `citation`: the records
//! - `registry`: how the registry is asked
//! - `locate`: which entries of a directory walk are manifests
//! - `run`: the decisions of a run

pub mod citation;
pub mod clock;
pub mod document;
pub mod joining;
pub mod locate;
pub mod model;
pub mod ordering;
pub mod parse;
pub mod registry;
pub mod run;
pub mod text;
