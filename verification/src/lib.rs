//! Update synchronization engine for a downstream package definition.
//!
//! The library keeps a downstream package's metadata files in step with an
//! upstream release: it extracts checksums from the upstream manifest,
//! normalizes and compares version strings, plans an ordered list of text
//! substitutions for each metadata file, applies them in memory, and decides
//! the per-package outcome. All network, filesystem and repository work is
//! left to the surrounding program, which hands the engine plain values.

pub mod apply;
pub mod bun_bin;
pub mod checksum;
pub mod decode;
pub mod plan;
pub mod sync;
pub mod version;

use vstd::prelude::*;

verus! {

/// The failure kinds of the engine, one per component-level failure class;
/// the kinds that concern one field, label or pattern carry its name, so a
/// report can say what the failure relates to.
#[derive(Clone, Debug, PartialEq, Eq)]
pub enum Error {
    /// A network request failed or returned a non-success status.
    FetchError,
    /// An upstream payload was structurally invalid (a required field absent).
    ParseError,
    /// The named asset, label or checksum was absent.
    NotFound(String),
    /// A patch plan could not be built: the named field's value was absent
    /// or malformed.
    MissingField(String),
    /// The substitution opened by the named field text matched nothing in
    /// its file.
    PatternError(String),
    /// A filesystem read or write failed.
    IoError,
    /// Cloning, committing or pushing the repository failed.
    VcsError,
}

} // verus!
