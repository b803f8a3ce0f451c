//! Ingestion core for public-transport datasets delivered as a set of named
//! tabular files, either loose in a directory or packed in an archive.
//!
//! The crate offers a uniform file source over both layouts, a typed record
//! reader with strict and lossy row policies, identifier-indexed collections
//! that reject duplicate identifiers, a namespacing capability that rewrites
//! every identifier with a caller-chosen prefix, and a small classification of
//! transport modes with a total priority order.

use vstd::prelude::*;

pub mod add_prefix;
pub mod collection;
pub mod model;
pub mod modes;
pub mod read_utils;
pub mod strings;

verus! {

/// Errors surfaced by the ingestion core. Each variant carries enough context
/// (display path, underlying message, or offending identifier) to locate the
/// bad input.
#[derive(Debug)]
pub enum Error {
    /// A required file is absent from the dataset root; holds its display path.
    MissingFile(String),
    /// The archive backing could not be opened; holds the underlying message.
    InvalidArchive(String),
    /// An archive entry could not be read; holds the underlying message.
    EntryUnreadable(String),
    /// A row of a tabular file could not be decoded or converted during a
    /// strict read; holds the display path and the underlying message.
    MalformedRow { path: String, detail: String },
    /// Two records of one collection share an identifier; holds that identifier.
    DuplicateId(String),
}

} // verus!
