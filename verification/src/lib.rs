//! Aggregates release notes for a software project.
//!
//! The library holds the verified logic of the tool: deciding which commits
//! contribute a note, scraping the note text out of a change request's
//! description, paginating the commit range, and merging per-page fragments
//! into the final output in page order. Network fetches and file writing are
//! left to the surrounding binary, which hands the library plain values.

use vstd::prelude::*;

pub mod extract;
pub mod format;
pub mod json;
pub mod merge;
pub mod pages;
pub mod text;

verus! {

/// The error taxonomy of a run. Every failure is fatal: there is no retry and
/// no partial output.
#[derive(Clone, Copy, Debug, PartialEq, Eq, Structural)]
pub enum Error {
    /// Network or connection failure during a fetch.
    Transport,
    /// A response body was not valid UTF-8 text.
    Encoding,
    /// A response body did not parse as structured data, or an expected field
    /// was absent or had the wrong type.
    Format,
    /// A commit was linked to more than one change request.
    AmbiguousLink,
}

} // verus!
