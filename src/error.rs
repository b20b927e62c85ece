//! The library's error type.
use vstd::prelude::*;

verus! {

/// Errors reported by the store, the crawl orchestration and the sitemap reader.
#[derive(Debug, PartialEq, Eq)]
pub enum PalimpError {
    /// An id that names no row.
    NotFound,
    /// A record that cannot be stored as it is (a page without a crawl).
    Validation,
    /// A reference to a row that does not exist, or the id space is exhausted.
    Storage,
    /// A malformed sitemap document, with its reason.
    Parse(String),
}

impl PalimpError {
    /// A human-readable description of the error.
    pub fn message(&self) -> (r: String) {
        match self {
            PalimpError::NotFound => "no row with that id".to_owned(),
            PalimpError::Validation => "record failed validation".to_owned(),
            PalimpError::Storage => "storage constraint violated".to_owned(),
            PalimpError::Parse(m) => m.clone(),
        }
    }
}

} // verus!
