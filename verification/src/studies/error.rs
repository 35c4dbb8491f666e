//! The error taxonomy of the studies service.

use vstd::prelude::*;

verus! {

/// Failure of a studies-service operation. Carried details are reduced to
/// plain text so that no backend internals travel with them.
#[derive(Debug)]
pub enum StudiesServiceError {
    /// The relational store failed.
    DatabaseFailure(String),
    /// Structured metadata could not be serialized.
    DicomJsonError(String),
    /// An image could not be rendered.
    DicomRenderError(String),
    /// A stored object's bytes could not be read.
    FileReadFailure(String),
    /// The requested entity does not exist.
    NotFound,
    /// An unexpected failure.
    Other(String),
}

} // verus!
