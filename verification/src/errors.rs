//! The error taxonomy of the pipeline and its fixed mapping to response
//! status codes.

use vstd::prelude::*;

verus! {

/// Domain errors surfaced by handlers and by the resource handle.
///
/// `Configuration` covers a handler finding no injected resource entry;
/// `ProtocolViolation` covers lifecycle-ordering mistakes such as closing the
/// handle while a request is in flight; `ResourceUnavailable` covers a closed
/// or busy backend connection.
#[derive(PartialEq, Eq, Structural, Clone, Copy, Debug)]
pub enum DomainError {
    Configuration,
    ProtocolViolation,
    ResourceUnavailable,
    Validation,
    NotFound,
}

/// The fixed table translating a domain error kind to a status code:
/// validation errors are client errors, a missing entity is not found, and
/// everything else is internal.
pub open spec fn spec_error_status(e: DomainError) -> u16 {
    match e {
        DomainError::Validation => 400,
        DomainError::NotFound => 404,
        DomainError::Configuration => 500,
        DomainError::ProtocolViolation => 500,
        DomainError::ResourceUnavailable => 500,
    }
}

/// Translates a domain error kind to its response status code.
pub fn error_status(e: &DomainError) -> (s: u16)
    ensures
        s == spec_error_status(*e),
{
    match e {
        DomainError::Validation => 400,
        DomainError::NotFound => 404,
        DomainError::Configuration => 500,
        DomainError::ProtocolViolation => 500,
        DomainError::ResourceUnavailable => 500,
    }
}

} // verus!
