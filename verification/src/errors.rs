//! The error kinds a CRUD operation can surface, and the HTTP status each
//! one maps to at the API surface. Client-side validation failures are a
//! separate notion (see the validation module) and never reach this layer.

use vstd::prelude::*;

verus! {

/// What went wrong with a store operation.
#[derive(PartialEq, Eq, Structural, Clone, Copy, Debug)]
pub enum StoreError {
    /// A read, update or delete referenced an unknown identifier.
    NotFound,
    /// The request was malformed: here, a create carrying an identifier.
    InvalidArgument,
    /// The backing store could not be reached.
    StoreUnavailable,
}

/// The HTTP status the API surface answers with for each error kind.
pub open spec fn spec_http_status(e: StoreError) -> u16 {
    match e {
        StoreError::NotFound => 404,
        StoreError::InvalidArgument => 400,
        StoreError::StoreUnavailable => 503,
    }
}

/// Maps an error kind to its HTTP status: never a success status.
pub fn http_status(e: StoreError) -> (s: u16)
    ensures
        s == spec_http_status(e),
        s >= 400,
{
    match e {
        StoreError::NotFound => 404,
        StoreError::InvalidArgument => 400,
        StoreError::StoreUnavailable => 503,
    }
}

/// Distinct error kinds answer with distinct HTTP statuses, so a caller can
/// always tell them apart; no error ever maps to a success status.
pub proof fn lemma_http_status_distinct(a: StoreError, b: StoreError)
    ensures
        a != b ==> spec_http_status(a) != spec_http_status(b),
        spec_http_status(a) >= 400,
{
}

} // verus!
