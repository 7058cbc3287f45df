//! An in-memory user resource behind a small HTTP-style interface: a store
//! mapping string identifiers to user records, the handler logic for each
//! route, route matching, and port-configuration parsing.

use vstd::prelude::*;

pub mod config;
pub mod handlers;
pub mod router;
pub mod store;
pub mod text;

verus! {

/// The error taxonomy of the service: a requested identifier was absent, or
/// the request input was missing or malformed.
#[derive(Clone, Copy, Debug, PartialEq, Eq, Structural)]
pub enum ApiError {
    NotFound,
    BadRequest,
}

} // verus!
