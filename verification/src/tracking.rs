//! Session-scoped topology tracking and deterministic operation lineage.
//!
//! A [`TrackingSession`](session::TrackingSession) allocates runtime topology
//! identities and binds them to stable semantic references. Advancing the
//! generation starts a replay with the same deterministic serial sequence
//! while making prior [`TrackingId`](model::TrackingId) values stale.

pub mod error;
pub mod laws;
pub mod model;
pub mod session;

use vstd::prelude::*;

use crate::tracking::error::TrackingError;

verus! {

/// Result type for topology tracking operations.
pub type TrackingResult<T> = Result<T, TrackingError>;

} // verus!
