use vstd::prelude::*;

verus! {

/// The error taxonomy of the persistence layer.
///
/// A missing row is never an error: single-row lookups return an absent
/// result and key-value gets fall back to the caller's default.
#[derive(Clone, Debug, PartialEq, Eq)]
pub enum DbError {
    /// Primary-key or uniqueness conflict on `create`.
    ConstraintViolation,
    /// A dynamic field name outside the closed allow-list of real columns.
    MalformedQuery,
    /// The shared handle's lock could not be acquired for this call.
    InternalLockError,
    /// A lower-level storage-engine failure, surfaced verbatim.
    StorageEngine(String),
}

impl DbError {
    /// A short text for callers that log or display errors.
    pub fn message(&self) -> String {
        match self {
            DbError::ConstraintViolation => "constraint violation".to_string(),
            DbError::MalformedQuery => "malformed query".to_string(),
            DbError::InternalLockError => "internal lock error".to_string(),
            DbError::StorageEngine(s) => s.clone(),
        }
    }
}

} // verus!
