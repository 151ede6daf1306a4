//! The failures that the registry's operations can report.

use vstd::prelude::*;

verus! {

/// Why a creation or completion request was rejected.
///
/// Every failure aborts the whole operation: the registry is left exactly as
/// it was, and the caller sees the specific kind below.
#[derive(Clone, Copy, Debug, PartialEq, Eq, Structural)]
pub enum MigrationError {
    /// Creation targeted an address that already holds a record.
    DuplicateRecord,
    /// The signer is not the record's stored owner, or the presented address
    /// does not re-derive from the record's own stored fields.
    AuthorizationFailure,
    /// Completion targeted an address at which no record exists.
    RecordNotFound,
    /// The payer cannot cover the cost of the record's storage allocation.
    InsufficientFunds,
}

} // verus!
