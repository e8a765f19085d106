//! The failure taxonomy that every repository operation surfaces.

use vstd::prelude::*;

verus! {

/// Why a store operation failed.
#[derive(Clone, Copy, PartialEq, Eq, Structural, Debug)]
pub enum DbError {
    /// A lookup by identifier found no matching row.
    NotFound,
    /// A write violates a range, enumeration or foreign-key rule.
    ConstraintViolation,
    /// A stored value violates an application-level invariant that the
    /// storage engine does not enforce, such as an unrecognised session-type
    /// string read back from storage.
    DataCorruption,
    /// The exclusive-access primitive over the shared handle could not be
    /// acquired.  The verified lock used here never fails to acquire, so the
    /// core itself never produces this; it stays in the taxonomy for
    /// collaborators that guard the handle with a poisonable primitive.
    AccessUnavailable,
    /// Any other failure of the underlying engine, such as an exhausted
    /// identifier space or a value that no longer fits its column type.
    StorageFailure,
}

} // verus!
