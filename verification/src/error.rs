//! Error reporting for modem construction and operation.
//!
//! Sample production itself has no failure mode: a drained engine signals
//! clean exhaustion through `Option`, not an error. The variants here cover
//! construction-time configuration violations and the life cycle of a
//! device-backed modem.

use vstd::prelude::*;

verus! {

/// The result type used by fallible modem operations.
pub type ModemResult<T> = Result<T, ModemError>;

/// An error raised while building or driving a modem.
#[derive(Debug, PartialEq, Eq)]
pub enum ModemError {
    /// A backing modem instance could not be created.
    CreationError,
    /// A backing modem instance could not be torn down.
    DestructionError(String),
    /// A configuration value violates a construction-time invariant.
    InvalidParameter(String),
    /// An operation on an otherwise healthy modem failed.
    OperationFailed(String),
}

} // verus!
