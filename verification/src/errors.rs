//! The error taxonomy of the record-keeping core.

use vstd::prelude::*;

verus! {

/// Every failure of the core is reported as one of these typed results;
/// nothing is retried or recovered internally, and a failing operation
/// leaves no partial mutation behind.
#[derive(Clone, Copy, Debug, PartialEq, Eq, Structural)]
pub enum TodoError {
    /// `initialize_user` found a profile already stored for the owner.
    AlreadyInitialized,
    /// `add_todo` found no profile stored for the owner.
    ProfileNotFound,
    /// `mark_todo` or `remove_todo` found no task record at the derived address.
    NotFound,
    /// A record's owner does not match the caller.
    Forbidden,
    /// `mark_todo` found the task already completed.
    AlreadyCompleted,
    /// `add_todo` found the derived address unexpectedly occupied:
    /// a consistency-violation signal, unreachable under the store invariant.
    AlreadyExists,
    /// A sequence counter would wrap past its maximum:
    /// a deliberate hard failure, since silent wraparound would corrupt
    /// address derivation for all future tasks.
    CounterOverflow,
    /// `task_count` would drop below zero:
    /// a consistency-violation signal, unreachable under the store invariant.
    CounterUnderflow,
    /// The derivation space for an address is exhausted.
    DerivationExhausted,
}

} // verus!
