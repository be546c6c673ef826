//! Typed errors of the store.
//!
//! Every fallible operation returns one of these; nothing is signalled
//! through sentinel values. `Conflict` is kept apart from `EngineFailure`
//! because a conflict is expected and retryable by design (the caller may
//! begin a fresh transaction and try again); an engine failure is not.

use vstd::prelude::*;

verus! {

/// Failure of an operation on an open database or a transaction.
#[derive(Debug)]
pub enum Error {
    /// The base engine rejected the operation.
    EngineFailure(String),
    /// The named column family is not registered.
    UnknownColumnFamily(String),
    /// The handle's column family has been dropped.
    StaleColumnFamilyHandle,
    /// The transaction has already committed or rolled back.
    TransactionTerminated,
    /// `rollback_to_savepoint` with no savepoint set.
    NoSavepoint,
}

/// Failure to open a database.
#[derive(Debug)]
pub enum OpenError {
    /// The base engine failed to initialize.
    EngineFailure(String),
    /// The engine returned no handle for a requested column family.
    MissingColumnFamilyHandle,
}

/// Failure to commit a transaction.
#[derive(Debug)]
pub enum CommitError {
    /// A key this transaction read or wrote was modified by a commit
    /// later than its read point; nothing was applied.
    Conflict,
    /// The base engine rejected the batch; nothing was applied.
    EngineFailure(String),
    /// The transaction has already committed or rolled back.
    TransactionTerminated,
}

} // verus!
