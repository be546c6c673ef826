//! An embedded, ordered key-value store with optimistic-concurrency
//! transactions, point-in-time snapshots, nested savepoints, and named
//! column families, layered above an in-memory ordered base engine.
//!
//! Writes accumulate in a transaction's private overlay until `commit`
//! moves them atomically into the base engine; `rollback` discards them.
//! Snapshots pin a sequence number and observe exactly the commits up to
//! that point. Conflict detection is performed at commit time against the
//! keys the transaction read or wrote.

pub mod bytes;
pub mod model;
pub mod kvstore;
pub mod engine;
pub mod errors;
pub mod options;
pub mod registry;
pub mod iter;
pub mod txn;
pub mod db;
pub mod snapshot;
pub mod laws;

pub use bytes::compare_bytes;
pub use bytes::KeyOrdering;
pub use db::OptimisticTransactionDB;
pub use errors::CommitError;
pub use errors::Error;
pub use errors::OpenError;
pub use iter::DBIterator;
pub use iter::DBRawIterator;
pub use options::Direction;
pub use options::IteratorMode;
pub use options::Options;
pub use options::OptimisticTransactionOptions;
pub use options::WriteOptions;
pub use registry::ColumnFamily;
pub use snapshot::Snapshot;
pub use txn::Transaction;
pub use txn::TxnStatus;
