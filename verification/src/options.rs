//! Option records and iterator start modes.

use vstd::prelude::*;

verus! {

/// Database options.
pub struct Options {
    pub create_missing: bool,
}

impl Options {
    /// Whether opening a path with no existing database creates one.
    pub fn create_if_missing(&mut self, create: bool)
        ensures
            final(self).create_missing == create,
    {
        self.create_missing = create;
    }
}

impl Default for Options {
    fn default() -> (r: Options)
        ensures
            !r.create_missing,
    {
        Options { create_missing: false }
    }
}

/// Write options of a transaction or an autocommit write.
pub struct WriteOptions {
    pub sync: bool,
}

impl WriteOptions {
    /// Whether writes request a durable sync from the engine.
    pub fn set_sync(&mut self, sync: bool)
        ensures
            final(self).sync == sync,
    {
        self.sync = sync;
    }
}

impl Default for WriteOptions {
    fn default() -> (r: WriteOptions)
        ensures
            !r.sync,
    {
        WriteOptions { sync: false }
    }
}

/// Options a transaction is begun with.
pub struct OptimisticTransactionOptions {
    pub snapshot: bool,
}

impl OptimisticTransactionOptions {
    /// Whether the transaction pins a consistent read snapshot at creation.
    pub fn set_snapshot(&mut self, snapshot: bool)
        ensures
            final(self).snapshot == snapshot,
    {
        self.snapshot = snapshot;
    }
}

impl Default for OptimisticTransactionOptions {
    fn default() -> (r: OptimisticTransactionOptions)
        ensures
            !r.snapshot,
    {
        OptimisticTransactionOptions { snapshot: false }
    }
}

/// Traversal direction of an iterator.
#[derive(PartialEq, Eq, Structural, Clone, Copy, Debug)]
pub enum Direction {
    Forward,
    Reverse,
}

/// Where an iterator starts and which way it runs.
pub enum IteratorMode<'a> {
    /// At the first entry, running forward.
    Start,
    /// At the last entry, running backward.
    End,
    /// At the given key (or the nearest entry in the direction of travel),
    /// running in the given direction.
    From(&'a [u8], Direction),
}

} // verus!
