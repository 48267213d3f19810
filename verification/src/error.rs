use vstd::prelude::*;

verus! {

/// Typed failures relayed to callers of the daemon.
///
/// Every command produces either a success payload or one of these variants;
/// a failing command never stops the dispatch loop.
#[derive(Clone, Debug)]
pub enum Error {
    /// A synchronisation primitive failed; the payload names the site.
    Sync(String),
    /// Nothing was found: no database is open under the given key, or no
    /// document matched a single-result query.
    UnknownDatabase(String),
    /// Opening the backing file failed.
    Io(String),
    /// A database is already open under the given key.
    ExistingDatabase(String),
    /// The storage engine failed while running a query.
    DatabaseError(String),
    /// The dispatch machinery itself failed (queue breakdown, unknown request).
    DaemonError(String),
    /// A reply payload did not have the shape the caller expected.
    SerializationError(String),
    /// The storage engine rejected a batch insert; no identifiers were assigned.
    InsertError(String),
}

} // verus!
