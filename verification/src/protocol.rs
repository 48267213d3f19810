//! The wire contract between callers and the dispatch worker: the closed set
//! of request variants and the closed set of success payloads.

use vstd::prelude::*;

use polodb_core::bson::Document;

use crate::error::Error;

verus! {

/// The result-selection mode for queries: the single best match, or every
/// match.
#[derive(Clone, Copy, Debug, PartialEq, Eq, Structural)]
pub enum CountSelect {
    One,
    Many,
}

/// The closed set of requests the dispatch worker understands.
pub enum PoloCommand {
    /// Stop the worker. It exits without a reply and without draining the
    /// envelopes still queued behind this one.
    Kill,
    /// Open the database backed by the file at `path` and register it under
    /// `key`.
    OpenDatabase { key: String, path: String },
    /// Close and drop the database registered under the key.
    CloseDatabase(String),
    /// List the keys of the currently open databases.
    ListDatabases,
    /// Insert the documents into the collection as one batch.
    Insert { database: String, collection: String, value: Vec<Document> },
    /// Delete one or every match of the query.
    Delete { database: String, collection: String, query: Document, count: CountSelect },
    /// Update one or every match of the query; with `upsert` set, insert a
    /// new document when nothing matches.
    Update {
        database: String,
        collection: String,
        query: Document,
        update: Document,
        count: CountSelect,
        upsert: bool,
    },
    /// Fetch one or every match of the query. The engine this crate drives
    /// exposes no result ordering, so `sort` is carried for protocol
    /// compatibility and does not change the result.
    Find {
        database: String,
        collection: String,
        query: Document,
        count: CountSelect,
        sort: Option<Document>,
    },
}

/// A success payload. Each command variant maps to exactly one shape, so a
/// caller can decode a reply without a dynamic schema.
pub enum Reply {
    /// A human-readable confirmation, for open and close.
    Message(String),
    /// The keys of the open databases.
    Keys(Vec<String>),
    /// The batch positions for which the engine assigned identifiers.
    InsertedIds(Vec<usize>),
    /// The documents a query matched.
    Documents(Vec<Document>),
    /// How many documents an operation removed, modified or created.
    Count(u64),
}

impl Reply {
    /// Returns the confirmation text, or a shape-mismatch failure.
    pub fn into_message(self) -> (r: Result<String, Error>)
        ensures
            self matches Reply::Message(m) ==> r matches Ok(s) && s == m,
            !(self is Message) ==> (r matches Err(e) && e is SerializationError),
    {
        match self {
            Reply::Message(s) => Ok(s),
            _ => Err(Error::SerializationError(String::from_str("expected a confirmation message"))),
        }
    }

    /// Returns the listed keys, or a shape-mismatch failure.
    pub fn into_keys(self) -> (r: Result<Vec<String>, Error>)
        ensures
            self matches Reply::Keys(ks) ==> r matches Ok(v) && v == ks,
            !(self is Keys) ==> (r matches Err(e) && e is SerializationError),
    {
        match self {
            Reply::Keys(ks) => Ok(ks),
            _ => Err(Error::SerializationError(String::from_str("expected a list of keys"))),
        }
    }

    /// Returns the assigned batch positions, or a shape-mismatch failure.
    pub fn into_inserted_ids(self) -> (r: Result<Vec<usize>, Error>)
        ensures
            self matches Reply::InsertedIds(ids) ==> r matches Ok(v) && v == ids,
            !(self is InsertedIds) ==> (r matches Err(e) && e is SerializationError),
    {
        match self {
            Reply::InsertedIds(ids) => Ok(ids),
            _ => Err(Error::SerializationError(String::from_str("expected inserted identifiers"))),
        }
    }

    /// Returns the matched documents, or a shape-mismatch failure.
    pub fn into_documents(self) -> (r: Result<Vec<Document>, Error>)
        ensures
            self matches Reply::Documents(ds) ==> r matches Ok(v) && v == ds,
            !(self is Documents) ==> (r matches Err(e) && e is SerializationError),
    {
        match self {
            Reply::Documents(ds) => Ok(ds),
            _ => Err(Error::SerializationError(String::from_str("expected documents"))),
        }
    }

    /// Returns the operation count, or a shape-mismatch failure.
    pub fn into_count(self) -> (r: Result<u64, Error>)
        ensures
            self matches Reply::Count(n) ==> r == Ok::<u64, Error>(n),
            !(self is Count) ==> (r matches Err(e) && e is SerializationError),
    {
        match self {
            Reply::Count(n) => Ok(n),
            _ => Err(Error::SerializationError(String::from_str("expected a count"))),
        }
    }
}

} // verus!
