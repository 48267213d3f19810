//! Trusted boundary to the storage engine.
//!
//! Everything the library knows about the engine is stated here: the opaque
//! engine types, and one wrapper per engine call the dispatch core makes.
//! The wrappers convert between engine values and plain values; nothing else
//! in the crate touches the engine directly.

use vstd::prelude::*;

use polodb_core::bson::Bson;
use polodb_core::bson::Document;
use polodb_core::Collection;
use polodb_core::Database;
use polodb_core::Error as EngineError;

verus! {

#[verifier::external_type_specification]
#[verifier::external_body]
pub struct ExDatabase(Database);

#[verifier::external_type_specification]
#[verifier::external_body]
#[verifier::reject_recursive_types(T)]
pub struct ExCollection<T>(Collection<T>);

#[verifier::external_type_specification]
#[verifier::external_body]
pub struct ExDocument(Document);

#[verifier::external_type_specification]
#[verifier::external_body]
pub struct ExBson(Bson);

#[verifier::external_type_specification]
#[verifier::external_body]
pub struct ExEngineError(EngineError);

/// Relies on polodb_core::Database::open_file: opens (creating it if absent)
/// the database backed by the file at `path`. Whether it succeeds depends on
/// the machine's disk, so nothing is promised of the outcome.
#[verifier::external_body]
pub(crate) fn db_open(path: &String) -> Result<Database, EngineError> {
    Database::open_file(path.as_str())
}

/// Relies on polodb_core::Database::collection: resolves a handle to the
/// named collection; the engine creates the collection lazily, so the call
/// itself cannot fail.
#[verifier::external_body]
pub(crate) fn db_collection(db: &Database, name: &String) -> Collection<Document> {
    db.collection::<Document>(name.as_str())
}

/// Relies on polodb_core::Database::list_collection_names.
#[verifier::external_body]
pub(crate) fn db_collection_names(db: &Database) -> Result<Vec<String>, EngineError> {
    db.list_collection_names()
}

/// Relies on the Display impl of polodb_core::Error: renders the engine's
/// error as text.
#[verifier::external_body]
pub(crate) fn error_text(e: &EngineError) -> String {
    format!("{}", e)
}

/// Relies on polodb_core::Collection::insert_many: inserts the whole batch in
/// one transaction. On success the engine has assigned one identifier per
/// document and records it under the document's position in the batch, so the
/// positions handed back are exactly the batch's indices, in no fixed order;
/// on failure the transaction is rolled back and nothing was inserted.
#[verifier::external_body]
pub(crate) fn coll_insert_many(c: &Collection<Document>, docs: &Vec<Document>) -> (r: Result<
    Vec<usize>,
    EngineError,
>)
    ensures
        r matches Ok(ids) ==> {
            &&& ids@.len() == docs@.len()
            &&& forall|i: int| 0 <= i < ids@.len() ==> (#[trigger] ids@[i] as int) < docs@.len()
            &&& forall|i: int, j: int| 0 <= i < j < ids@.len() ==> ids@[i] != ids@[j]
        },
{
    match c.insert_many(docs.iter()) {
        Ok(res) => Ok(res.inserted_ids.keys().cloned().collect()),
        Err(e) => Err(e),
    }
}

/// Relies on polodb_core::Collection::insert_one: inserts the document, or
/// rolls back and reports the engine's error.
#[verifier::external_body]
pub(crate) fn coll_insert_one(c: &Collection<Document>, doc: &Document) -> Result<
    (),
    EngineError,
> {
    match c.insert_one(doc) {
        Ok(_) => Ok(()),
        Err(e) => Err(e),
    }
}

/// Relies on polodb_core::Collection::find and on iterating the returned
/// cursor: collects every row the engine yields for the query. A cursor
/// advance that fails yields an error row, which is dropped; at this engine
/// version a row whose decoding fails panics inside the cursor itself.
#[verifier::external_body]
pub(crate) fn coll_find_many(c: &Collection<Document>, query: &Document) -> Result<
    Vec<Document>,
    EngineError,
> {
    match c.find(query.clone()) {
        Ok(cursor) => Ok(cursor.filter_map(|row| row.ok()).collect()),
        Err(e) => Err(e),
    }
}

/// Relies on polodb_core::Collection::find_one: hands back the first match of
/// the query, or None when nothing matches.
#[verifier::external_body]
pub(crate) fn coll_find_one(c: &Collection<Document>, query: &Document) -> Result<
    Option<Document>,
    EngineError,
> {
    c.find_one(query.clone())
}

/// Relies on polodb_core::Collection::delete_one: deletes at most one match
/// of the query and counts what it removed.
#[verifier::external_body]
pub(crate) fn coll_delete_one(c: &Collection<Document>, query: &Document) -> (r: Result<
    u64,
    EngineError,
>)
    ensures
        r matches Ok(n) ==> n <= 1,
{
    match c.delete_one(query.clone()) {
        Ok(res) => Ok(res.deleted_count),
        Err(e) => Err(e),
    }
}

/// Relies on polodb_core::Collection::delete_many: deletes every match of the
/// query and counts what it removed.
#[verifier::external_body]
pub(crate) fn coll_delete_many(c: &Collection<Document>, query: &Document) -> Result<
    u64,
    EngineError,
> {
    match c.delete_many(query.clone()) {
        Ok(res) => Ok(res.deleted_count),
        Err(e) => Err(e),
    }
}

/// Relies on polodb_core::Collection::update_one: updates at most one match
/// of the query and counts what it modified.
#[verifier::external_body]
pub(crate) fn coll_update_one(
    c: &Collection<Document>,
    query: &Document,
    update: &Document,
) -> (r: Result<u64, EngineError>)
    ensures
        r matches Ok(n) ==> n <= 1,
{
    match c.update_one(query.clone(), update.clone()) {
        Ok(res) => Ok(res.modified_count),
        Err(e) => Err(e),
    }
}

/// Relies on polodb_core::Collection::update_many: updates every match of the
/// query and counts what it modified.
#[verifier::external_body]
pub(crate) fn coll_update_many(
    c: &Collection<Document>,
    query: &Document,
    update: &Document,
) -> Result<u64, EngineError> {
    match c.update_many(query.clone(), update.clone()) {
        Ok(res) => Ok(res.modified_count),
        Err(e) => Err(e),
    }
}

/// The entries a document holds: a map from field name to value. A
/// document's entries are a function of the value alone.
pub uninterp spec fn doc_entries(d: Document) -> Map<Seq<char>, Bson>;

/// The entry map of a document with nothing in it.
pub open spec fn no_entries() -> Map<Seq<char>, Bson> {
    Map::empty()
}

/// The document a bson value holds, when it is one. Which it is, and what it
/// holds, are functions of the value alone.
pub uninterp spec fn bson_doc(b: Bson) -> Option<Document>;

/// Relies on bson::Document::new: makes a document with no entries.
#[verifier::external_body]
pub(crate) fn doc_new() -> (fresh: Document)
    ensures
        doc_entries(fresh) == no_entries(),
{
    Document::new()
}

/// Relies on bson::Document::iter: hands the document's entries out as owned
/// key/value pairs, in the document's order. A document is an ordered map,
/// so the pairs are exactly its entries and their keys are distinct.
#[verifier::external_body]
pub(crate) fn doc_pairs(d: &Document) -> (pairs: Vec<(String, Bson)>)
    ensures
        forall|i: int|
            0 <= i < pairs@.len() ==> #[trigger] doc_entries(*d).contains_pair(
                pairs@[i].0@,
                pairs@[i].1,
            ),
        forall|i: int, j: int| 0 <= i < j < pairs@.len() ==> pairs@[i].0@ != pairs@[j].0@,
        forall|k: Seq<char>|
            #[trigger] doc_entries(*d).dom().contains(k) ==> exists|i: int|
                0 <= i < pairs@.len() && pairs@[i].0@ == k,
{
    d.iter().map(|(k, v)| (k.clone(), v.clone())).collect()
}

/// Relies on bson::Document::get: the value stored under the key, if any.
#[verifier::external_body]
pub(crate) fn doc_get<'a>(d: &'a Document, key: &String) -> (r: Option<&'a Bson>)
    ensures
        r matches Some(b) ==> doc_entries(*d).contains_pair(key@, *b),
        r is None ==> !doc_entries(*d).dom().contains(key@),
{
    d.get(key.as_str())
}

/// Relies on bson::Document::insert: sets the value stored under `key`,
/// replacing any previous entry.
#[verifier::external_body]
pub(crate) fn doc_set(d: &mut Document, key: &String, value: &Bson)
    ensures
        doc_entries(*final(d)) == doc_entries(*old(d)).insert(key@, *value),
{
    d.insert(key.clone(), value.clone());
}

/// Relies on bson::Bson::as_document: exposes the value as a document when it
/// is one.
#[verifier::external_body]
pub(crate) fn bson_as_document(b: &Bson) -> (r: Option<&Document>)
    ensures
        r matches Some(d) ==> bson_doc(*b) == Some(*d),
        r is None ==> bson_doc(*b) is None,
{
    b.as_document()
}

} // verus!
