//! The registry of open databases: the only code path that opens, closes and
//! enumerates storage-engine handles.
//!
//! The registry is modelled by the sequence of the keys of its entries,
//! [`PoloDaemon::keys`]; its invariant, [`PoloDaemon::wf`], is that those
//! keys are pairwise distinct.

use vstd::prelude::*;

use polodb_core::bson::Document;
use polodb_core::Collection;
use polodb_core::Database;

use crate::engine;
use crate::error::Error;

verus! {

/// The serializable description of an open database: its logical key and the
/// path of its backing file.
#[derive(Clone, Debug)]
pub struct SerializedDatabase {
    pub key: String,
    pub file: String,
}

/// An open database: its logical key, the engine connection, and the path of
/// the backing file it was opened from.
pub struct PoloDatabase {
    pub key: String,
    pub database: Database,
    pub file: String,
}

impl PoloDatabase {
    /// Opens the database a [`SerializedDatabase`] describes.
    pub fn deserialize(serialized: SerializedDatabase) -> (r: Result<Self, Error>)
        ensures
            r matches Ok(d) ==> d.key@ == serialized.key@ && d.file@ == serialized.file@,
            r matches Err(e) ==> e is Io,
    {
        match engine::db_open(&serialized.file) {
            Ok(db) => Ok(
                PoloDatabase { key: serialized.key, database: db, file: serialized.file },
            ),
            Err(e) => {
                let mut msg = String::from_str("Failed to open ");
                msg.append(serialized.file.as_str());
                msg.append(": ");
                msg.append(engine::error_text(&e).as_str());
                Err(Error::Io(msg))
            },
        }
    }

    /// Describes this handle so that it can be reopened later.
    pub fn serialize(&self) -> (r: SerializedDatabase)
        ensures
            r.key@ == self.key@,
            r.file@ == self.file@,
    {
        SerializedDatabase { key: self.key.clone(), file: self.file.clone() }
    }

    /// Resolves a handle to the named collection of this database.
    pub fn collection(&self, name: &String) -> Collection<Document> {
        engine::db_collection(&self.database, name)
    }

    /// Lists the names of the collections of this database.
    pub fn collections(&self) -> (r: Result<Vec<String>, Error>)
        ensures
            r matches Err(e) ==> e matches Error::DatabaseError(m) && m@
                == "Failed to list collections"@,
    {
        match engine::db_collection_names(&self.database) {
            Ok(names) => Ok(names),
            Err(_) => Err(Error::DatabaseError(String::from_str("Failed to list collections"))),
        }
    }
}

/// The mapping from logical key to open database handle. Only the dispatch
/// worker ever holds one, so no locking is needed around it.
pub struct PoloDaemon {
    pub databases: Vec<PoloDatabase>,
}

impl PoloDaemon {
    /// The keys of the open databases, in the order they were opened.
    pub open spec fn keys(self) -> Seq<Seq<char>> {
        Seq::new(self.databases@.len(), |i: int| self.databases@[i].key@)
    }

    /// The registry's invariant: keys are pairwise distinct.
    pub open spec fn wf(self) -> bool {
        forall|i: int, j: int|
            0 <= i < j < self.databases@.len()
                ==> self.databases@[i].key@ != self.databases@[j].key@
    }

    /// Whether some database is open under the key.
    pub open spec fn has_key(self, k: Seq<char>) -> bool {
        exists|i: int| 0 <= i < self.databases@.len() && self.databases@[i].key@ == k
    }

    /// The position of the entry open under the key.
    pub open spec fn key_index(self, k: Seq<char>) -> int {
        choose|i: int| 0 <= i < self.databases@.len() && self.databases@[i].key@ == k
    }

    /// An empty registry.
    pub fn new() -> (r: Self)
        ensures
            r.wf(),
            r.databases@.len() == 0,
    {
        PoloDaemon { databases: Vec::new() }
    }

    /// The position of the entry whose key equals `key`, if any.
    fn index_of(&self, key: &String) -> (r: Option<usize>)
        ensures
            r matches Some(i) ==> i < self.databases@.len() && self.databases@[i as int].key@
                == key@,
            r is None ==> !self.has_key(key@),
    {
        let n: usize = self.databases.len();
        let mut i: usize = 0;
        while i < n
            invariant
                i <= n,
                n == self.databases@.len(),
                forall|j: int| 0 <= j < i ==> self.databases@[j].key@ != key@,
            decreases n - i,
        {
            let entry = &self.databases[i];
            if entry.key == *key {
                return Some(i);
            }
            i = i + 1;
        }
        None
    }

    /// Borrows the handle open under the key, or reports that the key is
    /// unknown.
    pub fn get(&self, key: &String) -> (r: Result<&PoloDatabase, Error>)
        ensures
            self.has_key(key@) ==> (r matches Ok(d) && d.key@ == key@ && (exists|i: int|
                0 <= i < self.databases@.len() && self.databases@[i] == *d)),
            !self.has_key(key@) ==> (r matches Err(e) && e matches Error::UnknownDatabase(k) && k@
                == key@),
    {
        match self.index_of(key) {
            Some(i) => Ok(&self.databases[i]),
            None => Err(Error::UnknownDatabase(key.clone())),
        }
    }

    /// Opens the database backed by `path` and registers it under `key`.
    ///
    /// A colliding key is rejected without touching the registry or the disk;
    /// a failure of the engine's open leaves the registry unchanged.
    pub fn open(&mut self, key: &String, path: &String) -> (r: Result<(), Error>)
        requires
            old(self).wf(),
        ensures
            final(self).wf(),
            old(self).has_key(key@) ==> ((r matches Err(e) && e matches Error::ExistingDatabase(k)
                && k@ == key@) && *final(self) == *old(self)),
            !old(self).has_key(key@) ==> match r {
                Ok(_) => {
                    &&& final(self).databases@.len() == old(self).databases@.len() + 1
                    &&& final(self).databases@.subrange(0, old(self).databases@.len() as int)
                        =~= old(self).databases@
                    &&& final(self).keys() =~= old(self).keys().push(key@)
                    &&& final(self).databases@.last().key@ == key@
                    &&& final(self).databases@.last().file@ == path@
                    &&& final(self).has_key(key@)
                },
                Err(e) => e is Io && *final(self) == *old(self),
            },
    {
        match self.index_of(key) {
            Some(_) => Err(Error::ExistingDatabase(key.clone())),
            None => {
                match engine::db_open(path) {
                    Ok(db) => {
                        let ghost before = self.databases@;
                        self.databases.push(
                            PoloDatabase { key: key.clone(), database: db, file: path.clone() },
                        );
                        proof {
                            assert forall|i: int, j: int|
                                0 <= i < j < self.databases@.len() implies self.databases@[i].key@
                                != self.databases@[j].key@ by {
                                if j < before.len() {
                                    assert(self.databases@[i] == before[i]);
                                    assert(self.databases@[j] == before[j]);
                                } else {
                                    assert(self.databases@[i] == before[i]);
                                    assert(self.databases@[j].key@ == key@);
                                }
                            }
                            assert(self.keys() =~= old(self).keys().push(key@));
                            assert(self.databases@.subrange(0, before.len() as int) =~= before);
                        }
                        Ok(())
                    },
                    Err(e) => {
                        let mut msg = String::from_str("Failed to open ");
                        msg.append(path.as_str());
                        msg.append(": ");
                        msg.append(engine::error_text(&e).as_str());
                        Err(Error::Io(msg))
                    },
                }
            },
        }
    }

    /// Removes and drops the handle open under the key.
    pub fn close(&mut self, key: &String) -> (r: Result<(), Error>)
        requires
            old(self).wf(),
        ensures
            final(self).wf(),
            !old(self).has_key(key@) ==> ((r matches Err(e) && e matches Error::UnknownDatabase(k)
                && k@ == key@) && *final(self) == *old(self)),
            old(self).has_key(key@) ==> {
                &&& r matches Ok(_)
                &&& final(self).databases@ =~= old(self).databases@.remove(
                    old(self).key_index(key@),
                )
                &&& final(self).keys() =~= old(self).keys().remove(old(self).key_index(key@))
                &&& !final(self).has_key(key@)
            },
    {
        match self.index_of(key) {
            Some(i) => {
                proof {
                    assert(self.has_key(key@));
                    let ki = self.key_index(key@);
                    assert(0 <= ki < self.databases@.len() && self.databases@[ki].key@ == key@);
                    if ki != i as int {
                        assert(self.databases@[ki].key@ != self.databases@[i as int].key@);
                    }
                    assert(ki == i as int);
                }
                let ghost before = self.databases@;
                let ghost gi = i as int;
                self.databases.remove(i);
                proof {
                    assert forall|p: int, q: int|
                        0 <= p < q < self.databases@.len() implies self.databases@[p].key@
                        != self.databases@[q].key@ by {
                        let p0: int = if p < gi { p } else { p + 1 };
                        let q0: int = if q < gi { q } else { q + 1 };
                        assert(self.databases@[p] == before[p0]);
                        assert(self.databases@[q] == before[q0]);
                    }
                    assert(self.keys() =~= old(self).keys().remove(gi));
                    assert forall|p: int|
                        0 <= p < self.databases@.len() implies self.databases@[p].key@ != key@ by {
                        let p0: int = if p < gi { p } else { p + 1 };
                        assert(self.databases@[p] == before[p0]);
                        assert(p0 != gi);
                    }
                }
                Ok(())
            },
            None => Err(Error::UnknownDatabase(key.clone())),
        }
    }

    /// The keys of the open databases, as owned strings in registry order.
    pub fn list(&self) -> (r: Vec<String>)
        ensures
            r@.len() == self.keys().len(),
            forall|i: int| 0 <= i < r@.len() ==> r@[i]@ == self.keys()[i],
    {
        let n: usize = self.databases.len();
        let mut out: Vec<String> = Vec::new();
        let mut i: usize = 0;
        while i < n
            invariant
                i <= n,
                n == self.databases@.len(),
                out@.len() == i,
                forall|j: int| 0 <= j < i ==> out@[j]@ == self.databases@[j].key@,
            decreases n - i,
        {
            out.push(self.databases[i].key.clone());
            i = i + 1;
        }
        out
    }

    /// Resolves a collection inside the database open under `database`, or
    /// reports that the key is unknown.
    pub fn get_collection(&self, database: &String, collection: &String) -> (r: Result<
        Collection<Document>,
        Error,
    >)
        ensures
            self.has_key(database@) ==> r matches Ok(_),
            !self.has_key(database@) ==> (r matches Err(e) && e matches Error::UnknownDatabase(m)
                && m@ == "Invalid DB key"@),
    {
        match self.index_of(database) {
            Some(i) => Ok(engine::db_collection(&self.databases[i].database, collection)),
            None => Err(Error::UnknownDatabase(String::from_str("Invalid DB key"))),
        }
    }
}

} // verus!
