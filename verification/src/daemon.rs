//! The dispatch worker's logic: one command in, one outcome out.
//!
//! The worker owns the registry and handles envelopes one at a time, so
//! command execution is serialized by construction. [`step`] is the whole
//! per-command behaviour; [`run`] is the loop over a batch of commands in
//! arrival order, stopping at the first shutdown command.

use vstd::prelude::*;

use polodb_core::bson::Bson;
use polodb_core::bson::Document;
use polodb_core::Collection;

use crate::engine;
use crate::error::Error;
use crate::protocol::CountSelect;
use crate::protocol::PoloCommand;
use crate::protocol::Reply;
use crate::registry::PoloDaemon;

verus! {

/// What the dispatch loop must do after handling one envelope.
pub enum StepOutcome {
    /// Exit the loop; no reply is owed for this envelope, and envelopes still
    /// queued behind it are never served.
    Stop,
    /// Send this reply on the envelope's return channel.
    Respond(Result<Reply, Error>),
}

/// Whether a document key names a query operator rather than a plain field.
pub open spec fn spec_is_operator_key(k: Seq<char>) -> bool {
    k.len() > 0 && k[0] == '$'
}

fn is_operator_key(k: &String) -> (r: bool)
    ensures
        r == spec_is_operator_key(k@),
{
    let s = k.as_str();
    if s.unicode_len() == 0 {
        false
    } else {
        s.get_char(0) == '$'
    }
}

/// The plain fields an upsert takes from the query: its entries under
/// non-operator keys.
pub open spec fn upsert_query_fields(q: Map<Seq<char>, Bson>) -> Map<Seq<char>, Bson> {
    q.restrict(Set::new(|k: Seq<char>| !spec_is_operator_key(k)))
}

/// The fields the update's `$set` entry contributes: the entries of its
/// document when it holds one, and nothing otherwise.
pub open spec fn upsert_set_fields(u: Map<Seq<char>, Bson>) -> Map<Seq<char>, Bson> {
    if u.dom().contains("$set"@) {
        match engine::bson_doc(u["$set"@]) {
            Some(sub) => engine::doc_entries(sub),
            None => Map::empty(),
        }
    } else {
        Map::empty()
    }
}

/// Builds the document an upsert inserts when the query matched nothing: the
/// query's plain (non-operator) fields, overlaid with the entries of the
/// update's `$set` document.
fn build_upsert_document(query: &Document, update: &Document) -> (out: Document)
    ensures
        engine::doc_entries(out) =~= upsert_query_fields(engine::doc_entries(*query)).union_prefer_right(
            upsert_set_fields(engine::doc_entries(*update)),
        ),
{
    let ghost qm = engine::doc_entries(*query);
    let mut out = engine::doc_new();
    let qpairs = engine::doc_pairs(query);
    let qn: usize = qpairs.len();
    let mut i: usize = 0;
    while i < qn
        invariant
            i <= qn,
            qn == qpairs@.len(),
            qm == engine::doc_entries(*query),
            forall|p: int|
                0 <= p < qpairs@.len() ==> #[trigger] qm.contains_pair(
                    qpairs@[p].0@,
                    qpairs@[p].1,
                ),
            forall|p: int, q: int| 0 <= p < q < qpairs@.len() ==> qpairs@[p].0@ != qpairs@[q].0@,
            forall|k: Seq<char>|
                #[trigger] qm.dom().contains(k) ==> exists|p: int|
                    0 <= p < qpairs@.len() && qpairs@[p].0@ == k,
            forall|k: Seq<char>|
                #[trigger] engine::doc_entries(out).dom().contains(k) ==> (!spec_is_operator_key(k)
                    && qm.contains_pair(k, engine::doc_entries(out)[k])),
            forall|p: int|
                0 <= p < i && !spec_is_operator_key(#[trigger] qpairs@[p].0@)
                    ==> engine::doc_entries(out).contains_pair(qpairs@[p].0@, qpairs@[p].1),
        decreases qn - i,
    {
        let pair = &qpairs[i];
        if !is_operator_key(&pair.0) {
            engine::doc_set(&mut out, &pair.0, &pair.1);
        }
        i = i + 1;
    }
    proof {
        assert forall|k: Seq<char>|
            #[trigger] upsert_query_fields(qm).dom().contains(k) implies engine::doc_entries(
            out,
        ).contains_pair(k, upsert_query_fields(qm)[k]) by {
            let p = choose|p: int| 0 <= p < qpairs@.len() && qpairs@[p].0@ == k;
            assert(qm.contains_pair(qpairs@[p].0@, qpairs@[p].1));
            assert(engine::doc_entries(out).contains_pair(qpairs@[p].0@, qpairs@[p].1));
        }
        assert(engine::doc_entries(out) =~= upsert_query_fields(qm));
    }
    let ghost um = engine::doc_entries(*update);
    let ghost base = engine::doc_entries(out);
    let set_key = String::from_str("$set");
    match engine::doc_get(update, &set_key) {
        Some(v) => {
            proof {
                assert(um.contains_pair("$set"@, *v));
            }
            match engine::bson_as_document(v) {
                Some(sub) => {
                    let ghost sm = engine::doc_entries(*sub);
                    let spairs = engine::doc_pairs(sub);
                    let sn: usize = spairs.len();
                    let mut t: usize = 0;
                    while t < sn
                        invariant
                            t <= sn,
                            sn == spairs@.len(),
                            sm == engine::doc_entries(*sub),
                            forall|p: int|
                                0 <= p < spairs@.len() ==> #[trigger] sm.contains_pair(
                                    spairs@[p].0@,
                                    spairs@[p].1,
                                ),
                            forall|p: int, q: int|
                                0 <= p < q < spairs@.len() ==> spairs@[p].0@ != spairs@[q].0@,
                            forall|k: Seq<char>|
                                #[trigger] sm.dom().contains(k) ==> exists|p: int|
                                    0 <= p < spairs@.len() && spairs@[p].0@ == k,
                            forall|p: int|
                                0 <= p < t ==> #[trigger] engine::doc_entries(out).contains_pair(
                                    spairs@[p].0@,
                                    spairs@[p].1,
                                ),
                            forall|k: Seq<char>|
                                base.dom().contains(k) && !(exists|p: int|
                                    0 <= p < t && #[trigger] spairs@[p].0@ == k)
                                    ==> engine::doc_entries(out).contains_pair(k, base[k]),
                            forall|k: Seq<char>|
                                #[trigger] engine::doc_entries(out).dom().contains(k) ==> (
                                base.dom().contains(k) || (exists|p: int|
                                    0 <= p < t && #[trigger] spairs@[p].0@ == k)),
                        decreases sn - t,
                    {
                        let entry = &spairs[t];
                        let ghost pre = engine::doc_entries(out);
                        engine::doc_set(&mut out, &entry.0, &entry.1);
                        proof {
                            let ti = t as int;
                            assert(engine::doc_entries(out) == pre.insert(
                                spairs@[ti].0@,
                                spairs@[ti].1,
                            ));
                            assert forall|p: int|
                                0 <= p < ti + 1 implies engine::doc_entries(out).contains_pair(
                                spairs@[p].0@,
                                spairs@[p].1,
                            ) by {
                                if p < ti {
                                    assert(pre.contains_pair(spairs@[p].0@, spairs@[p].1));
                                    assert(spairs@[p].0@ != spairs@[ti].0@);
                                    assert(engine::doc_entries(out)[spairs@[p].0@]
                                        == pre[spairs@[p].0@]);
                                }
                            }
                        }
                        t = t + 1;
                    }
                    proof {
                        assert(engine::bson_doc(*v) == Some(*sub));
                        assert(um["$set"@] == *v);
                        assert(upsert_set_fields(um) == sm);
                        let merged = base.union_prefer_right(sm);
                        assert forall|k: Seq<char>|
                            #[trigger] merged.dom().contains(k)
                            implies engine::doc_entries(out).dom().contains(k)
                            && engine::doc_entries(out)[k] == merged[k] by {
                            if sm.dom().contains(k) {
                                let p = choose|p: int|
                                    0 <= p < spairs@.len() && spairs@[p].0@ == k;
                                assert(engine::doc_entries(out).contains_pair(
                                    spairs@[p].0@,
                                    spairs@[p].1,
                                ));
                                assert(sm.contains_pair(spairs@[p].0@, spairs@[p].1));
                            } else {
                                assert forall|p: int|
                                    0 <= p < spairs@.len() implies spairs@[p].0@ != k by {
                                    if spairs@[p].0@ == k {
                                        assert(sm.contains_pair(spairs@[p].0@, spairs@[p].1));
                                    }
                                }
                                assert(engine::doc_entries(out).contains_pair(k, base[k]));
                            }
                        }
                        assert forall|k: Seq<char>|
                            #[trigger] engine::doc_entries(out).dom().contains(k)
                            implies merged.dom().contains(k) by {
                            if !base.dom().contains(k) {
                                let p = choose|p: int|
                                    0 <= p < spairs@.len() && spairs@[p].0@ == k;
                                assert(sm.contains_pair(spairs@[p].0@, spairs@[p].1));
                            }
                        }
                        assert(engine::doc_entries(out) =~= merged);
                    }
                },
                None => {
                    proof {
                        assert(engine::bson_doc(*v) is None);
                        assert(um["$set"@] == *v);
                        assert(upsert_set_fields(um) =~= Map::<Seq<char>, Bson>::empty());
                        assert(engine::doc_entries(out) =~= base.union_prefer_right(
                            upsert_set_fields(um),
                        ));
                    }
                },
            }
        },
        None => {
            proof {
                assert(!um.dom().contains(set_key@));
                assert(upsert_set_fields(um) =~= Map::<Seq<char>, Bson>::empty());
                assert(engine::doc_entries(out) =~= base.union_prefer_right(
                    upsert_set_fields(um),
                ));
            }
        },
    }
    out
}

/// The shape every reply owed for a command must have: the command's own
/// success payload, or one of the failures its dispatch clauses allow. A
/// shutdown command is never replied to, so no reply fits it.
pub open spec fn reply_shape_fits(cmd: PoloCommand, r: Result<Reply, Error>) -> bool {
    match cmd {
        PoloCommand::Kill => false,
        PoloCommand::OpenDatabase { .. } => match r {
            Ok(rep) => rep is Message,
            Err(e) => e is ExistingDatabase || e is Io,
        },
        PoloCommand::CloseDatabase(_) => match r {
            Ok(rep) => rep is Message,
            Err(e) => e is UnknownDatabase,
        },
        PoloCommand::ListDatabases => match r {
            Ok(rep) => rep is Keys,
            Err(_) => false,
        },
        PoloCommand::Insert { .. } => match r {
            Ok(rep) => rep is InsertedIds,
            Err(e) => e is UnknownDatabase || e is InsertError,
        },
        PoloCommand::Find { .. } => match r {
            Ok(rep) => rep is Documents,
            Err(e) => e is UnknownDatabase || e is DatabaseError,
        },
        PoloCommand::Delete { .. } => match r {
            Ok(rep) => rep is Count,
            Err(e) => e is UnknownDatabase || e is DatabaseError,
        },
        PoloCommand::Update { .. } => match r {
            Ok(rep) => rep is Count,
            Err(e) => e is UnknownDatabase || e is DatabaseError,
        },
    }
}

/// Turns the engine's single-result find outcome into the owed reply: the
/// matched document alone when one exists, and the not-found failure — not
/// an engine failure — when nothing matched.
pub fn find_one_reply(found: Option<Document>) -> (r: Result<Reply, Error>)
    ensures
        found matches Some(d) ==> (r matches Ok(rep) && (rep matches Reply::Documents(ds) && ds@
            =~= seq![d])),
        found is None ==> (r matches Err(e) && e matches Error::UnknownDatabase(m) && m@
            == "No document matched the query"@),
{
    match found {
        Some(d) => {
            let mut ds: Vec<Document> = Vec::new();
            ds.push(d);
            Ok(Reply::Documents(ds))
        },
        None => Err(Error::UnknownDatabase(String::from_str("No document matched the query"))),
    }
}

/// Turns the count the engine's update returned into the owed reply,
/// honouring the upsert flag: a count that modified something, or any count
/// without upsert, is relayed unchanged; an upsert that modified nothing
/// inserts the built document and counts the one creation, or reports the
/// engine's refusal of that insert.
pub fn update_reply(
    c: &Collection<Document>,
    query: &Document,
    update: &Document,
    modified: u64,
    upsert: bool,
) -> (r: Result<Reply, Error>)
    ensures
        modified > 0 || !upsert ==> (r matches Ok(rep) && (rep matches Reply::Count(n) && n
            == modified)),
        modified == 0 && upsert ==> ((r matches Ok(rep) && (rep matches Reply::Count(n) && n == 1))
            || (r matches Err(e) && e matches Error::DatabaseError(m) && m@
            == "Failed to update specified documents"@)),
{
    if modified == 0 && upsert {
        let created = build_upsert_document(query, update);
        match engine::coll_insert_one(c, &created) {
            Ok(_) => Ok(Reply::Count(1)),
            Err(_) => Err(
                Error::DatabaseError(String::from_str("Failed to update specified documents")),
            ),
        }
    } else {
        Ok(Reply::Count(modified))
    }
}

/// Executes one command against the registry and decides the worker's next
/// move.
///
/// Exactly the shutdown command stops the worker; every other command yields
/// exactly one reply, each command variant with its own payload shape. Only
/// open and close touch the registry; the data commands leave it unchanged,
/// whichever database they address and however the engine answers.
pub fn step(daemon: &mut PoloDaemon, cmd: PoloCommand) -> (out: StepOutcome)
    requires
        old(daemon).wf(),
    ensures
        final(daemon).wf(),
        out is Stop <==> cmd is Kill,
        cmd is Kill ==> *final(daemon) == *old(daemon),
        out matches StepOutcome::Respond(r) ==> reply_shape_fits(cmd, r),
        cmd is ListDatabases ==> *final(daemon) == *old(daemon) && (out
            matches StepOutcome::Respond(r) && (r matches Ok(rep) && (rep matches Reply::Keys(ks)
            && ks@.len() == old(daemon).keys().len() && (forall|i: int|
            0 <= i < ks@.len() ==> ks@[i]@ == old(daemon).keys()[i])))),
        cmd matches PoloCommand::OpenDatabase { key, path } ==> {
            &&& out matches StepOutcome::Respond(r)
            &&& old(daemon).has_key(key@) ==> ((r matches Err(e) && e
                matches Error::ExistingDatabase(k) && k@ == key@)
                && *final(daemon) == *old(daemon))
            &&& !old(daemon).has_key(key@) ==> match r {
                Ok(rep) => {
                    &&& rep matches Reply::Message(m) && m@ == "Database opened."@
                    &&& final(daemon).keys() =~= old(daemon).keys().push(key@)
                    &&& final(daemon).has_key(key@)
                },
                Err(e) => e is Io && *final(daemon) == *old(daemon),
            }
        },
        cmd matches PoloCommand::CloseDatabase(key) ==> {
            &&& out matches StepOutcome::Respond(r)
            &&& !old(daemon).has_key(key@) ==> ((r matches Err(e) && e
                matches Error::UnknownDatabase(k) && k@ == key@)
                && *final(daemon) == *old(daemon))
            &&& old(daemon).has_key(key@) ==> ((r matches Ok(rep) && (rep
                matches Reply::Message(m) && m@ == "Database closed."@)) && final(daemon).keys()
                =~= old(daemon).keys().remove(old(daemon).key_index(key@))
                && !final(daemon).has_key(key@))
        },
        cmd matches PoloCommand::Insert { database, collection, value } ==> {
            &&& *final(daemon) == *old(daemon)
            &&& out matches StepOutcome::Respond(r)
            &&& !old(daemon).has_key(database@) ==> (r matches Err(e) && e is UnknownDatabase)
            &&& old(daemon).has_key(database@) ==> ((r matches Ok(rep) && (rep
                matches Reply::InsertedIds(ids) && ids@.len() == value@.len() && (forall|i: int|
                0 <= i < ids@.len() ==> (#[trigger] ids@[i] as int) < value@.len()) && (forall|i: int, j: int|
                0 <= i < j < ids@.len() ==> ids@[i] != ids@[j]))) || (r matches Err(e)
                && e is InsertError))
        },
        cmd matches PoloCommand::Find { database, collection, query, count, sort } ==> {
            &&& *final(daemon) == *old(daemon)
            &&& out matches StepOutcome::Respond(r)
            &&& !old(daemon).has_key(database@) ==> (r matches Err(e) && e is UnknownDatabase)
            &&& old(daemon).has_key(database@) ==> ((r matches Ok(rep) && (rep
                matches Reply::Documents(ds) && (count == CountSelect::One ==> ds@.len() == 1)))
                || (r matches Err(e) && (e is UnknownDatabase || e is DatabaseError)))
            &&& old(daemon).has_key(database@) && count == CountSelect::Many ==> (r
                matches Err(e) ==> e is DatabaseError)
        },
        cmd matches PoloCommand::Delete { database, collection, query, count } ==> {
            &&& *final(daemon) == *old(daemon)
            &&& out matches StepOutcome::Respond(r)
            &&& !old(daemon).has_key(database@) ==> (r matches Err(e) && e is UnknownDatabase)
            &&& old(daemon).has_key(database@) ==> ((r matches Ok(rep) && (rep
                matches Reply::Count(n) && (count == CountSelect::One ==> n <= 1))) || (r
                matches Err(e) && e is DatabaseError))
        },
        cmd matches PoloCommand::Update { database, collection, query, update, count, upsert }
            ==> {
            &&& *final(daemon) == *old(daemon)
            &&& out matches StepOutcome::Respond(r)
            &&& !old(daemon).has_key(database@) ==> (r matches Err(e) && e is UnknownDatabase)
            &&& old(daemon).has_key(database@) ==> ((r matches Ok(rep) && (rep
                matches Reply::Count(n) && (count == CountSelect::One ==> n <= 1) && (
                upsert ==> n >= 1))) || (r matches Err(e) && e is DatabaseError))
        },
{
    match cmd {
        PoloCommand::Kill => StepOutcome::Stop,
        PoloCommand::OpenDatabase { key, path } => {
            match daemon.open(&key, &path) {
                Ok(_) => StepOutcome::Respond(
                    Ok(Reply::Message(String::from_str("Database opened."))),
                ),
                Err(e) => StepOutcome::Respond(Err(e)),
            }
        },
        PoloCommand::CloseDatabase(key) => {
            match daemon.close(&key) {
                Ok(_) => StepOutcome::Respond(
                    Ok(Reply::Message(String::from_str("Database closed."))),
                ),
                Err(e) => StepOutcome::Respond(Err(e)),
            }
        },
        PoloCommand::ListDatabases => StepOutcome::Respond(Ok(Reply::Keys(daemon.list()))),
        PoloCommand::Insert { database, collection, value } => {
            match daemon.get_collection(&database, &collection) {
                Ok(c) => match engine::coll_insert_many(&c, &value) {
                    Ok(ids) => StepOutcome::Respond(Ok(Reply::InsertedIds(ids))),
                    Err(e) => StepOutcome::Respond(
                        Err(Error::InsertError(engine::error_text(&e))),
                    ),
                },
                Err(e) => StepOutcome::Respond(Err(e)),
            }
        },
        PoloCommand::Find { database, collection, query, count, sort: _ } => {
            match daemon.get_collection(&database, &collection) {
                Ok(c) => match count {
                    CountSelect::Many => match engine::coll_find_many(&c, &query) {
                        Ok(ds) => StepOutcome::Respond(Ok(Reply::Documents(ds))),
                        Err(_) => StepOutcome::Respond(
                            Err(
                                Error::DatabaseError(
                                    String::from_str("Result collection failed"),
                                ),
                            ),
                        ),
                    },
                    CountSelect::One => match engine::coll_find_one(&c, &query) {
                        Ok(found) => StepOutcome::Respond(find_one_reply(found)),
                        Err(_) => StepOutcome::Respond(
                            Err(
                                Error::DatabaseError(
                                    String::from_str("Failed to find document"),
                                ),
                            ),
                        ),
                    },
                },
                Err(e) => StepOutcome::Respond(Err(e)),
            }
        },
        PoloCommand::Delete { database, collection, query, count } => {
            match daemon.get_collection(&database, &collection) {
                Ok(c) => match count {
                    CountSelect::Many => match engine::coll_delete_many(&c, &query) {
                        Ok(n) => StepOutcome::Respond(Ok(Reply::Count(n))),
                        Err(_) => StepOutcome::Respond(
                            Err(
                                Error::DatabaseError(
                                    String::from_str("Failed to delete specified documents"),
                                ),
                            ),
                        ),
                    },
                    CountSelect::One => match engine::coll_delete_one(&c, &query) {
                        Ok(n) => StepOutcome::Respond(Ok(Reply::Count(n))),
                        Err(_) => StepOutcome::Respond(
                            Err(
                                Error::DatabaseError(
                                    String::from_str("Failed to delete specified document"),
                                ),
                            ),
                        ),
                    },
                },
                Err(e) => StepOutcome::Respond(Err(e)),
            }
        },
        PoloCommand::Update { database, collection, query, update, count, upsert } => {
            match daemon.get_collection(&database, &collection) {
                Ok(c) => {
                    let engine_result = match count {
                        CountSelect::Many => engine::coll_update_many(&c, &query, &update),
                        CountSelect::One => engine::coll_update_one(&c, &query, &update),
                    };
                    match engine_result {
                        Ok(n) => StepOutcome::Respond(update_reply(&c, &query, &update, n, upsert)),
                        Err(_) => {
                            let msg = match count {
                                CountSelect::Many => String::from_str(
                                    "Failed to update specified documents",
                                ),
                                CountSelect::One => String::from_str(
                                    "Failed to update specified document",
                                ),
                            };
                            StepOutcome::Respond(Err(Error::DatabaseError(msg)))
                        },
                    }
                },
                Err(e) => StepOutcome::Respond(Err(e)),
            }
        },
    }
}

/// How many of the queued commands are served before the worker stops: every
/// command strictly before the first shutdown command, and all of them when
/// none is queued.
pub open spec fn served_count(cmds: Seq<PoloCommand>) -> int
    decreases cmds.len(),
{
    if cmds.len() == 0 {
        0
    } else if cmds[0] is Kill {
        0
    } else {
        1 + served_count(cmds.drop_first())
    }
}

/// No envelope queued behind a shutdown command is ever answered.
pub proof fn lemma_no_reply_after_kill(cmds: Seq<PoloCommand>, k: int)
    requires
        0 <= k < cmds.len(),
        cmds[k] is Kill,
    ensures
        served_count(cmds) <= k,
    decreases k,
{
    if !(cmds[0] is Kill) {
        lemma_no_reply_after_kill(cmds.drop_first(), k - 1);
    }
}

/// Every envelope dequeued before the first shutdown command is answered:
/// the served prefix stops exactly at the first shutdown, or covers the whole
/// queue when there is none.
pub proof fn lemma_served_up_to_first_kill(cmds: Seq<PoloCommand>)
    ensures
        0 <= served_count(cmds) <= cmds.len(),
        forall|i: int| 0 <= i < served_count(cmds) ==> !(cmds[i] is Kill),
        served_count(cmds) < cmds.len() ==> cmds[served_count(cmds)] is Kill,
    decreases cmds.len(),
{
    if cmds.len() > 0 && !(cmds[0] is Kill) {
        lemma_served_up_to_first_kill(cmds.drop_first());
        assert forall|i: int| 0 <= i < served_count(cmds) implies !(cmds[i] is Kill) by {
            if i > 0 {
                assert(cmds.drop_first()[i - 1] == cmds[i]);
            }
        }
    }
}

/// Processes queued commands in arrival order: each command before the first
/// shutdown gets exactly one reply, in order; the shutdown command and
/// everything queued behind it get none.
pub fn run(daemon: &mut PoloDaemon, cmds: Vec<PoloCommand>) -> (replies: Vec<
    Result<Reply, Error>,
>)
    requires
        old(daemon).wf(),
    ensures
        final(daemon).wf(),
        replies@.len() == served_count(cmds@),
        replies@.len() <= cmds@.len(),
        forall|i: int|
            0 <= i < replies@.len() ==> #[trigger] reply_shape_fits(cmds@[i], replies@[i]),
{
    proof {
        lemma_served_up_to_first_kill(cmds@);
    }
    let ghost orig = cmds@;
    let mut queue = cmds;
    let mut replies: Vec<Result<Reply, Error>> = Vec::new();
    while queue.len() > 0
        invariant_except_break
            daemon.wf(),
            served_count(orig) == replies@.len() + served_count(queue@),
            replies@.len() + queue@.len() == orig.len(),
            queue@ =~= orig.subrange(replies@.len() as int, orig.len() as int),
            forall|i: int|
                0 <= i < replies@.len() ==> #[trigger] reply_shape_fits(orig[i], replies@[i]),
        ensures
            daemon.wf(),
            replies@.len() == served_count(orig),
            forall|i: int|
                0 <= i < replies@.len() ==> #[trigger] reply_shape_fits(orig[i], replies@[i]),
        decreases queue@.len(),
    {
        let ghost before = queue@;
        let ghost done = replies@.len() as int;
        let ghost len = orig.len() as int;
        let c = queue.remove(0);
        proof {
            assert(queue@ =~= before.drop_first());
            assert(before == orig.subrange(done, len));
            assert(orig.subrange(done, len)[0] == orig[done]);
            assert(before[0] == orig[done]);
        }
        match step(daemon, c) {
            StepOutcome::Stop => {
                proof {
                    assert(served_count(before) == 0);
                }
                break ;
            },
            StepOutcome::Respond(r) => {
                replies.push(r);
                proof {
                    assert(served_count(before) == 1 + served_count(before.drop_first()));
                    assert(replies@[done] == r);
                    assert(reply_shape_fits(orig[done], replies@[done]));
                    assert forall|p: int|
                        0 <= p < queue@.len() implies queue@[p] == orig[done + 1 + p] by {
                        assert(queue@[p] == before[p + 1]);
                        assert(orig.subrange(done, len)[p + 1] == orig[done + 1 + p]);
                    }
                    assert(queue@ =~= orig.subrange(replies@.len() as int, len));
                }
            },
        }
    }
    replies
}

/// Opening two databases under distinct keys and then closing the first
/// leaves exactly the second key registered: the sequence of registered keys
/// after the close is the one-element sequence of the other key.
pub proof fn lemma_open_open_close_keys(
    a: Seq<char>,
    b: Seq<char>,
    r0: PoloDaemon,
    r1: PoloDaemon,
    r2: PoloDaemon,
    r3: PoloDaemon,
)
    requires
        a != b,
        r0.databases@.len() == 0,
        r1.keys() =~= r0.keys().push(a),
        r2.keys() =~= r1.keys().push(b),
        r3.keys() =~= r2.keys().remove(r2.key_index(a)),
    ensures
        r3.keys() =~= seq![b],
{
    assert(r0.keys() =~= Seq::<Seq<char>>::empty());
    assert(r2.keys().len() == 2);
    assert(r2.keys()[0] == a);
    assert(r2.keys()[1] == b);
    assert(r2.databases@[0].key@ == a);
    let ki = r2.key_index(a);
    assert(0 <= ki < r2.databases@.len() && r2.databases@[ki].key@ == a);
    assert(r2.keys()[ki] == a);
    assert(ki == 0);
}

} // verus!
