//! The savepoint-backed store: the same external contract as the snapshot
//! stack, realised by an embedded relational engine.
//!
//! Instead of in-memory snapshots it keeps one integer `depth` and
//! delegates isolation and rollback to the engine's nested savepoints,
//! named deterministically by depth (`tx_<depth>`), so names never collide
//! across live savepoints.  The engine's table and savepoint stack are
//! modelled by two uninterpreted functions over the opaque connection
//! handle; every call into the engine goes through a trusted wrapper whose
//! contract states, over that model, what the engine's documentation
//! promises of the statement it runs.

use vstd::prelude::*;

use crate::enums::{HandleResult, Outcome};
use crate::model::{
    fresh_stack, model_abort, model_commit, model_delete, model_read, model_start, model_write,
    no_tx_abort_msg, no_tx_commit_msg, not_found_message, not_found_msg, StackModel,
};
use crate::store::Store;

verus! {

/// Declares rusqlite's connection handle so it can stand in fields and
/// signatures; Verus sees nothing inside a value of it.
#[verifier::external_type_specification]
#[verifier::external_body]
pub struct ExConnection(rusqlite::Connection);

/// The engine's savepoint stack, oldest first: for each live savepoint, its
/// numeric name and the table contents a rollback to it would restore.
pub type SaveModel = Seq<(int, Map<Seq<char>, Seq<char>>)>;

/// The rows of the store table held by a connection, keyed by the key column.
pub uninterp spec fn db_rows(conn: rusqlite::Connection) -> Map<Seq<char>, Seq<char>>;

/// The savepoint stack held by a connection.
pub uninterp spec fn db_saves(conn: rusqlite::Connection) -> SaveModel;

/// Whether position `i` holds the most recent savepoint named `n`: the one
/// that a rollback to or release of `n` addresses.
pub open spec fn is_last_save(saves: SaveModel, n: int, i: int) -> bool {
    &&& 0 <= i < saves.len()
    &&& saves[i].0 == n
    &&& forall|j: int| i < j < saves.len() ==> (#[trigger] saves[j]).0 != n
}

/// Relies on rusqlite's Connection::open_in_memory, and on
/// Connection::execute running CREATE TABLE: on success the connection
/// holds one empty store table and no savepoint is open.
#[verifier::external_body]
fn db_open() -> (r: Result<rusqlite::Connection, String>)
    ensures
        (match r {
            Ok(conn) => db_rows(conn) == Map::<Seq<char>, Seq<char>>::empty() && db_saves(conn) == Seq::<(int, Map<Seq<char>, Seq<char>>)>::empty(),
            Err(_) => true,
        }),
{
    let conn = match rusqlite::Connection::open_in_memory() {
        Ok(conn) => conn,
        Err(e) => return Err(e.to_string()),
    };
    match conn.execute("CREATE TABLE store ( key TEXT PRIMARY KEY, value TEXT NOT NULL)", []) {
        Ok(_) => Ok(conn),
        Err(e) => Err(e.to_string()),
    }
}

/// Relies on rusqlite's Statement::query for SELECT by primary key: it
/// returns the row stored under the key, or no row when the key is absent.
#[verifier::external_body]
fn db_read(conn: &rusqlite::Connection, key: &str) -> (r: Option<String>)
    ensures
        match r {
            Some(v) => db_rows(*conn).contains_key(key@) && v@ == db_rows(*conn)[key@],
            None => !db_rows(*conn).contains_key(key@),
        },
{
    let mut stmt = conn.prepare("SELECT value FROM store WHERE key = ?1").unwrap();
    let mut rows = stmt.query([key]).unwrap();
    match rows.next().unwrap() {
        Some(row) => Some(row.get(0).unwrap()),
        None => None,
    }
}

/// Relies on Connection::execute running INSERT against a table whose key
/// column is the primary key: a fresh key adds the row; a present key fails
/// with a constraint violation and changes nothing.  Savepoints are
/// untouched either way.
#[verifier::external_body]
fn db_insert(conn: &mut rusqlite::Connection, key: &str, value: &str) -> (r: Result<(), String>)
    ensures
        db_saves(*final(conn)) == db_saves(*old(conn)),
        !db_rows(*old(conn)).contains_key(key@) ==> r is Ok,
        !db_rows(*old(conn)).contains_key(key@) ==> db_rows(*final(conn)) == db_rows(*old(conn)).insert(key@, value@),
        db_rows(*old(conn)).contains_key(key@) ==> r is Err,
        db_rows(*old(conn)).contains_key(key@) ==> db_rows(*final(conn)) == db_rows(*old(conn)),
{
    match conn.execute("INSERT INTO store (key, value) VALUES (?1, ?2)", [key, value]) {
        Ok(_) => Ok(()),
        Err(e) => Err(e.to_string()),
    }
}

/// Relies on Connection::execute running DELETE by key: the row is removed
/// if present, and the statement succeeds whether or not the key was there.
/// Savepoints are untouched.
#[verifier::external_body]
fn db_delete(conn: &mut rusqlite::Connection, key: &str) -> (r: Result<(), String>)
    ensures
        r is Ok,
        db_rows(*final(conn)) == db_rows(*old(conn)).remove(key@),
        db_saves(*final(conn)) == db_saves(*old(conn)),
{
    match conn.execute("DELETE FROM store WHERE key = ?1", [key]) {
        Ok(_) => Ok(()),
        Err(e) => Err(e.to_string()),
    }
}

/// Relies on Connection::execute running SAVEPOINT tx_<n>: it opens a
/// savepoint recording the current table contents and changes nothing else.
/// Distinct numbers give distinct savepoint names.
#[verifier::external_body]
fn db_savepoint(conn: &mut rusqlite::Connection, n: usize)
    ensures
        db_rows(*final(conn)) == db_rows(*old(conn)),
        db_saves(*final(conn)) == db_saves(*old(conn)).push((n as int, db_rows(*old(conn)))),
{
    conn.execute(&format!("SAVEPOINT tx_{}", n), []).unwrap();
}

/// Relies on Connection::execute running ROLLBACK TO tx_<n>: it restores
/// the table contents recorded by the most recent savepoint with that name,
/// cancels every savepoint opened after it, and keeps the named savepoint
/// itself on the stack.
#[verifier::external_body]
fn db_rollback_to(conn: &mut rusqlite::Connection, n: usize)
    requires
        exists|i: int| is_last_save(db_saves(*old(conn)), n as int, i),
    ensures
        forall|i: int| is_last_save(db_saves(*old(conn)), n as int, i) ==> db_rows(*final(conn)) == db_saves(*old(conn))[i].1,
        forall|i: int| is_last_save(db_saves(*old(conn)), n as int, i) ==> db_saves(*final(conn)) == db_saves(*old(conn)).take(i + 1),
{
    conn.execute(&format!("ROLLBACK TO tx_{}", n), []).unwrap();
}

/// Relies on Connection::execute running RELEASE tx_<n>: it removes the
/// most recent savepoint with that name and every savepoint opened after
/// it, without changing the table contents.
#[verifier::external_body]
fn db_release(conn: &mut rusqlite::Connection, n: usize)
    requires
        exists|i: int| is_last_save(db_saves(*old(conn)), n as int, i),
    ensures
        db_rows(*final(conn)) == db_rows(*old(conn)),
        forall|i: int| is_last_save(db_saves(*old(conn)), n as int, i) ==> db_saves(*final(conn)) == db_saves(*old(conn)).take(i),
{
    conn.execute(&format!("RELEASE tx_{}", n), []).unwrap();
}

/// Backend delegating storage and rollback to the relational engine, with a
/// depth counter in place of a snapshot stack.
pub struct SkweelStore {
    conn: rusqlite::Connection,
    depth: usize,
    save_index: Ghost<Seq<int>>,
}

impl View for SkweelStore {
    type V = StackModel;

    /// The visible stack: level `j < depth` is what a rollback to savepoint
    /// `tx_<j+1>` would restore; the current level is the table itself.
    closed spec fn view(&self) -> StackModel {
        Seq::new(
            self.depth as nat + 1,
            |j: int|
                if j < self.depth {
                    db_saves(self.conn)[self.save_index@[j]].1
                } else {
                    db_rows(self.conn)
                },
        )
    }
}

impl SkweelStore {
    /// Creates a store backed by a fresh in-memory database.
    pub fn new() -> (r: Result<SkweelStore, String>)
        ensures
            r matches Ok(s) ==> s.wf() && s@ == fresh_stack(),
    {
        match db_open() {
            Ok(conn) => {
                let s = SkweelStore { conn, depth: 0, save_index: Ghost(Seq::empty()) };
                proof {
                    assert(s@ =~= fresh_stack());
                }
                Ok(s)
            },
            Err(e) => Err(e),
        }
    }

    /// Whether one more savepoint may be opened (the depth counter alone
    /// bounds nesting here).
    pub fn can_start(&self) -> (r: bool)
        ensures
            r == self.start_enabled(),
    {
        self.depth < usize::MAX
    }
}

impl Store for SkweelStore {
    /// The depth counter equals the number of levels this store has open,
    /// and for each level the ghost index locates the engine savepoint that
    /// guards it: named by the level's depth, holding the level's state,
    /// and the most recent savepoint of that name.
    closed spec fn wf(&self) -> bool {
        let saves = db_saves(self.conn);
        let idx = self.save_index@;
        &&& idx.len() == self.depth
        &&& forall|j: int| 0 <= j < idx.len() ==> 0 <= #[trigger] idx[j] < saves.len()
        &&& forall|j1: int, j2: int|
            #![trigger idx[j1], idx[j2]]
            0 <= j1 < j2 < idx.len() ==> idx[j1] < idx[j2]
        &&& forall|j: int| 0 <= j < idx.len() ==> (#[trigger] saves[idx[j]]).0 == j + 1
        &&& forall|j: int, i: int|
            #![trigger idx[j], saves[i]]
            0 <= j < idx.len() && idx[j] < i < saves.len() ==> saves[i].0 != j + 1
    }

    closed spec fn start_enabled(&self) -> bool {
        self.depth < usize::MAX
    }

    open spec fn read_post(&self, key: Seq<char>, r: Outcome) -> bool {
        r == model_read(self@, key)
    }

    /// A write of a fresh key succeeds; a write of a present key surfaces
    /// the engine's constraint violation and changes nothing.
    open spec fn write_post(&self, post: Self, key: Seq<char>, value: Seq<char>, r: Outcome) -> bool {
        if self@.last().contains_key(key) {
            post@ == self@ && r matches Outcome::Failure(_)
        } else {
            post@ == model_write(self@, key, value) && r == Outcome::Success
        }
    }

    open spec fn delete_post(&self, post: Self, key: Seq<char>, r: Outcome) -> bool {
        post@ == model_delete(self@, key) && r == Outcome::Success
    }

    open spec fn start_post(&self, post: Self, r: Outcome) -> bool {
        post@ == model_start(self@) && r == Outcome::Success
    }

    open spec fn abort_post(&self, post: Self, r: Outcome) -> bool {
        if self@.len() == 1 {
            post@ == self@ && r == Outcome::Failure(no_tx_abort_msg())
        } else {
            post@ == model_abort(self@) && r == Outcome::Success
        }
    }

    open spec fn commit_post(&self, post: Self, r: Outcome) -> bool {
        if self@.len() == 1 {
            post@ == self@ && r == Outcome::Failure(no_tx_commit_msg())
        } else {
            post@ == model_commit(self@) && r == Outcome::Success
        }
    }

    fn read(&self, key: String) -> (r: HandleResult) {
        proof {
            assert(self@.last() == db_rows(self.conn));
        }
        match db_read(&self.conn, key.as_str()) {
            Some(value) => HandleResult::Value(value),
            None => HandleResult::Failure(not_found_message(&key)),
        }
    }

    fn write(&mut self, key: String, value: String) -> (r: HandleResult) {
        let ghost pre = *self;
        let res = db_insert(&mut self.conn, key.as_str(), value.as_str());
        proof {
            assert(pre@.last() == db_rows(pre.conn));
            assert(self.wf());
            if db_rows(pre.conn).contains_key(key@) {
                assert(self@ =~= pre@);
            } else {
                assert(self@ =~= model_write(pre@, key@, value@));
            }
        }
        match res {
            Ok(_) => HandleResult::Success,
            Err(e) => HandleResult::Failure(e),
        }
    }

    fn delete(&mut self, key: String) -> (r: HandleResult) {
        let ghost pre = *self;
        let res = db_delete(&mut self.conn, key.as_str());
        proof {
            assert(self.wf());
            assert(self@ =~= model_delete(pre@, key@));
        }
        match res {
            Ok(_) => HandleResult::Success,
            Err(e) => HandleResult::Failure(e),
        }
    }

    fn start(&mut self) -> (r: HandleResult) {
        let ghost pre = *self;
        let new_depth = self.depth + 1;
        db_savepoint(&mut self.conn, new_depth);
        self.depth = new_depth;
        self.save_index = Ghost(self.save_index@.push(db_saves(pre.conn).len() as int));
        proof {
            assert forall|j: int| 0 <= j < self.save_index@.len() implies 0 <= #[trigger] self
                .save_index@[j] < db_saves(self.conn).len() by {
                if j < pre.save_index@.len() {
                    assert(pre.save_index@[j] < db_saves(pre.conn).len());
                }
            }
            assert(self.wf());
            assert(pre@.last() == db_rows(pre.conn));
            assert(self@ =~= model_start(pre@));
        }
        HandleResult::Success
    }

    fn abort(&mut self) -> (r: HandleResult) {
        let ghost pre = *self;
        if self.depth == 0 {
            proof {
                assert(self@ =~= pre@);
            }
            return HandleResult::Failure("no transaction to abort".to_owned());
        }
        let ghost tip = pre.save_index@[pre.depth - 1];
        proof {
            assert(is_last_save(db_saves(pre.conn), pre.depth as int, tip));
        }
        db_rollback_to(&mut self.conn, self.depth);
        self.depth = self.depth - 1;
        self.save_index = Ghost(self.save_index@.drop_last());
        proof {
            assert(db_rows(self.conn) == db_saves(pre.conn)[tip].1);
            assert(db_saves(self.conn) == db_saves(pre.conn).take(tip + 1));
            assert(self.wf());
            assert(self@ =~= model_abort(pre@));
        }
        HandleResult::Success
    }

    fn commit(&mut self) -> (r: HandleResult) {
        let ghost pre = *self;
        if self.depth == 0 {
            proof {
                assert(self@ =~= pre@);
            }
            return HandleResult::Failure("no transaction to commit".to_owned());
        }
        let ghost tip = pre.save_index@[pre.depth - 1];
        proof {
            assert(is_last_save(db_saves(pre.conn), pre.depth as int, tip));
        }
        db_release(&mut self.conn, self.depth);
        self.depth = self.depth - 1;
        self.save_index = Ghost(self.save_index@.drop_last());
        proof {
            assert(db_rows(self.conn) == db_rows(pre.conn));
            assert(db_saves(self.conn) == db_saves(pre.conn).take(tip));
            assert(self.wf());
            assert(self@ =~= model_commit(pre@));
        }
        HandleResult::Success
    }
}

} // verus!
