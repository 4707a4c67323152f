//! The permanent store of a node, kept in one column of its database.

use crate::perma_storage::{empty_contents, PermaStorage, StorageError};
use sp_core::H256;
use sp_database::error::DatabaseError;
use sp_database::{Database, Transaction};
use std::sync::Arc;
use vstd::prelude::*;

verus! {

/// Number of columns of the node's database.
pub const NUM_COLUMNS: u32 = 13;

/// The column that holds the permanent storage.
pub const PERMA_STORAGE: u32 = 12;

/// The error of a commit that the database refused.
#[verifier::external_type_specification]
#[verifier::external_body]
pub struct ExDatabaseError(DatabaseError);

/// The hash type of the database.
#[verifier::external_type_specification]
#[verifier::external_body]
pub struct ExH256(H256);

/// Changes to the database that are committed together.
#[verifier::external_type_specification]
#[verifier::external_body]
#[verifier::reject_recursive_types(H)]
pub struct ExTransaction<H>(Transaction<H>);

/// The permanent store: a handle to the database, of which it uses the column
/// `PERMA_STORAGE` alone. A store can be read and written where `owns_column` holds of it.
#[verifier::external_body]
#[derive(Debug)]
pub struct DataStorage {
    /// The database.
    pub db: Arc<dyn Database<H256>>,
}

/// What the column `PERMA_STORAGE` of the store's database holds. It is what a read finds
/// for a store of which `owns_column` holds; of another store it says nothing.
pub uninterp spec fn stored(store: DataStorage) -> Map<Seq<u8>, Seq<u8>>;

/// Whether the store's database has the column `PERMA_STORAGE` and nothing but this store
/// reaches that column: no other store stands on the database, and no one else holds it.
pub uninterp spec fn owns_column(store: DataStorage) -> bool;

/// Whether the store's database is one that `kvdb_memorydb` made, which lives in memory
/// and refuses no commit. It is settled when the store is made.
pub uninterp spec fn kept_in_memory(store: DataStorage) -> bool;

/// Makes a database in memory with `kvdb_memorydb::create` and wraps it with
/// `sp_database::as_database`. Believed, not proved: every column of the new database is
/// empty, and so is the column `PERMA_STORAGE`, which is among them; and the only handle on
/// the new database is the one in the store that is returned.
#[verifier::external_body]
fn open_in_memory(columns: u32) -> (store: DataStorage)
    requires
        PERMA_STORAGE < columns,
    ensures
        stored(store) == empty_contents(),
        kept_in_memory(store),
        owns_column(store),
{
    DataStorage { db: sp_database::as_database(kvdb_memorydb::create(columns)) }
}

/// The changes that a transaction holds, in the order in which they were put there: the
/// column and the key of each, and the value where it is a set, `None` where it is a remove.
/// It speaks of transactions that hold sets and removes alone, as those that this file makes
/// do; of one that holds a store, a reference or a release it says nothing.
pub uninterp spec fn changes(tx: Transaction<H256>) -> Seq<(u32, Seq<u8>, Option<Seq<u8>>)>;

/// What the column `PERMA_STORAGE` holds after one change, given what it held before.
pub open spec fn applied(
    before: Map<Seq<u8>, Seq<u8>>,
    change: (u32, Seq<u8>, Option<Seq<u8>>),
) -> Map<Seq<u8>, Seq<u8>> {
    if change.0 != PERMA_STORAGE {
        before
    } else {
        match change.2 {
            Some(value) => before.insert(change.1, value),
            None => before.remove(change.1),
        }
    }
}

/// Calls `Transaction::new`, which makes a transaction without changes.
#[verifier::external_body]
fn new_transaction() -> (tx: Transaction<H256>)
    ensures
        changes(tx).len() == 0,
{
    Transaction::new()
}

/// Calls `Transaction::set`, which puts a set of `key` to `value` in `column` behind the
/// changes that the transaction holds.
#[verifier::external_body]
fn transaction_set(tx: &mut Transaction<H256>, column: u32, key: &[u8], value: &[u8])
    ensures
        changes(*final(tx)) == changes(*old(tx)).push((column, key@, Some(value@))),
{
    tx.set(column, key, value)
}

/// Calls `Transaction::remove`, which puts a remove of `key` in `column` behind the changes
/// that the transaction holds.
#[verifier::external_body]
fn transaction_remove(tx: &mut Transaction<H256>, column: u32, key: &[u8])
    ensures
        changes(*final(tx)) == changes(*old(tx)).push((column, key@, None::<Seq<u8>>)),
{
    tx.remove(column, key)
}

/// Calls `Database::commit` with a transaction of one change. Believed, not proved: a
/// commit is atomic, so after `Ok` a later read sees the change and the other keys as
/// before, and after `Err` the column is as it was. The store keeps its database; where that
/// is one of `kvdb_memorydb`, whose `write` returns `Ok` whatever it is given, the commit of
/// a set or of a remove returns `Ok`.
#[verifier::external_body]
fn commit(store: &mut DataStorage, tx: Transaction<H256>) -> (done: Result<(), DatabaseError>)
    requires
        changes(tx).len() == 1,
        owns_column(*old(store)),
    ensures
        owns_column(*final(store)),
        done is Ok ==> stored(*final(store)) == applied(stored(*old(store)), changes(tx)[0]),
        done is Err ==> stored(*final(store)) == stored(*old(store)),
        kept_in_memory(*old(store)) ==> done is Ok,
        kept_in_memory(*final(store)) == kept_in_memory(*old(store)),
{
    store.db.commit(tx)
}

/// Reads with `Database::get`, which panics where the database cannot be read: the store
/// must have the column. Believed, not proved: it returns the value that the last
/// successful commit left under `key`, and `None` where there is none.
#[verifier::external_body]
fn lookup(store: &DataStorage, column: u32, key: &[u8]) -> (found: Option<Vec<u8>>)
    requires
        column == PERMA_STORAGE,
        owns_column(*store),
    ensures
        found is Some <==> stored(*store).contains_key(key@),
        found matches Some(value) ==> value@ == stored(*store)[key@],
{
    store.db.get(column, key)
}

/// What a commit's outcome means for the caller of a write.
pub fn commit_outcome(committed: Result<(), DatabaseError>) -> (done: Result<(), StorageError>)
    ensures
        done is Ok <==> committed is Ok,
        done matches Err(e) ==> e == StorageError::CommitFailed,
{
    match committed {
        Ok(()) => Ok(()),
        Err(_) => Err(StorageError::CommitFailed),
    }
}

impl DataStorage {
    /// A new and empty store on a database in memory.
    pub fn new_test() -> (store: DataStorage)
        ensures
            stored(store) == empty_contents(),
            kept_in_memory(store),
            owns_column(store),
    {
        open_in_memory(NUM_COLUMNS)
    }
}

impl PermaStorage for DataStorage {
    open spec fn contents(&self) -> Map<Seq<u8>, Seq<u8>> {
        stored(*self)
    }

    open spec fn usable(&self) -> bool {
        owns_column(*self)
    }

    /// Commits a transaction that sets `key` to `value`. On a database in memory the commit
    /// is never refused, so the write takes effect; on another it does where the database
    /// accepts the commit.
    fn set(&mut self, key: &[u8], value: &[u8]) -> (done: Result<(), StorageError>)
        ensures
            kept_in_memory(*old(self)) ==> done is Ok,
            kept_in_memory(*final(self)) == kept_in_memory(*old(self)),
    {
        let mut tx = new_transaction();
        transaction_set(&mut tx, PERMA_STORAGE, key, value);
        commit_outcome(commit(self, tx))
    }

    /// Commits a transaction that removes `key`. On a database in memory the commit is never
    /// refused, so the removal takes effect; on another it does where the database accepts
    /// the commit.
    fn remove(&mut self, key: &[u8]) -> (done: Result<(), StorageError>)
        ensures
            kept_in_memory(*old(self)) ==> done is Ok,
            kept_in_memory(*final(self)) == kept_in_memory(*old(self)),
    {
        let mut tx = new_transaction();
        transaction_remove(&mut tx, PERMA_STORAGE, key);
        commit_outcome(commit(self, tx))
    }

    fn get(&self, key: &[u8]) -> (found: Option<Vec<u8>>) {
        lookup(self, PERMA_STORAGE, key)
    }
}

} // verus!
