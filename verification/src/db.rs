//! The database: the committed store and the single transaction slot.

use vstd::prelude::*;
use vstd::slice::slice_to_vec;
use vstd::string::*;
use crate::error::AncError;
use crate::model::{is_scan, DbModel, TxMode};
use crate::store::Store;
use crate::table::{entries_view, value_view};
use crate::txn::TransactionManager;

verus! {

/// A database over one storage location.
pub struct Database {
    location: String,
    store: Store,
    manager: TransactionManager,
}

impl View for Database {
    type V = DbModel;

    closed spec fn view(&self) -> DbModel {
        self.manager.over(self.store@)
    }
}

impl Database {
    /// The database's invariant.
    pub closed spec fn wf(&self) -> bool {
        &&& self.store.wf()
        &&& self.manager.wf()
        &&& self.manager@ matches Some(txn) ==> txn.mode == TxMode::Write ==> txn.snapshot
            == self.store@
    }

    /// The storage location that the database was opened over.
    pub closed spec fn spec_location(&self) -> Seq<char> {
        self.location@
    }

    /// What holds of every well-formed database.
    pub proof fn lemma_wf(&self)
        requires
            self.wf(),
        ensures
            self@.wf(),
    {
        self.manager.lemma_wf();
    }

    /// Opens a database over `location`. It starts with no table and no
    /// transaction, and opening never fails.
    pub fn open(location: &str) -> (opened: Result<Database, AncError>)
        ensures
            opened is Ok,
            opened->Ok_0.wf(),
            opened->Ok_0@ == DbModel::opened(),
            opened->Ok_0.spec_location() == location@,
    {
        Ok(
            Database {
                location: String::from_str(location),
                store: Store::new(),
                manager: TransactionManager::new(),
            },
        )
    }

    /// The storage location that the database was opened over.
    pub fn location(&self) -> (location: &String)
        ensures
            location@ == self.spec_location(),
    {
        &self.location
    }

    /// The mode of the active transaction, if there is one.
    pub fn active_mode(&self) -> (mode: Option<TxMode>)
        ensures
            mode == self@.active_mode(),
    {
        self.manager.active_mode()
    }

    /// Whether a transaction is active.
    pub fn in_transaction(&self) -> (active: bool)
        ensures
            active == self@.slot is Some,
    {
        self.manager.active_mode().is_some()
    }

    /// Begins a transaction. Fails with `TransactionConflict`, and changes
    /// nothing, where a write transaction is asked for while one is active.
    pub fn begin_tx(&mut self, mode: TxMode) -> (done: Result<(), AncError>)
        requires
            old(self).wf(),
        ensures
            final(self).wf(),
            final(self).spec_location() == old(self).spec_location(),
            done == old(self)@.begin_result(mode),
            final(self)@ == old(self)@.begin(mode),
    {
        self.manager.begin(&self.store, mode)
    }

    /// Commits the active transaction and frees the slot. Fails with
    /// `NoActiveTransaction` where none is active, and with
    /// `TransactionConflict`, leaving the committed state as it was, where
    /// the transaction does not validate.
    pub fn commit_tx(&mut self) -> (done: Result<(), AncError>)
        requires
            old(self).wf(),
        ensures
            final(self).wf(),
            final(self).spec_location() == old(self).spec_location(),
            done == old(self)@.commit_result(),
            final(self)@ == old(self)@.commit(),
    {
        self.manager.commit(&mut self.store)
    }

    /// Aborts the active transaction, if there is one, and frees the slot.
    /// Never fails.
    pub fn abort_tx(&mut self) -> (done: Result<(), AncError>)
        requires
            old(self).wf(),
        ensures
            final(self).wf(),
            final(self).spec_location() == old(self).spec_location(),
            done is Ok,
            final(self)@ == old(self)@.abort(),
    {
        self.manager.abort()
    }

    /// Stages the creation of table `table_id` in the active transaction.
    /// Fails where no transaction is active (`NoActiveTransaction`), where
    /// the active one only reads (`TransactionConflict`), and where the
    /// transaction already sees the id (`TableAlreadyExists`). A failure
    /// changes nothing.
    pub fn create_table(&mut self, table_id: u32, name: &str) -> (done: Result<(), AncError>)
        requires
            old(self).wf(),
        ensures
            final(self).wf(),
            final(self).spec_location() == old(self).spec_location(),
            done == old(self)@.create_table_result(table_id),
            final(self)@ == old(self)@.create_table(table_id, name@),
    {
        self.manager.create_table(table_id, String::from_str(name))
    }

    /// Stages `value` under `key` in table `table_id` in the active
    /// transaction. Fails where no transaction is active
    /// (`NoActiveTransaction`), where the active one only reads
    /// (`TransactionConflict`), and where the transaction does not see the
    /// table (`TableNotFound`). A failure changes nothing. The committed
    /// state is untouched until the transaction commits.
    pub fn put(&mut self, table_id: u32, key: i64, value: &[u8]) -> (done: Result<(), AncError>)
        requires
            old(self).wf(),
        ensures
            final(self).wf(),
            final(self).spec_location() == old(self).spec_location(),
            done == old(self)@.put_result(table_id),
            final(self)@ == old(self)@.put(table_id, key, value@),
    {
        self.manager.put(table_id, key, slice_to_vec(value))
    }

    /// The committed value under `key` in table `table_id`, if there is one.
    /// Never fails; what a transaction has staged is not seen.
    pub fn read(&self, table_id: u32, key: i64) -> (found: Result<Option<Vec<u8>>, AncError>)
        requires
            self.wf(),
        ensures
            found is Ok,
            value_view(found->Ok_0) == self@.read(table_id, key),
    {
        Ok(self.store.get(table_id, key))
    }

    /// The committed entries of table `table_id` with a key in
    /// `[start_key, end_key]`, ascending by key or descending where `desc`
    /// is set, at most `limit` of them. Never fails.
    pub fn range_scan(
        &self,
        table_id: u32,
        start_key: i64,
        end_key: i64,
        desc: bool,
        limit: usize,
    ) -> (found: Result<Vec<(i64, Vec<u8>)>, AncError>)
        requires
            self.wf(),
        ensures
            found is Ok,
            is_scan(
                self@.store.rows(table_id),
                start_key,
                end_key,
                desc,
                limit as nat,
                entries_view(found->Ok_0@),
            ),
    {
        Ok(self.store.scan(table_id, start_key, end_key, desc, limit))
    }
}

} // verus!
