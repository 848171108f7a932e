//! Transactions: staged writes over a snapshot, validated at commit.

use vstd::prelude::*;
use crate::error::AncError;
use crate::model::{DbModel, StoreModel, TxMode, TxStatus, TxnModel};
use crate::store::{writes_view, Store, WriteOp};
use crate::table::value_view;

verus! {

/// Whether two byte strings are the same.
fn same_bytes(x: &Vec<u8>, y: &Vec<u8>) -> (same: bool)
    ensures
        same == (x@ == y@),
{
    if x.len() != y.len() {
        return false;
    }
    let mut i: usize = 0;
    while i < x.len()
        invariant
            x@.len() == y@.len(),
            i <= x@.len(),
            forall|k: int| 0 <= k < i ==> x@[k] == y@[k],
        decreases x@.len() - i,
    {
        if x[i] != y[i] {
            assert(x@[i as int] != y@[i as int]);
            return false;
        }
        i = i + 1;
    }
    assert(x@ =~= y@);
    true
}

/// Whether two values read from a store are the same.
fn same_value(a: &Option<Vec<u8>>, b: &Option<Vec<u8>>) -> (same: bool)
    ensures
        same == (value_view(*a) == value_view(*b)),
{
    match (a, b) {
        (None, None) => true,
        (Some(x), Some(y)) => same_bytes(x, y),
        _ => false,
    }
}

/// One transaction against a store.
pub struct Transaction {
    mode: TxMode,
    status: TxStatus,
    snapshot: Store,
    writes: Vec<WriteOp>,
}

impl View for Transaction {
    type V = TxnModel;

    closed spec fn view(&self) -> TxnModel {
        TxnModel {
            mode: self.mode,
            status: self.status,
            snapshot: self.snapshot@,
            writes: writes_view(self.writes@),
        }
    }
}

impl Transaction {
    /// The transaction's invariant.
    pub closed spec fn wf(&self) -> bool {
        &&& self.snapshot.wf()
        &&& self@.wf()
    }

    /// What holds of every well-formed transaction.
    pub proof fn lemma_wf(&self)
        requires
            self.wf(),
        ensures
            self@.wf(),
    {
    }

    /// Begins a transaction against `store`. A write transaction keeps a
    /// snapshot of the store as it stands.
    pub fn begin(store: &Store, mode: TxMode) -> (txn: Transaction)
        requires
            store.wf(),
        ensures
            txn.wf(),
            txn@ == TxnModel::begun(store@, mode),
    {
        let snapshot = match mode {
            TxMode::Write => store.snapshot(),
            TxMode::Read => Store::new(),
        };
        let txn = Transaction { mode, status: TxStatus::Active, snapshot, writes: Vec::new() };
        assert(txn@.writes =~= Seq::empty());
        txn
    }

    /// The transaction's mode.
    pub fn mode(&self) -> (mode: TxMode)
        ensures
            mode == self@.mode,
    {
        self.mode
    }

    /// The transaction's status.
    pub fn status(&self) -> (status: TxStatus)
        ensures
            status == self@.status,
    {
        self.status
    }

    /// Whether the transaction is active.
    pub fn is_active(&self) -> (active: bool)
        ensures
            active == (self@.status == TxStatus::Active),
    {
        match self.status {
            TxStatus::Active => true,
            _ => false,
        }
    }

    /// Whether the transaction sees table `id`.
    pub fn knows_table(&self, id: u32) -> (known: bool)
        requires
            self.wf(),
        ensures
            known == self@.knows_table(id),
    {
        if self.snapshot.has_table(id) {
            return true;
        }
        let mut i: usize = 0;
        while i < self.writes.len()
            invariant
                i <= self.writes@.len(),
                !self@.creates_before(id, i as int),
            decreases self.writes@.len() - i,
        {
            match &self.writes[i] {
                WriteOp::CreateTable { table_id, .. } => {
                    if *table_id == id {
                        assert(self@.writes[i as int] is CreateTable);
                        assert(self@.creates_before(id, self.writes@.len() as int));
                        return true;
                    }
                },
                _ => {},
            }
            i = i + 1;
        }
        false
    }

    /// Why the transaction takes no write, if it takes none.
    fn write_refusal(&self) -> (refusal: Option<AncError>)
        ensures
            refusal == self@.write_refusal(),
    {
        match self.status {
            TxStatus::Active => match self.mode {
                TxMode::Read => Some(AncError::TransactionConflict),
                TxMode::Write => None,
            },
            _ => Some(AncError::NoActiveTransaction),
        }
    }

    /// Stages the creation of table `id`. Fails, and stages nothing, where
    /// the transaction takes no write or already sees the table.
    pub fn create_table(&mut self, id: u32, name: String) -> (done: Result<(), AncError>)
        requires
            old(self).wf(),
        ensures
            final(self).wf(),
            done == old(self)@.create_table_result(id),
            final(self)@ == old(self)@.create_table(id, name@),
    {
        if let Some(refusal) = self.write_refusal() {
            return Err(refusal);
        }
        if self.knows_table(id) {
            return Err(AncError::TableAlreadyExists);
        }
        let ghost before = self@;
        self.writes.push(WriteOp::CreateTable { table_id: id, name });
        proof {
            assert(self@.writes =~= before.create_table(id, name@).writes);
            before.lemma_create_table_keeps_wf(id, name@);
        }
        Ok(())
    }

    /// Stages `value` under `key` in table `id`. Fails, and stages nothing,
    /// where the transaction takes no write or does not see the table.
    pub fn put(&mut self, id: u32, key: i64, value: Vec<u8>) -> (done: Result<(), AncError>)
        requires
            old(self).wf(),
        ensures
            final(self).wf(),
            done == old(self)@.put_result(id),
            final(self)@ == old(self)@.put(id, key, value@),
    {
        if let Some(refusal) = self.write_refusal() {
            return Err(refusal);
        }
        if !self.knows_table(id) {
            return Err(AncError::TableNotFound);
        }
        let ghost before = self@;
        self.writes.push(WriteOp::Put { table_id: id, key, value });
        proof {
            assert(self@.writes =~= before.put(id, key, value@).writes);
            before.lemma_put_keeps_wf(id, key, value@);
        }
        Ok(())
    }

    /// Whether `store` still shows, for everything the staged writes touch,
    /// what the transaction saw when it began.
    pub fn validates(&self, store: &Store) -> (valid: bool)
        requires
            self.wf(),
            store.wf(),
        ensures
            valid == self@.validates(store@),
    {
        let mut i: usize = 0;
        while i < self.writes.len()
            invariant
                self.wf(),
                store.wf(),
                i <= self.writes@.len(),
                forall|k: int|
                    0 <= k < i ==> self@.snapshot.agrees_on(store@, #[trigger] self@.writes[k]),
            decreases self.writes@.len() - i,
        {
            let agrees: bool = match &self.writes[i] {
                WriteOp::CreateTable { table_id, .. } => self.snapshot.has_table(*table_id)
                    == store.has_table(*table_id),
                WriteOp::Put { table_id, key, .. } => {
                    let seen = self.snapshot.get(*table_id, *key);
                    let found = store.get(*table_id, *key);
                    self.snapshot.has_table(*table_id) == store.has_table(*table_id)
                        && same_value(&seen, &found)
                },
            };
            if !agrees {
                assert(!self@.snapshot.agrees_on(store@, self@.writes[i as int]));
                return false;
            }
            i = i + 1;
        }
        true
    }

    /// Ends an active transaction against `store`. A read transaction
    /// commits at once. A write transaction is validated: where `store`
    /// still agrees with the snapshot on everything the staged writes touch,
    /// the writes go into `store` together and the transaction is committed;
    /// otherwise `store` stays as it is and the transaction is aborted.
    pub fn commit(&mut self, store: &mut Store) -> (done: Result<(), AncError>)
        requires
            old(self).wf(),
            old(store).wf(),
        ensures
            final(self).wf(),
            final(store).wf(),
            done == old(self)@.commit_result(old(store)@),
            final(store)@ == old(self)@.commit_store(old(store)@),
            final(self)@ == old(self)@.commit(old(store)@),
    {
        if !self.is_active() {
            return Err(AncError::NoActiveTransaction);
        }
        let valid: bool = match self.mode {
            TxMode::Read => true,
            TxMode::Write => self.validates(store),
        };
        if valid {
            store.apply_all(&self.writes);
            self.status = TxStatus::Committed;
        } else {
            self.status = TxStatus::Aborted;
        }
        self.writes.clear();
        assert(self@.writes =~= Seq::empty());
        if valid {
            Ok(())
        } else {
            Err(AncError::TransactionConflict)
        }
    }

    /// Ends an active transaction without effect on any store, and drops
    /// its write set. A transaction that has ended stays as it is.
    pub fn abort(&mut self)
        requires
            old(self).wf(),
        ensures
            final(self).wf(),
            final(self)@ == old(self)@.abort(),
    {
        if self.is_active() {
            self.status = TxStatus::Aborted;
            self.writes.clear();
            assert(self@.writes =~= Seq::empty());
        }
    }
}

/// The owner of the single transaction slot.
pub struct TransactionManager {
    slot: Option<Transaction>,
}

impl View for TransactionManager {
    type V = Option<TxnModel>;

    closed spec fn view(&self) -> Option<TxnModel> {
        match self.slot {
            Some(txn) => Some(txn@),
            None => None,
        }
    }
}

impl TransactionManager {
    /// The manager's invariant: the transaction in the slot is well formed
    /// and active.
    pub closed spec fn wf(&self) -> bool {
        self.slot matches Some(txn) ==> txn.wf() && txn@.status == TxStatus::Active
    }

    /// The manager together with the committed state it works on.
    pub open spec fn over(&self, store: StoreModel) -> DbModel {
        DbModel { store, slot: self@ }
    }

    /// What holds of every well-formed manager.
    pub proof fn lemma_wf(&self)
        requires
            self.wf(),
        ensures
            self@ matches Some(txn) ==> txn.wf() && txn.status == TxStatus::Active,
    {
    }

    /// A manager with a free slot.
    pub fn new() -> (manager: TransactionManager)
        ensures
            manager.wf(),
            manager@ is None,
    {
        TransactionManager { slot: None }
    }

    /// The mode of the active transaction, if there is one.
    pub fn active_mode(&self) -> (mode: Option<TxMode>)
        ensures
            mode == (match self@ {
                Some(txn) => Some(txn.mode),
                None => None,
            }),
    {
        match &self.slot {
            Some(txn) => Some(txn.mode()),
            None => None,
        }
    }

    /// Begins a transaction against `store`. Fails with
    /// `TransactionConflict`, and changes nothing, where a write transaction
    /// is asked for while one is active. Otherwise a fresh transaction takes
    /// the slot.
    pub fn begin(&mut self, store: &Store, mode: TxMode) -> (done: Result<(), AncError>)
        requires
            old(self).wf(),
            store.wf(),
        ensures
            final(self).wf(),
            done == old(self).over(store@).begin_result(mode),
            final(self).over(store@) == old(self).over(store@).begin(mode),
    {
        let active = self.active_mode();
        match (mode, active) {
            (TxMode::Write, Some(TxMode::Write)) => Err(AncError::TransactionConflict),
            _ => {
                self.slot = Some(Transaction::begin(store, mode));
                Ok(())
            },
        }
    }

    /// Commits the active transaction against `store` and frees the slot.
    /// Fails with `NoActiveTransaction` where the slot is free, and with
    /// `TransactionConflict` where the transaction does not validate.
    pub fn commit(&mut self, store: &mut Store) -> (done: Result<(), AncError>)
        requires
            old(self).wf(),
            old(store).wf(),
        ensures
            final(self).wf(),
            final(store).wf(),
            done == old(self).over(old(store)@).commit_result(),
            final(self).over(final(store)@) == old(self).over(old(store)@).commit(),
    {
        match self.slot.take() {
            Some(mut txn) => txn.commit(store),
            None => Err(AncError::NoActiveTransaction),
        }
    }

    /// Aborts the active transaction, if there is one, and frees the slot.
    pub fn abort(&mut self) -> (done: Result<(), AncError>)
        requires
            old(self).wf(),
        ensures
            final(self).wf(),
            done is Ok,
            final(self)@ is None,
    {
        if let Some(mut txn) = self.slot.take() {
            txn.abort();
        }
        Ok(())
    }

    /// Stages the creation of table `id` in the active transaction.
    pub fn create_table(&mut self, id: u32, name: String) -> (done: Result<(), AncError>)
        requires
            old(self).wf(),
        ensures
            final(self).wf(),
            done == (match old(self)@ {
                Some(txn) => txn.create_table_result(id),
                None => Err(AncError::NoActiveTransaction),
            }),
            final(self)@ == (match old(self)@ {
                Some(txn) => Some(txn.create_table(id, name@)),
                None => None,
            }),
    {
        match &mut self.slot {
            Some(txn) => txn.create_table(id, name),
            None => Err(AncError::NoActiveTransaction),
        }
    }

    /// Stages `value` under `key` in table `id` in the active transaction.
    pub fn put(&mut self, id: u32, key: i64, value: Vec<u8>) -> (done: Result<(), AncError>)
        requires
            old(self).wf(),
        ensures
            final(self).wf(),
            done == (match old(self)@ {
                Some(txn) => txn.put_result(id),
                None => Err(AncError::NoActiveTransaction),
            }),
            final(self)@ == (match old(self)@ {
                Some(txn) => Some(txn.put(id, key, value@)),
                None => None,
            }),
    {
        match &mut self.slot {
            Some(txn) => txn.put(id, key, value),
            None => Err(AncError::NoActiveTransaction),
        }
    }
}

} // verus!
