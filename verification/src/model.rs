//! The committed state and staged writes as mathematical values. Every
//! contract of the store, the transactions and the database is stated over
//! these.

use vstd::prelude::*;
use crate::error::AncError;

verus! {

/// A table: its name, and the value held under each key.
#[verifier::ext_equal]
pub struct TableModel {
    pub name: Seq<char>,
    pub rows: Map<i64, Seq<u8>>,
}

/// One staged write.
#[verifier::ext_equal]
pub enum WriteModel {
    CreateTable { table_id: u32, name: Seq<char> },
    Put { table_id: u32, key: i64, value: Seq<u8> },
}

impl WriteModel {
    /// The table that the write touches.
    pub open spec fn table(self) -> u32 {
        match self {
            WriteModel::CreateTable { table_id, .. } => table_id,
            WriteModel::Put { table_id, .. } => table_id,
        }
    }
}

/// The committed state: the catalog of tables by id, each with its rows.
#[verifier::ext_equal]
pub struct StoreModel {
    pub tables: Map<u32, TableModel>,
}

impl StoreModel {
    /// The state with no table.
    pub open spec fn empty() -> StoreModel {
        StoreModel { tables: Map::empty() }
    }

    /// Whether `id` names a table.
    pub open spec fn has_table(self, id: u32) -> bool {
        self.tables.contains_key(id)
    }

    /// The rows of table `id`; none where the table is unknown.
    pub open spec fn rows(self, id: u32) -> Map<i64, Seq<u8>> {
        if self.has_table(id) {
            self.tables[id].rows
        } else {
            Map::empty()
        }
    }

    /// The value under `key` in table `id`, if there is one.
    pub open spec fn value(self, id: u32, key: i64) -> Option<Seq<u8>> {
        if self.rows(id).contains_key(key) {
            Some(self.rows(id)[key])
        } else {
            None
        }
    }

    /// The state with an empty table `id` added. A taken id keeps its table.
    pub open spec fn create_table(self, id: u32, name: Seq<char>) -> StoreModel {
        if self.has_table(id) {
            self
        } else {
            StoreModel { tables: self.tables.insert(id, TableModel { name, rows: Map::empty() }) }
        }
    }

    /// The state with `value` under `key` in table `id`. An unknown table
    /// takes no row.
    pub open spec fn put(self, id: u32, key: i64, value: Seq<u8>) -> StoreModel {
        if self.has_table(id) {
            let table = self.tables[id];
            StoreModel {
                tables: self.tables.insert(
                    id,
                    TableModel { name: table.name, rows: table.rows.insert(key, value) },
                ),
            }
        } else {
            self
        }
    }

    /// The state after one write.
    pub open spec fn apply(self, write: WriteModel) -> StoreModel {
        match write {
            WriteModel::CreateTable { table_id, name } => self.create_table(table_id, name),
            WriteModel::Put { table_id, key, value } => self.put(table_id, key, value),
        }
    }

    /// The state after the writes, first to last.
    pub open spec fn apply_all(self, writes: Seq<WriteModel>) -> StoreModel
        decreases writes.len(),
    {
        if writes.len() == 0 {
            self
        } else {
            self.apply_all(writes.drop_last()).apply(writes.last())
        }
    }

    /// Whether the two states agree on what `write` touches: on the table's
    /// existence, and for a put on the value under its key.
    pub open spec fn agrees_on(self, other: StoreModel, write: WriteModel) -> bool {
        match write {
            WriteModel::CreateTable { table_id, .. } => self.has_table(table_id)
                == other.has_table(table_id),
            WriteModel::Put { table_id, key, .. } => {
                &&& self.has_table(table_id) == other.has_table(table_id)
                &&& self.value(table_id, key) == other.value(table_id, key)
            },
        }
    }
}

/// What a transaction may do.
#[derive(Clone, Copy, Debug, PartialEq, Eq, Structural)]
pub enum TxMode {
    Read,
    Write,
}

/// Where a transaction stands in its life.
#[derive(Clone, Copy, Debug, PartialEq, Eq, Structural)]
pub enum TxStatus {
    Active,
    Committed,
    Aborted,
}

/// A transaction: its mode and status, the committed state it began from,
/// and the writes it has staged, oldest first.
#[verifier::ext_equal]
pub struct TxnModel {
    pub mode: TxMode,
    pub status: TxStatus,
    pub snapshot: StoreModel,
    pub writes: Seq<WriteModel>,
}

impl TxnModel {
    /// The transaction that begins against `store`. Only a write
    /// transaction records the state it began from.
    pub open spec fn begun(store: StoreModel, mode: TxMode) -> TxnModel {
        TxnModel {
            mode,
            status: TxStatus::Active,
            snapshot: if mode == TxMode::Write {
                store
            } else {
                StoreModel::empty()
            },
            writes: Seq::empty(),
        }
    }

    /// Whether a write numbered below `upto` creates table `id`.
    pub open spec fn creates_before(self, id: u32, upto: int) -> bool {
        exists|j: int|
            0 <= j < upto && j < self.writes.len() && #[trigger] self.writes[j]
                is CreateTable && self.writes[j].table() == id
    }

    /// Whether the transaction sees table `id`: it was there at the
    /// beginning, or the transaction has staged its creation.
    pub open spec fn knows_table(self, id: u32) -> bool {
        self.snapshot.has_table(id) || self.creates_before(id, self.writes.len() as int)
    }

    /// The transaction's invariant. One that has ended, or only reads, holds
    /// no writes. A staged put goes to a table that the transaction saw when
    /// it was staged, and a staged creation to an id that it did not see.
    pub open spec fn wf(self) -> bool {
        &&& self.status != TxStatus::Active ==> self.writes.len() == 0
        &&& self.mode == TxMode::Read ==> self.writes.len() == 0
        &&& forall|i: int|
            0 <= i < self.writes.len() ==> match #[trigger] self.writes[i] {
                WriteModel::CreateTable { table_id, .. } => !self.snapshot.has_table(table_id)
                    && !self.creates_before(table_id, i),
                WriteModel::Put { table_id, .. } => self.snapshot.has_table(table_id)
                    || self.creates_before(table_id, i),
            }
    }

    /// Why the transaction takes no write, if it takes none: it has ended,
    /// or it only reads.
    pub open spec fn write_refusal(self) -> Option<AncError> {
        if self.status != TxStatus::Active {
            Some(AncError::NoActiveTransaction)
        } else if self.mode == TxMode::Read {
            Some(AncError::TransactionConflict)
        } else {
            None
        }
    }

    /// How staging the creation of table `id` ends.
    pub open spec fn create_table_result(self, id: u32) -> Result<(), AncError> {
        if self.write_refusal() is Some {
            Err(self.write_refusal()->0)
        } else if self.knows_table(id) {
            Err(AncError::TableAlreadyExists)
        } else {
            Ok(())
        }
    }

    /// The transaction after staging the creation of table `id`; unchanged
    /// where that fails.
    pub open spec fn create_table(self, id: u32, name: Seq<char>) -> TxnModel {
        if self.create_table_result(id) is Ok {
            TxnModel {
                writes: self.writes.push(WriteModel::CreateTable { table_id: id, name }),
                ..self
            }
        } else {
            self
        }
    }

    /// How staging a put into table `id` ends.
    pub open spec fn put_result(self, id: u32) -> Result<(), AncError> {
        if self.write_refusal() is Some {
            Err(self.write_refusal()->0)
        } else if !self.knows_table(id) {
            Err(AncError::TableNotFound)
        } else {
            Ok(())
        }
    }

    /// The transaction after staging `value` under `key` in table `id`;
    /// unchanged where that fails.
    pub open spec fn put(self, id: u32, key: i64, value: Seq<u8>) -> TxnModel {
        if self.put_result(id) is Ok {
            TxnModel {
                writes: self.writes.push(WriteModel::Put { table_id: id, key, value }),
                ..self
            }
        } else {
            self
        }
    }

    /// Whether `store` still shows, for everything the staged writes touch,
    /// what the transaction saw when it began.
    pub open spec fn validates(self, store: StoreModel) -> bool {
        forall|i: int|
            0 <= i < self.writes.len() ==> self.snapshot.agrees_on(store, #[trigger] self.writes[i])
    }

    /// How a commit against `store` ends.
    pub open spec fn commit_result(self, store: StoreModel) -> Result<(), AncError> {
        if self.status != TxStatus::Active {
            Err(AncError::NoActiveTransaction)
        } else if self.mode == TxMode::Write && !self.validates(store) {
            Err(AncError::TransactionConflict)
        } else {
            Ok(())
        }
    }

    /// The committed state after a commit against `store`: the staged
    /// writes are in it where the commit succeeds, none of them otherwise.
    pub open spec fn commit_store(self, store: StoreModel) -> StoreModel {
        if self.commit_result(store) is Ok {
            store.apply_all(self.writes)
        } else {
            store
        }
    }

    /// The transaction after a commit against `store`. An active one ends,
    /// committed or, on conflict, aborted; its write set is gone.
    pub open spec fn commit(self, store: StoreModel) -> TxnModel {
        if self.status != TxStatus::Active {
            self
        } else {
            TxnModel {
                status: if self.commit_result(store) is Ok {
                    TxStatus::Committed
                } else {
                    TxStatus::Aborted
                },
                writes: Seq::empty(),
                ..self
            }
        }
    }

    /// The transaction after an abort. An active one ends aborted and its
    /// write set is gone; one that has ended stays as it is.
    pub open spec fn abort(self) -> TxnModel {
        if self.status != TxStatus::Active {
            self
        } else {
            TxnModel { status: TxStatus::Aborted, writes: Seq::empty(), ..self }
        }
    }
    /// A write staged after the others leaves the transaction well formed,
    /// where it is a put into a table that the transaction sees or the
    /// creation of one that it does not see.
    proof fn lemma_push_keeps_wf(self, write: WriteModel)
        requires
            self.wf(),
            self.write_refusal() is None,
            match write {
                WriteModel::CreateTable { table_id, .. } => !self.knows_table(table_id),
                WriteModel::Put { table_id, .. } => self.knows_table(table_id),
            },
        ensures
            (TxnModel { writes: self.writes.push(write), ..self }).wf(),
    {
        let after = TxnModel { writes: self.writes.push(write), ..self };
        let n = self.writes.len() as int;
        assert forall|i: int, id: u32| 0 <= i <= n implies (after.creates_before(id, i)
            <==> self.creates_before(id, i)) by {
            if after.creates_before(id, i) {
                let j = choose|j: int|
                    0 <= j < i && j < after.writes.len() && #[trigger] after.writes[j]
                        is CreateTable && after.writes[j].table() == id;
                assert(self.writes[j] == after.writes[j]);
            }
            if self.creates_before(id, i) {
                let j = choose|j: int|
                    0 <= j < i && j < self.writes.len() && #[trigger] self.writes[j]
                        is CreateTable && self.writes[j].table() == id;
                assert(self.writes[j] == after.writes[j]);
            }
        }
        assert forall|i: int| 0 <= i < after.writes.len() implies match #[trigger] after.writes[i] {
            WriteModel::CreateTable { table_id, .. } => !after.snapshot.has_table(table_id)
                && !after.creates_before(table_id, i),
            WriteModel::Put { table_id, .. } => after.snapshot.has_table(table_id)
                || after.creates_before(table_id, i),
        } by {
            if i < n {
                assert(self.writes[i] == after.writes[i]);
            }
        }
    }

    /// Staging the creation of a table keeps the transaction well formed.
    pub proof fn lemma_create_table_keeps_wf(self, id: u32, name: Seq<char>)
        requires
            self.wf(),
        ensures
            self.create_table(id, name).wf(),
    {
        if self.create_table_result(id) is Ok {
            self.lemma_push_keeps_wf(WriteModel::CreateTable { table_id: id, name });
        }
    }

    /// Staging a put keeps the transaction well formed.
    pub proof fn lemma_put_keeps_wf(self, id: u32, key: i64, value: Seq<u8>)
        requires
            self.wf(),
        ensures
            self.put(id, key, value).wf(),
    {
        if self.put_result(id) is Ok {
            self.lemma_push_keeps_wf(WriteModel::Put { table_id: id, key, value });
        }
    }
}

/// A database: the committed state, and the transaction that holds the slot,
/// if one does.
#[verifier::ext_equal]
pub struct DbModel {
    pub store: StoreModel,
    pub slot: Option<TxnModel>,
}

impl DbModel {
    /// A database as it is opened: no table, no transaction.
    pub open spec fn opened() -> DbModel {
        DbModel { store: StoreModel::empty(), slot: None }
    }

    /// The database's invariant: the transaction in the slot is well formed
    /// and active, and a write transaction there began from the committed
    /// state as it still stands, since nothing is committed while it holds
    /// the slot.
    pub open spec fn wf(self) -> bool {
        self.slot matches Some(txn) ==> {
            &&& txn.wf()
            &&& txn.status == TxStatus::Active
            &&& txn.mode == TxMode::Write ==> txn.snapshot == self.store
        }
    }

    /// The mode of the active transaction, if there is one.
    pub open spec fn active_mode(self) -> Option<TxMode> {
        match self.slot {
            Some(txn) => Some(txn.mode),
            None => None,
        }
    }

    /// How a begin ends: a write transaction cannot begin while another is
    /// active.
    pub open spec fn begin_result(self, mode: TxMode) -> Result<(), AncError> {
        if mode == TxMode::Write && self.active_mode() == Some(TxMode::Write) {
            Err(AncError::TransactionConflict)
        } else {
            Ok(())
        }
    }

    /// The database after a begin: a fresh transaction takes the slot, and
    /// the one that held it is dropped with what it staged. Unchanged where
    /// the begin fails.
    pub open spec fn begin(self, mode: TxMode) -> DbModel {
        if self.begin_result(mode) is Ok {
            DbModel { slot: Some(TxnModel::begun(self.store, mode)), ..self }
        } else {
            self
        }
    }

    /// How a commit ends.
    pub open spec fn commit_result(self) -> Result<(), AncError> {
        match self.slot {
            Some(txn) => txn.commit_result(self.store),
            None => Err(AncError::NoActiveTransaction),
        }
    }

    /// The database after a commit: the slot is free, and the staged writes
    /// are in the committed state where the commit succeeds.
    pub open spec fn commit(self) -> DbModel {
        match self.slot {
            Some(txn) => DbModel { store: txn.commit_store(self.store), slot: None },
            None => self,
        }
    }

    /// The database after an abort: the slot is free and the committed state
    /// is as it was.
    pub open spec fn abort(self) -> DbModel {
        DbModel { slot: None, ..self }
    }

    /// How staging the creation of table `id` ends.
    pub open spec fn create_table_result(self, id: u32) -> Result<(), AncError> {
        match self.slot {
            Some(txn) => txn.create_table_result(id),
            None => Err(AncError::NoActiveTransaction),
        }
    }

    /// The database after staging the creation of table `id`.
    pub open spec fn create_table(self, id: u32, name: Seq<char>) -> DbModel {
        match self.slot {
            Some(txn) => DbModel { slot: Some(txn.create_table(id, name)), ..self },
            None => self,
        }
    }

    /// How staging a put into table `id` ends.
    pub open spec fn put_result(self, id: u32) -> Result<(), AncError> {
        match self.slot {
            Some(txn) => txn.put_result(id),
            None => Err(AncError::NoActiveTransaction),
        }
    }

    /// The database after staging `value` under `key` in table `id`.
    pub open spec fn put(self, id: u32, key: i64, value: Seq<u8>) -> DbModel {
        match self.slot {
            Some(txn) => DbModel { slot: Some(txn.put(id, key, value)), ..self },
            None => self,
        }
    }

    /// The committed value under `key` in table `id`, if there is one.
    pub open spec fn read(self, id: u32, key: i64) -> Option<Seq<u8>> {
        self.store.value(id, key)
    }
}

/// Whether `key` lies past `last` in the direction of a scan.
pub open spec fn past(desc: bool, last: i64, key: i64) -> bool {
    if desc {
        key < last
    } else {
        key > last
    }
}

/// Whether `out` is the range scan of `rows`: the entries with a key in
/// `[start, end]`, ascending by key or descending where `desc` is set, cut
/// off after `limit` entries.
pub open spec fn is_scan(
    rows: Map<i64, Seq<u8>>,
    start: i64,
    end: i64,
    desc: bool,
    limit: nat,
    out: Seq<(i64, Seq<u8>)>,
) -> bool {
    &&& out.len() <= limit
    &&& forall|i: int|
        0 <= i < out.len() ==> {
            &&& start <= (#[trigger] out[i]).0 <= end
            &&& rows.contains_key(out[i].0)
            &&& rows[out[i].0] == out[i].1
        }
    &&& forall|i: int, j: int|
        0 <= i < j < out.len() ==> past(desc, (#[trigger] out[i]).0, (#[trigger] out[j]).0)
    &&& forall|key: i64|
        #[trigger] rows.contains_key(key) && start <= key <= end ==> {
            ||| exists|i: int| 0 <= i < out.len() && (#[trigger] out[i]).0 == key
            ||| out.len() == limit && (limit == 0 || past(desc, out.last().0, key))
        }
}

} // verus!
