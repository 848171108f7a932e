//! What holds across calls: laws of the store, the transactions and the
//! database, stated over their models and proved.

use vstd::prelude::*;
use crate::error::AncError;
use crate::executor::executes;
use crate::model::{is_scan, past, DbModel, StoreModel, TxMode, TxStatus, TxnModel, WriteModel};
use crate::protocol::{CommandModel, ResponseModel, ResultModel};

verus! {

/// Whether one of the writes creates table `id`.
pub open spec fn creates(writes: Seq<WriteModel>, id: u32) -> bool {
    exists|j: int|
        0 <= j < writes.len() && #[trigger] writes[j] is CreateTable && writes[j].table() == id
}

/// Whether the write is a put under `key` in table `id`.
pub open spec fn puts_under(write: WriteModel, id: u32, key: i64) -> bool {
    write matches WriteModel::Put { table_id, key: k, .. } && table_id == id && k == key
}

/// Writes never remove a table: after them the tables are those that were
/// there and those that the writes create.
pub proof fn lemma_tables_after_writes(store: StoreModel, writes: Seq<WriteModel>, id: u32)
    ensures
        store.apply_all(writes).has_table(id) <==> store.has_table(id) || creates(writes, id),
    decreases writes.len(),
{
    if writes.len() > 0 {
        let front = writes.drop_last();
        lemma_tables_after_writes(store, front, id);
        if creates(front, id) {
            let j = choose|j: int|
                0 <= j < front.len() && #[trigger] front[j] is CreateTable && front[j].table()
                    == id;
            assert(writes[j] == front[j]);
        }
        if creates(writes, id) {
            let j = choose|j: int|
                0 <= j < writes.len() && #[trigger] writes[j] is CreateTable && writes[j].table()
                    == id;
            if j < front.len() {
                assert(front[j] == writes[j]);
            }
        }
        if writes.last() is CreateTable && writes.last().table() == id {
            assert(writes[writes.len() - 1] is CreateTable);
        }
    }
}

/// The last put under a key decides what the key holds after the writes,
/// provided the table was there when that put was applied.
pub proof fn lemma_last_put_wins(store: StoreModel, writes: Seq<WriteModel>, i: int)
    requires
        0 <= i < writes.len(),
        writes[i] is Put,
        store.apply_all(writes.take(i)).has_table(writes[i].table()),
        forall|j: int|
            i < j < writes.len() ==> !puts_under(
                #[trigger] writes[j],
                writes[i].table(),
                writes[i]->Put_key,
            ),
    ensures
        store.apply_all(writes).value(writes[i].table(), writes[i]->Put_key) == Some(
            writes[i]->Put_value,
        ),
    decreases writes.len(),
{
    let front = writes.drop_last();
    if i == writes.len() - 1 {
        assert(front =~= writes.take(i));
    } else {
        assert(front.take(i) =~= writes.take(i));
        assert(front[i] == writes[i]);
        assert forall|j: int| i < j < front.len() implies !puts_under(
            #[trigger] front[j],
            front[i].table(),
            front[i]->Put_key,
        ) by {
            assert(front[j] == writes[j]);
        }
        lemma_last_put_wins(store, front, i);
        assert(!puts_under(writes[writes.len() - 1], writes[i].table(), writes[i]->Put_key));
    }
}

/// In a well-formed transaction that validates against `store`, each staged
/// put finds its table there when its turn comes.
pub proof fn lemma_put_finds_table(txn: TxnModel, store: StoreModel, i: int)
    requires
        txn.wf(),
        txn.validates(store),
        0 <= i < txn.writes.len(),
        txn.writes[i] is Put,
    ensures
        store.apply_all(txn.writes.take(i)).has_table(txn.writes[i].table()),
{
    let id = txn.writes[i].table();
    lemma_tables_after_writes(store, txn.writes.take(i), id);
    if txn.snapshot.has_table(id) {
        assert(txn.snapshot.agrees_on(store, txn.writes[i]));
    } else {
        assert(txn.creates_before(id, i));
        let j = choose|j: int|
            0 <= j < i && j < txn.writes.len() && #[trigger] txn.writes[j] is CreateTable
                && txn.writes[j].table() == id;
        assert(txn.writes.take(i)[j] == txn.writes[j]);
        assert(creates(txn.writes.take(i), id));
    }
}

/// Write, then read: once a transaction has committed, a key that it put
/// holds the value of its last put under that key.
pub proof fn lemma_commit_then_read(txn: TxnModel, store: StoreModel, i: int)
    requires
        txn.wf(),
        txn.commit_result(store) is Ok,
        0 <= i < txn.writes.len(),
        txn.writes[i] is Put,
        forall|j: int|
            i < j < txn.writes.len() ==> !puts_under(
                #[trigger] txn.writes[j],
                txn.writes[i].table(),
                txn.writes[i]->Put_key,
            ),
    ensures
        txn.commit_store(store).value(txn.writes[i].table(), txn.writes[i]->Put_key) == Some(
            txn.writes[i]->Put_value,
        ),
{
    lemma_put_finds_table(txn, store, i);
    lemma_last_put_wins(store, txn.writes, i);
}

/// Write, then read, on the database: a put that was staged and then
/// committed is read back. Until the commit, reads see what they saw before
/// the put.
pub proof fn lemma_put_commit_read(db: DbModel, id: u32, key: i64, value: Seq<u8>)
    requires
        db.wf(),
        db.put_result(id) is Ok,
    ensures
        forall|t: u32, k: i64| db.put(id, key, value).read(t, k) == db.read(t, k),
        db.put(id, key, value).commit_result() is Ok ==> db.put(id, key, value).commit().read(
            id,
            key,
        ) == Some(value),
{
    let staged = db.put(id, key, value);
    if staged.commit_result() is Ok {
        let txn = staged.slot->0;
        let last = txn.writes.len() - 1;
        assert(txn.writes[last] == (WriteModel::Put { table_id: id, key, value }));
        db.slot->0.lemma_put_keeps_wf(id, key, value);
        lemma_commit_then_read(txn, db.store, last);
    }
}

/// A transaction validates against the state it began from.
pub proof fn lemma_validates_against_snapshot(txn: TxnModel)
    ensures
        txn.validates(txn.snapshot),
{
}

/// Conflict detection: of two write transactions that began from the same
/// state and put under the same key, the first to commit succeeds, and the
/// second then fails with `TransactionConflict`, provided the first commit
/// changed what the key holds.
pub proof fn lemma_second_writer_conflicts(
    first: TxnModel,
    second: TxnModel,
    store: StoreModel,
    i: int,
    j: int,
)
    requires
        first.wf(),
        second.wf(),
        first.status == TxStatus::Active,
        second.status == TxStatus::Active,
        first.snapshot == store,
        second.snapshot == store,
        0 <= i < first.writes.len(),
        0 <= j < second.writes.len(),
        first.writes[i] is Put,
        puts_under(second.writes[j], first.writes[i].table(), first.writes[i]->Put_key),
        forall|k: int|
            i < k < first.writes.len() ==> !puts_under(
                #[trigger] first.writes[k],
                first.writes[i].table(),
                first.writes[i]->Put_key,
            ),
        store.value(first.writes[i].table(), first.writes[i]->Put_key) != Some(
            first.writes[i]->Put_value,
        ),
    ensures
        first.commit_result(store) is Ok,
        second.commit_result(first.commit_store(store)) == Err::<(), AncError>(
            AncError::TransactionConflict,
        ),
        second.commit_store(first.commit_store(store)) == first.commit_store(store),
{
    lemma_commit_then_read(first, store, i);
    let later = first.commit_store(store);
    assert(!second.snapshot.agrees_on(later, second.writes[j]));
}

/// Conflict detection on the catalog: of two write transactions that began
/// from the same state and create the same table, the first to commit
/// succeeds and the second then fails with `TransactionConflict`.
pub proof fn lemma_second_creator_conflicts(
    first: TxnModel,
    second: TxnModel,
    store: StoreModel,
    i: int,
    j: int,
)
    requires
        first.wf(),
        second.wf(),
        first.status == TxStatus::Active,
        second.status == TxStatus::Active,
        first.snapshot == store,
        second.snapshot == store,
        0 <= i < first.writes.len(),
        0 <= j < second.writes.len(),
        first.writes[i] is CreateTable,
        second.writes[j] is CreateTable,
        second.writes[j].table() == first.writes[i].table(),
    ensures
        first.commit_result(store) is Ok,
        second.commit_result(first.commit_store(store)) == Err::<(), AncError>(
            AncError::TransactionConflict,
        ),
        second.commit_store(first.commit_store(store)) == first.commit_store(store),
{
    let id = first.writes[i].table();
    lemma_tables_after_writes(store, first.writes, id);
    let later = first.commit_store(store);
    assert(!second.snapshot.agrees_on(later, second.writes[j]));
}

/// One writer at a time: while a write transaction is active no second one
/// begins, and the failed begin changes nothing. A read transaction always
/// begins.
pub proof fn lemma_one_writer(db: DbModel)
    ensures
        db.begin(TxMode::Write).begin_result(TxMode::Write) == Err::<(), AncError>(
            AncError::TransactionConflict,
        ),
        db.begin(TxMode::Write).begin(TxMode::Write) == db.begin(TxMode::Write),
        db.begin_result(TxMode::Read) is Ok,
        db.begin(TxMode::Read).begin_result(TxMode::Read) is Ok,
{
}

/// Duplicate table creation: once a transaction has staged the creation of
/// a table, creating that id again fails with `TableAlreadyExists` and
/// changes nothing, whatever the name.
pub proof fn lemma_duplicate_table(db: DbModel, id: u32, first: Seq<char>, second: Seq<char>)
    requires
        db.create_table_result(id) is Ok,
    ensures
        db.create_table(id, first).create_table_result(id) == Err::<(), AncError>(
            AncError::TableAlreadyExists,
        ),
        db.create_table(id, first).create_table(id, second) == db.create_table(id, first),
{
    let txn = db.create_table(id, first).slot->0;
    assert(txn.writes[txn.writes.len() - 1] is CreateTable);
    assert(txn.creates_before(id, txn.writes.len() as int));
}

/// Duplicate table creation across a commit: a table that a committed
/// transaction created is in the catalog, so that every transaction begun
/// afterwards fails to create it with `TableAlreadyExists`, and the catalog
/// stays as it is.
pub proof fn lemma_committed_table_is_taken(
    db: DbModel,
    id: u32,
    first: Seq<char>,
    second: Seq<char>,
)
    requires
        db.create_table_result(id) is Ok,
        db.create_table(id, first).commit_result() is Ok,
    ensures
        ({
            let committed = db.create_table(id, first).commit();
            let again = committed.begin(TxMode::Write);
            &&& committed.store.has_table(id)
            &&& again.create_table_result(id) == Err::<(), AncError>(AncError::TableAlreadyExists)
            &&& again.create_table(id, second) == again
            &&& again.store == committed.store
        }),
{
    let txn = db.create_table(id, first).slot->0;
    assert(txn.writes[txn.writes.len() - 1] is CreateTable);
    assert(creates(txn.writes, id));
    lemma_tables_after_writes(db.store, txn.writes, id);
}

/// In a database a commit fails only where no transaction is active: the
/// committed state cannot change under the transaction that holds the slot.
pub proof fn lemma_commit_succeeds(db: DbModel)
    requires
        db.wf(),
    ensures
        db.commit_result() is Ok <==> db.slot is Some,
        db.slot is None ==> db.commit_result() == Err::<(), AncError>(
            AncError::NoActiveTransaction,
        ),
        db.commit().wf(),
{
}

/// Every step of the database keeps its invariant.
pub proof fn lemma_steps_keep_wf(db: DbModel, mode: TxMode, id: u32, key: i64, text: Seq<char>, value: Seq<u8>)
    requires
        db.wf(),
    ensures
        DbModel::opened().wf(),
        db.begin(mode).wf(),
        db.commit().wf(),
        db.abort().wf(),
        db.create_table(id, text).wf(),
        db.put(id, key, value).wf(),
{
    if db.slot is Some {
        db.slot->0.lemma_create_table_keeps_wf(id, text);
        db.slot->0.lemma_put_keeps_wf(id, key, value);
    }
}

/// Executing a command keeps the database's invariant. A `CreateTable` or
/// `Put` sent outside a transaction leaves none behind, whether it succeeds
/// or fails, and a failed one leaves the committed state as it was.
pub proof fn lemma_execution_keeps_wf(
    before: DbModel,
    cmd: CommandModel,
    after: DbModel,
    outcome: Result<ResponseModel, AncError>,
)
    requires
        before.wf(),
        executes(before, cmd, after, outcome),
    ensures
        after.wf(),
        before.slot is None && (cmd is CreateTable || cmd is Put) ==> after.slot is None,
        before.slot is None && (cmd is CreateTable || cmd is Put) && outcome is Err ==> after
            == before,
{
    match cmd {
        CommandModel::CreateTable { table_id, name, .. } => {
            if before.slot is Some {
                before.slot->0.lemma_create_table_keeps_wf(table_id, name);
            }
        },
        CommandModel::Put { table_id, key, value, .. } => {
            if before.slot is Some {
                before.slot->0.lemma_put_keeps_wf(table_id, key, value);
            }
        },
        _ => {},
    }
}

/// Write, then read, by commands: a `Put` sent outside a transaction into a
/// table of the catalog succeeds, and a `DirectRead` of its key that follows
/// it gives the value back.
pub proof fn lemma_put_command_then_read(
    before: DbModel,
    put: CommandModel,
    between: DbModel,
    written: Result<ResponseModel, AncError>,
    read: CommandModel,
    after: DbModel,
    found: Result<ResponseModel, AncError>,
)
    requires
        before.slot is None,
        put is Put,
        before.store.has_table(put->Put_table_id),
        executes(before, put, between, written),
        read is DirectRead,
        read->DirectRead_table_id == put->Put_table_id,
        read->DirectRead_key == put->Put_key,
        executes(between, read, after, found),
    ensures
        written == Ok::<ResponseModel, AncError>(
            ResponseModel::Okay { id: put->Put_id, result: ResultModel::Success },
        ),
        found == Ok::<ResponseModel, AncError>(
            ResponseModel::Okay {
                id: read->DirectRead_id,
                result: ResultModel::Value(put->Put_value),
            },
        ),
        after == between,
{
}

/// Duplicate table creation by commands: of two `CreateTable` commands for
/// one id sent outside a transaction, the second fails with
/// `TableAlreadyExists` and leaves the database as the first left it.
pub proof fn lemma_create_command_twice(
    before: DbModel,
    first: CommandModel,
    between: DbModel,
    made: Result<ResponseModel, AncError>,
    second: CommandModel,
    after: DbModel,
    again: Result<ResponseModel, AncError>,
)
    requires
        before.slot is None,
        first is CreateTable,
        second is CreateTable,
        second->CreateTable_table_id == first->CreateTable_table_id,
        executes(before, first, between, made),
        executes(between, second, after, again),
    ensures
        again == Err::<ResponseModel, AncError>(AncError::TableAlreadyExists),
        after == between,
{
}

/// Idempotent abort: with no transaction active an abort changes nothing,
/// and a second abort changes nothing after the first. No abort touches the
/// committed state.
pub proof fn lemma_abort_idempotent(db: DbModel)
    ensures
        db.slot is None ==> db.abort() == db,
        db.abort().abort() == db.abort(),
        db.abort().store == db.store,
{
}

/// A range scan is determined: two results for the same rows, bounds,
/// direction and limit are the same.
pub proof fn lemma_scan_unique(
    rows: Map<i64, Seq<u8>>,
    start: i64,
    end: i64,
    desc: bool,
    limit: nat,
    a: Seq<(i64, Seq<u8>)>,
    b: Seq<(i64, Seq<u8>)>,
)
    requires
        is_scan(rows, start, end, desc, limit, a),
        is_scan(rows, start, end, desc, limit, b),
    ensures
        a == b,
{
    lemma_scan_prefix(rows, start, end, desc, limit, a, b, a.len() as int);
    lemma_scan_prefix(rows, start, end, desc, limit, b, a, b.len() as int);
    assert(a =~= b);
}

/// Two scans of the same rows agree on the first `n` entries of the first,
/// and the second has that many.
proof fn lemma_scan_prefix(
    rows: Map<i64, Seq<u8>>,
    start: i64,
    end: i64,
    desc: bool,
    limit: nat,
    a: Seq<(i64, Seq<u8>)>,
    b: Seq<(i64, Seq<u8>)>,
    n: int,
)
    requires
        is_scan(rows, start, end, desc, limit, a),
        is_scan(rows, start, end, desc, limit, b),
        0 <= n <= a.len(),
    ensures
        n <= b.len(),
        forall|i: int| 0 <= i < n ==> a[i] == b[i],
    decreases n,
{
    if n > 0 {
        lemma_scan_prefix(rows, start, end, desc, limit, a, b, n - 1);
        let m = n - 1;
        let key = a[m].0;
        assert(rows.contains_key(key) && start <= key <= end);
        // The key of a[m] stands in b, and it can stand nowhere but at m.
        if exists|i: int| 0 <= i < b.len() && (#[trigger] b[i]).0 == key {
            let p = choose|i: int| 0 <= i < b.len() && (#[trigger] b[i]).0 == key;
            if p < m {
                assert(a[p] == b[p]);
                assert(past(desc, a[p].0, a[m].0));
            } else if p > m {
                let other = b[m].0;
                assert(past(desc, b[m].0, b[p].0));
                assert(rows.contains_key(other) && start <= other <= end);
                if exists|i: int| 0 <= i < a.len() && (#[trigger] a[i]).0 == other {
                    let q = choose|i: int| 0 <= i < a.len() && (#[trigger] a[i]).0 == other;
                    if q < m {
                        assert(a[q] == b[q]);
                        assert(past(desc, b[q].0, b[m].0));
                    } else if q > m {
                        assert(past(desc, a[m].0, a[q].0));
                    }
                } else {
                    assert(past(desc, a.last().0, other));
                    if m < a.len() - 1 {
                        assert(past(desc, a[m].0, a[a.len() - 1].0));
                    }
                }
            }
            assert(p == m);
            assert(rows[key] == a[m].1);
            assert(rows[b[m].0] == b[m].1);
        } else {
            assert(b.len() == limit);
            if b.len() > 0 {
                assert(past(desc, b.last().0, key));
                if m < b.len() {
                    if m < b.len() - 1 {
                        assert(past(desc, b[m].0, b[b.len() - 1].0));
                    }
                    let other = b[m].0;
                    assert(rows.contains_key(other) && start <= other <= end);
                    if exists|i: int| 0 <= i < a.len() && (#[trigger] a[i]).0 == other {
                        let q = choose|i: int| 0 <= i < a.len() && (#[trigger] a[i]).0 == other;
                        if q < m {
                            assert(a[q] == b[q]);
                            assert(past(desc, b[q].0, b[m].0));
                        } else if q > m {
                            assert(past(desc, a[m].0, a[q].0));
                        }
                    } else {
                        assert(past(desc, a.last().0, other));
                        if m < a.len() - 1 {
                            assert(past(desc, a[m].0, a[a.len() - 1].0));
                        }
                    }
                }
            }
        }
    }
}

/// A scan whose bounds are crossed, whose limit is zero, or that finds no
/// rows, as in an unknown table, is empty, whatever the direction.
pub proof fn lemma_scan_empty(
    rows: Map<i64, Seq<u8>>,
    start: i64,
    end: i64,
    desc: bool,
    limit: nat,
    out: Seq<(i64, Seq<u8>)>,
)
    requires
        is_scan(rows, start, end, desc, limit, out),
        start > end || limit == 0 || rows == Map::<i64, Seq<u8>>::empty(),
    ensures
        out.len() == 0,
{
    if out.len() > 0 {
        assert(start <= out[0].0 <= end);
        assert(rows.contains_key(out[0].0));
    }
}

} // verus!
