//! The command executor: one command against the database, one response.

use vstd::prelude::*;
use vstd::string::*;
use crate::db::Database;
use crate::error::AncError;
use crate::model::{is_scan, DbModel, StoreModel, TxMode, TxnModel, WriteModel};
use crate::protocol::{
    mode_named,
    parse_mode,
    CommandModel,
    CommandResult,
    ProtocolCommand,
    ProtocolResponse,
    ResponseModel,
    ResultModel,
};

verus! {

/// The outcome of a command, the response by its view.
pub open spec fn outcome_view(outcome: Result<ProtocolResponse, AncError>) -> Result<
    ResponseModel,
    AncError,
> {
    match outcome {
        Ok(response) => Ok(response@),
        Err(e) => Err(e),
    }
}

/// The outcome of a command that gives nothing back but success: the
/// `Success` response under the command's id, or the error.
pub open spec fn acknowledged(id: u32, done: Result<(), AncError>) -> Result<
    ResponseModel,
    AncError,
> {
    match done {
        Ok(_) => Ok(ResponseModel::Okay { id, result: ResultModel::Success }),
        Err(e) => Err(e),
    }
}

/// What a read gives back: the value, or plain success where the key holds
/// none.
pub open spec fn read_result(found: Option<Seq<u8>>) -> ResultModel {
    match found {
        Some(bytes) => ResultModel::Value(bytes),
        None => ResultModel::Success,
    }
}

/// Whether `after` and `outcome` are what executing `cmd` on `before` gives.
///
/// A `CreateTable` or `Put` joins the active transaction where there is one:
/// it is staged there and nothing is committed. Where none is active the
/// command runs in a write transaction of its own, which is committed if the
/// command succeeds and dropped if it fails; either way the slot is free
/// again afterwards. Reads and scans see the committed state and change
/// nothing. `BeginTransaction` and `CommitTransaction` open and close the
/// explicit scope; a mode other than `Read` or `Write` is not served.
pub open spec fn executes(
    before: DbModel,
    cmd: CommandModel,
    after: DbModel,
    outcome: Result<ResponseModel, AncError>,
) -> bool {
    match cmd {
        CommandModel::CreateTable { id, table_id, name } => if before.slot is Some {
            &&& after == before.create_table(table_id, name)
            &&& outcome == acknowledged(id, before.create_table_result(table_id))
        } else {
            &&& after == (DbModel {
                store: before.store.create_table(table_id, name),
                slot: None,
            })
            &&& outcome == acknowledged(
                id,
                if before.store.has_table(table_id) {
                    Err(AncError::TableAlreadyExists)
                } else {
                    Ok(())
                },
            )
        },
        CommandModel::Put { id, table_id, key, value } => if before.slot is Some {
            &&& after == before.put(table_id, key, value)
            &&& outcome == acknowledged(id, before.put_result(table_id))
        } else {
            &&& after == (DbModel { store: before.store.put(table_id, key, value), slot: None })
            &&& outcome == acknowledged(
                id,
                if before.store.has_table(table_id) {
                    Ok(())
                } else {
                    Err(AncError::TableNotFound)
                },
            )
        },
        CommandModel::DirectRead { id, table_id, key } => {
            &&& after == before
            &&& outcome == Ok::<ResponseModel, AncError>(
                ResponseModel::Okay { id, result: read_result(before.read(table_id, key)) },
            )
        },
        CommandModel::RangeScan { id, table_id, start_key, end_key, desc, limit } => {
            &&& after == before
            &&& outcome matches Ok(ResponseModel::Okay { id: answered, result: ResultModel::ScanResult(out) })
            &&& answered == id
            &&& is_scan(before.store.rows(table_id), start_key, end_key, desc, limit as nat, out)
        },
        CommandModel::BeginTransaction { id, mode } => match mode_named(mode) {
            Some(mode) => {
                &&& after == before.begin(mode)
                &&& outcome == acknowledged(id, before.begin_result(mode))
            },
            None => {
                &&& after == before
                &&& outcome == Err::<ResponseModel, AncError>(AncError::NotImplemented)
            },
        },
        CommandModel::CommitTransaction { id } => {
            &&& after == before.commit()
            &&& outcome == acknowledged(id, before.commit_result())
        },
    }
}

/// A write transaction that staged one write since it began against `store`
/// validates against `store`, and its commit applies that write.
pub proof fn lemma_single_write_commits(store: StoreModel, write: WriteModel)
    ensures
        ({
            let txn = TxnModel { writes: seq![write], ..TxnModel::begun(store, TxMode::Write) };
            &&& txn.commit_result(store) is Ok
            &&& txn.commit_store(store) == store.apply(write)
        }),
{
    let txn = TxnModel { writes: seq![write], ..TxnModel::begun(store, TxMode::Write) };
    assert(txn.writes.drop_last() =~= Seq::empty());
    assert(store.apply_all(txn.writes.drop_last()) == store);
    assert(txn.writes.last() == write);
}

/// Turns the end of a command that gives nothing back into its outcome.
fn acknowledge(id: u32, done: Result<(), AncError>) -> (outcome: Result<ProtocolResponse, AncError>)
    ensures
        outcome_view(outcome) == acknowledged(id, done),
{
    match done {
        Ok(_) => Ok(ProtocolResponse::Okay { id, result: CommandResult::Success }),
        Err(e) => Err(e),
    }
}

/// Executes one command against the database.
pub fn execute_command(db: &mut Database, cmd: ProtocolCommand) -> (outcome: Result<
    ProtocolResponse,
    AncError,
>)
    requires
        old(db).wf(),
    ensures
        final(db).wf(),
        final(db).spec_location() == old(db).spec_location(),
        executes(old(db)@, cmd@, final(db)@, outcome_view(outcome)),
{
    proof {
        db.lemma_wf();
    }
    match cmd {
        ProtocolCommand::CreateTable { id, table_id, name } => {
            if db.in_transaction() {
                let done = db.create_table(table_id, name.as_str());
                acknowledge(id, done)
            } else {
                let _ = db.begin_tx(TxMode::Write);
                let staged = db.create_table(table_id, name.as_str());
                let done = match staged {
                    Ok(_) => db.commit_tx(),
                    Err(e) => {
                        let _ = db.abort_tx();
                        Err(e)
                    },
                };
                proof {
                    let write = WriteModel::CreateTable { table_id, name: name@ };
                    lemma_single_write_commits(old(db)@.store, write);
                    let begun = TxnModel::begun(old(db)@.store, TxMode::Write);
                    assert(begun.writes.push(write) =~= seq![write]);
                    assert(!begun.creates_before(table_id, 0));
                }
                acknowledge(id, done)
            }
        },
        ProtocolCommand::Put { id, table_id, key, value } => {
            if db.in_transaction() {
                let done = db.put(table_id, key, value.as_slice());
                acknowledge(id, done)
            } else {
                let _ = db.begin_tx(TxMode::Write);
                let staged = db.put(table_id, key, value.as_slice());
                let done = match staged {
                    Ok(_) => db.commit_tx(),
                    Err(e) => {
                        let _ = db.abort_tx();
                        Err(e)
                    },
                };
                proof {
                    let write = WriteModel::Put { table_id, key, value: value@ };
                    lemma_single_write_commits(old(db)@.store, write);
                    let begun = TxnModel::begun(old(db)@.store, TxMode::Write);
                    assert(begun.writes.push(write) =~= seq![write]);
                    assert(!begun.creates_before(table_id, 0));
                }
                acknowledge(id, done)
            }
        },
        ProtocolCommand::DirectRead { id, table_id, key } => {
            let result = match db.read(table_id, key) {
                Ok(Some(bytes)) => CommandResult::Value(bytes),
                _ => CommandResult::Success,
            };
            Ok(ProtocolResponse::Okay { id, result })
        },
        ProtocolCommand::RangeScan { id, table_id, start_key, end_key, desc, limit } => {
            match db.range_scan(table_id, start_key, end_key, desc, limit) {
                Ok(entries) => Ok(
                    ProtocolResponse::Okay { id, result: CommandResult::ScanResult(entries) },
                ),
                Err(e) => Err(e),
            }
        },
        ProtocolCommand::BeginTransaction { id, mode } => {
            match parse_mode(&mode) {
                Some(mode) => {
                    let done = db.begin_tx(mode);
                    acknowledge(id, done)
                },
                None => Err(AncError::NotImplemented),
            }
        },
        ProtocolCommand::CommitTransaction { id } => {
            let done = db.commit_tx();
            acknowledge(id, done)
        },
    }
}

} // verus!
