//! The commands a client sends and the responses it gets back.

use vstd::prelude::*;
use vstd::string::*;
use crate::model::TxMode;
use crate::table::entries_view;

verus! {

/// A request. Each carries the id that the client gave it.
#[derive(Debug, Clone, PartialEq, Eq)]
pub enum ProtocolCommand {
    CreateTable { id: u32, table_id: u32, name: String },
    Put { id: u32, table_id: u32, key: i64, value: Vec<u8> },
    DirectRead { id: u32, table_id: u32, key: i64 },
    RangeScan { id: u32, table_id: u32, start_key: i64, end_key: i64, desc: bool, limit: usize },
    BeginTransaction { id: u32, mode: String },
    CommitTransaction { id: u32 },
}

/// The answer to a request, under the request's id.
#[derive(Debug, Clone, PartialEq, Eq)]
pub enum ProtocolResponse {
    Okay { id: u32, result: CommandResult },
    Error { id: u32, message: String },
}

/// What a request that succeeded gives back.
#[derive(Debug, Clone, PartialEq, Eq)]
pub enum CommandResult {
    Success,
    Value(Vec<u8>),
    ScanResult(Vec<(i64, Vec<u8>)>),
}

/// A request as a mathematical value.
#[verifier::ext_equal]
pub enum CommandModel {
    CreateTable { id: u32, table_id: u32, name: Seq<char> },
    Put { id: u32, table_id: u32, key: i64, value: Seq<u8> },
    DirectRead { id: u32, table_id: u32, key: i64 },
    RangeScan { id: u32, table_id: u32, start_key: i64, end_key: i64, desc: bool, limit: usize },
    BeginTransaction { id: u32, mode: Seq<char> },
    CommitTransaction { id: u32 },
}

/// A result as a mathematical value.
#[verifier::ext_equal]
pub enum ResultModel {
    Success,
    Value(Seq<u8>),
    ScanResult(Seq<(i64, Seq<u8>)>),
}

/// A response as a mathematical value.
#[verifier::ext_equal]
pub enum ResponseModel {
    Okay { id: u32, result: ResultModel },
    Error { id: u32, message: Seq<char> },
}

impl CommandModel {
    /// The id that the client gave the request.
    pub open spec fn id(self) -> u32 {
        match self {
            CommandModel::CreateTable { id, .. } => id,
            CommandModel::Put { id, .. } => id,
            CommandModel::DirectRead { id, .. } => id,
            CommandModel::RangeScan { id, .. } => id,
            CommandModel::BeginTransaction { id, .. } => id,
            CommandModel::CommitTransaction { id } => id,
        }
    }
}

impl View for ProtocolCommand {
    type V = CommandModel;

    open spec fn view(&self) -> CommandModel {
        match self {
            ProtocolCommand::CreateTable { id, table_id, name } => CommandModel::CreateTable {
                id: *id,
                table_id: *table_id,
                name: name@,
            },
            ProtocolCommand::Put { id, table_id, key, value } => CommandModel::Put {
                id: *id,
                table_id: *table_id,
                key: *key,
                value: value@,
            },
            ProtocolCommand::DirectRead { id, table_id, key } => CommandModel::DirectRead {
                id: *id,
                table_id: *table_id,
                key: *key,
            },
            ProtocolCommand::RangeScan {
                id,
                table_id,
                start_key,
                end_key,
                desc,
                limit,
            } => CommandModel::RangeScan {
                id: *id,
                table_id: *table_id,
                start_key: *start_key,
                end_key: *end_key,
                desc: *desc,
                limit: *limit,
            },
            ProtocolCommand::BeginTransaction { id, mode } => CommandModel::BeginTransaction {
                id: *id,
                mode: mode@,
            },
            ProtocolCommand::CommitTransaction { id } => CommandModel::CommitTransaction {
                id: *id,
            },
        }
    }
}

impl View for CommandResult {
    type V = ResultModel;

    open spec fn view(&self) -> ResultModel {
        match self {
            CommandResult::Success => ResultModel::Success,
            CommandResult::Value(bytes) => ResultModel::Value(bytes@),
            CommandResult::ScanResult(entries) => ResultModel::ScanResult(entries_view(entries@)),
        }
    }
}

impl View for ProtocolResponse {
    type V = ResponseModel;

    open spec fn view(&self) -> ResponseModel {
        match self {
            ProtocolResponse::Okay { id, result } => ResponseModel::Okay {
                id: *id,
                result: result@,
            },
            ProtocolResponse::Error { id, message } => ResponseModel::Error {
                id: *id,
                message: message@,
            },
        }
    }
}

impl ProtocolCommand {
    /// The id that the client gave the request.
    pub fn id(&self) -> (id: u32)
        ensures
            id == self@.id(),
    {
        match self {
            ProtocolCommand::CreateTable { id, .. } => *id,
            ProtocolCommand::Put { id, .. } => *id,
            ProtocolCommand::DirectRead { id, .. } => *id,
            ProtocolCommand::RangeScan { id, .. } => *id,
            ProtocolCommand::BeginTransaction { id, .. } => *id,
            ProtocolCommand::CommitTransaction { id } => *id,
        }
    }
}

/// The mode that a begin request names: `Read` or `Write`, spelled so.
pub open spec fn mode_named(text: Seq<char>) -> Option<TxMode> {
    if text == "Read"@ {
        Some(TxMode::Read)
    } else if text == "Write"@ {
        Some(TxMode::Write)
    } else {
        None
    }
}

/// Reads the mode that a begin request names.
pub fn parse_mode(text: &String) -> (mode: Option<TxMode>)
    ensures
        mode == mode_named(text@),
{
    let read = String::from_str("Read");
    let write = String::from_str("Write");
    if *text == read {
        Some(TxMode::Read)
    } else if *text == write {
        Some(TxMode::Write)
    } else {
        None
    }
}

} // verus!
