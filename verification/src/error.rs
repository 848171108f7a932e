//! The failures a command can end in, and the text a client is shown for each.

use vstd::prelude::*;
use vstd::string::*;

verus! {

/// What can go wrong while a command is decoded, executed or answered.
#[derive(Clone, Copy, Debug, PartialEq, Eq, Structural)]
pub enum AncError {
    /// A commit found its footprint changed, or a write was asked for where
    /// the active transaction does not allow one.
    TransactionConflict,
    /// A transaction was needed and none is active.
    NoActiveTransaction,
    /// The table id is already taken.
    TableAlreadyExists,
    /// The table id is unknown.
    TableNotFound,
    /// The key holds no value.
    KeyNotFound,
    /// A frame's payload is not a well-formed command.
    DecodeError,
    /// The command is recognised but not served.
    NotImplemented,
    /// The byte stream failed or ended inside a frame.
    IOError,
}

impl AncError {
    /// The text that a client is shown for this error.
    pub open spec fn message_text(self) -> Seq<char> {
        match self {
            AncError::TransactionConflict => "Transaction conflict"@,
            AncError::NoActiveTransaction => "Runtime error: NoActiveTransaction"@,
            AncError::TableAlreadyExists => "Runtime error: TableAlreadyExists"@,
            AncError::TableNotFound => "Runtime error: TableNotFound"@,
            AncError::KeyNotFound => "Runtime error: KeyNotFound"@,
            AncError::DecodeError => "Decode error"@,
            AncError::NotImplemented => "Not implemented"@,
            AncError::IOError => "Runtime error: IOError"@,
        }
    }

    /// Renders the error for a response.
    pub fn message(&self) -> (text: String)
        ensures
            text@ == self.message_text(),
    {
        match self {
            AncError::TransactionConflict => String::from_str("Transaction conflict"),
            AncError::NoActiveTransaction => String::from_str("Runtime error: NoActiveTransaction"),
            AncError::TableAlreadyExists => String::from_str("Runtime error: TableAlreadyExists"),
            AncError::TableNotFound => String::from_str("Runtime error: TableNotFound"),
            AncError::KeyNotFound => String::from_str("Runtime error: KeyNotFound"),
            AncError::DecodeError => String::from_str("Decode error"),
            AncError::NotImplemented => String::from_str("Not implemented"),
            AncError::IOError => String::from_str("Runtime error: IOError"),
        }
    }
}

} // verus!
