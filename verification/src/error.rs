//! Error values of the store and of the node's command loop.

use vstd::prelude::*;

verus! {

/// Why an operation on the store failed.
#[derive(Debug)]
pub enum StorageError {
    /// A record ends before its tag bytes do.
    Truncated,
    /// A record starts with a byte that tags no contract or channel state.
    UnknownPrefix(u8),
    /// A signed channel record carries a second byte that tags no substate.
    UnknownSubstate(u8),
    /// The database reported a failure; the text is the database's own.
    Engine(String),
}

impl StorageError {
    /// The text of the error: the database's own for a failure of the
    /// database, else a fixed one.
    pub open spec fn spec_message(&self) -> Seq<char> {
        match self {
            StorageError::Truncated => "Record too short"@,
            StorageError::UnknownPrefix(_) => "Unknown prefix"@,
            StorageError::UnknownSubstate(_) => "Unknown prefix"@,
            StorageError::Engine(m) => m@,
        }
    }

    /// The message shown to a user of the store.
    pub fn message(&self) -> (text: String)
        ensures
            text@ == self.spec_message(),
    {
        match self {
            StorageError::Truncated => "Record too short".to_string(),
            StorageError::UnknownPrefix(_) => "Unknown prefix".to_string(),
            StorageError::UnknownSubstate(_) => "Unknown prefix".to_string(),
            StorageError::Engine(m) => m.clone(),
        }
    }
}

/// Why a call into the node failed.
#[derive(Debug)]
pub enum DdkError {
    /// The store failed.
    Storage(StorageError),
    /// A message or command does not fit the state of its contract, or a
    /// signature does not verify; the text says which.
    Protocol(String),
    /// The node was asked to start while it was running.
    AlreadyRunning,
    /// The manager went away before it answered.
    ReplyLost,
    /// The wallet could not sign or broadcast; the text is the wallet's own.
    Wallet(String),
}

impl DdkError {
    /// The message shown to a user of the node.
    pub fn message(&self) -> (text: String)
        ensures
            self matches DdkError::Storage(e) ==> text@ == e.spec_message(),
            self matches DdkError::Protocol(m) ==> text@ == m@,
            self is AlreadyRunning ==> text@ == "DDK is still running."@,
            self is ReplyLost ==> text@ == "The manager did not answer."@,
            self matches DdkError::Wallet(m) ==> text@ == m@,
    {
        match self {
            DdkError::Storage(e) => e.message(),
            DdkError::Protocol(m) => m.clone(),
            DdkError::AlreadyRunning => "DDK is still running.".to_string(),
            DdkError::ReplyLost => "The manager did not answer.".to_string(),
            DdkError::Wallet(m) => m.clone(),
        }
    }
}

} // verus!
