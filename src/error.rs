//! Errors of the wallet library.
use vstd::prelude::*;

verus! {

/// Every failure that the library reports.
#[derive(Debug, Clone)]
pub enum NozyError {
    Config(String),
    Storage(String),
    Note(String),
    Transaction(String),
    Network(String),
    Serialization(String),
    InvalidOperation(String),
    /// A payment needs more than the unspent notes hold.
    InsufficientFunds { required: u64, available: u64 },
    /// The commitment tree holds as many leaves as its depth allows.
    TreeFull,
    /// No signing key was supplied for the derivation path.
    KeyUnavailable(String),
}

pub type NozyResult<T> = Result<T, NozyError>;

} // verus!
