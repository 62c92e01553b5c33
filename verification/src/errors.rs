//! The error vocabulary of the storage APIs around the engine.

use vstd::prelude::*;

verus! {

/// An error reported by a storage API.
#[derive(Clone, Debug)]
pub enum CreditChainDbError {
    /// A requested item is not found.
    NotFound(String),
    /// Too many items requested: at least this many, against this
    /// maximum.
    TooManyRequested(u64, u64),
    /// The state root node at this version is missing, probably pruned.
    MissingRootError(u64),
    /// Any other, non-classified error.
    Other(String),
    /// The key-value backend returned an incomplete result.
    RocksDbIncompleteResult(String),
    /// Any other error of the key-value backend.
    OtherRocksDbError(String),
    /// A serialization error.
    BcsError(String),
    /// An input/output error.
    IoError(String),
    /// A channel receive error.
    RecvError(String),
    /// A malformed integer in stored text.
    ParseIntError(String),
}

impl CreditChainDbError {
    /// Whether this is the not-found case.
    pub fn is_not_found(&self) -> (r: bool)
        ensures
            r == (self matches CreditChainDbError::NotFound(_)),
    {
        match self {
            CreditChainDbError::NotFound(_) => true,
            _ => false,
        }
    }
}

} // verus!
