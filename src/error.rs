use vstd::prelude::*;

verus! {

/// The indexer's failures: a remote-chain access that failed, an encoding or
/// write failure in the storage writer, and an invalid configuration.
#[derive(Debug, Clone)]
pub enum IndexerError {
    RpcError(String),
    StorageError(String),
    ConfigError(String),
}

/// The text that names each kind of failure.
pub open spec fn error_text(e: IndexerError) -> Seq<char> {
    match e {
        IndexerError::RpcError(m) => "RPC error: "@ + m@,
        IndexerError::StorageError(m) => "Storage error: "@ + m@,
        IndexerError::ConfigError(m) => "Configuration error: "@ + m@,
    }
}

impl IndexerError {
    /// The human-readable description: the kind of failure, then its detail.
    pub fn message(&self) -> (r: String)
        ensures
            r@ == error_text(*self),
    {
        match self {
            IndexerError::RpcError(m) => String::from_str("RPC error: ").concat(m.as_str()),
            IndexerError::StorageError(m) => String::from_str("Storage error: ").concat(m.as_str()),
            IndexerError::ConfigError(m) => String::from_str("Configuration error: ").concat(m.as_str()),
        }
    }
}

} // verus!
