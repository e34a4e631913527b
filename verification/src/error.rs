//! The closed set of ways a synchronization run can fail. Pre-flight errors
//! abort the whole run before anything is created; a failure to create one
//! activity is recorded per item and never stops the batch.

use vstd::prelude::*;

verus! {

/// Why an operation failed.
#[derive(Clone, Debug, PartialEq, Eq)]
pub enum SyncError {
    /// The needed credentials are not configured.
    Unauthenticated,
    /// A fetch could not be completed; carries the transport's description.
    TransportFailure(String),
    /// One creation request was rejected; carries the ledger's description.
    ItemCreationFailed(String),
}

impl SyncError {
    /// A short text for the error, as the console reports it.
    pub fn message(&self) -> (r: String)
        ensures
            self is Unauthenticated ==> r@ == "NotLoggedIn"@,
            (match self {
                SyncError::TransportFailure(d) => r@ == d@,
                _ => true,
            }),
            (match self {
                SyncError::ItemCreationFailed(d) => r@ == d@,
                _ => true,
            }),
    {
        match self {
            SyncError::Unauthenticated => String::from_str("NotLoggedIn"),
            SyncError::TransportFailure(d) => d.clone(),
            SyncError::ItemCreationFailed(d) => d.clone(),
        }
    }
}

} // verus!
