//! The kinds of failure that the service reports to its clients.

use vstd::prelude::*;

verus! {

/// Why a request could not be served.
#[derive(Clone, Copy, Debug, PartialEq, Eq, Structural)]
pub enum Error {
    /// The entropy source failed to supply bytes.
    EntropyMalfunction,
    /// Tag verification or the cipher operation failed.
    AeadError,
    /// The requested algorithm is not implemented.
    MechanismNotAvailable,
    /// The request is not yet served by the dispatch.
    RequestNotAvailable,
    /// Creating, writing or syncing a file in a store failed.
    FilesystemWriteFailure,
}

} // verus!
