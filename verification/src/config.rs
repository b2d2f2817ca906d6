//! Fixed limits of the service.

use vstd::prelude::*;

verus! {

/// The number of client endpoints that one service can hold.
pub const MAX_SERVICE_CLIENTS: usize = 5;

/// Bytes in the identifier of a key.
pub const UNIQUE_ID_LEN: usize = 16;

/// Bytes in a key seed of the Ed25519 mechanism.
pub const ED25519_SEED_LEN: usize = 32;

/// Bytes in the storage path of a key: a separator and 32 hex characters.
pub const KEY_PATH_LEN: usize = 33;

/// The byte that begins every storage path.
pub const PATH_SEPARATOR: u8 = 0x2f;

} // verus!
