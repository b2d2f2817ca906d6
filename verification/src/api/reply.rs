//! The payload of each reply.

use vstd::prelude::*;
use crate::types::KeyHandle;

verus! {

/// Carries the handle of the key that was generated.
#[derive(Clone, Copy, Debug, PartialEq, Eq)]
pub struct GenerateKey {
    pub key_handle: KeyHandle,
}

} // verus!
