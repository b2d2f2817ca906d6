//! The payload of each request.

use vstd::prelude::*;
use crate::types::Mechanism;

verus! {

/// Asks for a new symmetric key of the given mechanism.
#[derive(Clone, Copy, Debug, PartialEq, Eq)]
pub struct GenerateKey {
    pub mechanism: Mechanism,
}

/// Asks for a new key pair of the given mechanism.
#[derive(Clone, Copy, Debug, PartialEq, Eq)]
pub struct GenerateKeypair {
    pub mechanism: Mechanism,
}

} // verus!
