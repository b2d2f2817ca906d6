//! The requests that clients send and the replies they get back.

use vstd::prelude::*;

pub mod reply;
pub mod request;

verus! {

/// One operation asked of the service.
#[derive(Clone, Copy, Debug, PartialEq, Eq)]
pub enum Request {
    /// A diagnostic request that does nothing.
    DummyRequest,
    /// Generate a symmetric key; not served yet.
    GenerateKey(request::GenerateKey),
    /// Generate an asymmetric key pair.
    GenerateKeypair(request::GenerateKeypair),
}

/// What the service answers to a request that it served.
#[derive(Clone, Copy, Debug, PartialEq, Eq)]
pub enum Reply {
    /// The answer to the diagnostic request.
    DummyReply,
    /// The handle of a key that was generated and stored.
    GenerateKey(reply::GenerateKey),
}

} // verus!
