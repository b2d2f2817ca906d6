//! Cryptographic service core of a hardware security token.
//!
//! The resource manager owns the entropy source, the two stores and the
//! cipher's key material; it generates and stores keys and encrypts with an
//! authenticated cipher. The dispatch loop serves the clients' endpoints,
//! one request of each per pass. The user interface reports user presence
//! and drives the status light.
//!
//! Contracts speak of the service through what it has asked of the device:
//! every draw, store operation, clock reading, button event and colour shown
//! is recorded in ghost state, with how it ended.

pub mod aead;
pub mod api;
pub mod config;
pub mod error;
pub mod pipe;
pub mod platform;
pub mod service;
pub mod traits;
pub mod types;
pub mod ui;
