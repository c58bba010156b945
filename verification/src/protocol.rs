//! Protocol-level constants and errors.

use vstd::prelude::*;

verus! {

/// The version of the federation protocol.
pub const PROTOCOL_VERSION: &'static str = "0.1.0";

/// What can go wrong at the level of the protocol.
#[derive(Debug)]
pub enum ProtocolError {
    SerializationError { reason: String },
    InvalidFormat { reason: String },
    ValidationFailed { reason: String },
    CryptographicError { reason: String },
    NetworkError { reason: String },
    StorageError { reason: String },
}

} // verus!
