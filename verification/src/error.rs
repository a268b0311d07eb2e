//! The closed error taxonomy of the client.
//!
//! Every failure is surfaced to the immediate caller as one of these
//! variants; nothing is retried or swallowed inside this layer.

use vstd::prelude::*;

verus! {

/// Errors that may occur.
#[derive(Clone, Copy, Debug, PartialEq, Eq, Structural)]
pub enum Error {
    /// Access token not found in the environment.
    KeyNotFound,
    /// The access token supplied is invalid: it may contain only ASCII
    /// alphanumerics and the characters `_ . - ~`.
    InvalidKey,
    /// The HTTP client could not be initialized.
    ClientInitError,
    /// No collection ("base") name is bound to the client handle.
    BaseNameNotPresent,
    /// A batch holds more than 25 items.
    VecTooLong,
    /// The transport failed to carry the request.
    RequestSendError,
    /// Fetch: the store answered with a non-success status.
    ItemNotFound,
    /// Insert: an item with the same key already exists.
    KeyConflict,
    /// Update: no item with the given key exists.
    KeyNonexistent,
    /// The store rejected the request as malformed.
    BadRequest,
    /// The store answered with an unexpected status.
    ServerError,
    /// The request body could not be serialized.
    JSONSerializingFailed,
    /// The response body was not of the expected shape.
    JSONDeserializingFailed,
}

} // verus!
