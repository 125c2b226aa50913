//! The error taxonomy of the client: every failure is surfaced to the
//! immediate caller, and nothing is retried.
use vstd::prelude::*;

verus! {

/// What can go wrong between building a client and reading one reply.
#[derive(Debug, Clone)]
pub enum LlmError {
    /// The credential was absent when the client was built; fatal to
    /// construction, and the only point where the credential is checked.
    ConfigurationError,
    /// A role or model string outside its closed set was met while
    /// decoding; carries the offending string.
    SerializationError(String),
    /// The transport failed (connection, resolution, handshake); carries
    /// the transport's description of the failure.
    NetworkError(String),
    /// The response body did not match the expected completion schema;
    /// carries the body that was rejected.
    ProviderError(String),
}

} // verus!
