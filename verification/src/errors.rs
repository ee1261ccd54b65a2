//! The error taxonomy of the oracle pipeline.
//!
//! Every failure of a request is surfaced to the caller as one of these
//! variants; none is silently swallowed.

use vstd::prelude::*;

verus! {

/// Why a request failed.
///
/// - `InvalidInput`: the query was empty or whitespace-only (user-correctable).
/// - `ConfigError`: the upstream base URL is malformed (operator-fixable).
/// - `TransportError`: the network call itself failed (transient).
/// - `UpstreamError`: the upstream answered with a non-success HTTP status
///   (transient).
/// - `DecodeError`: the upstream body was not parseable as the expected
///   structure.
/// - `SerializationError`: a cached envelope could not be decoded again
///   (internal; never occurs if the cache's own writes are always readable).
#[derive(Debug, PartialEq, Eq, Structural)]
pub enum OracleError {
    InvalidInput,
    ConfigError,
    TransportError,
    UpstreamError { status: u16 },
    DecodeError,
    SerializationError,
}

impl OracleError {
    /// A short human-readable label for the error kind.
    pub fn label(&self) -> (r: &'static str)
        ensures
            r@ == self.label_spec(),
    {
        match self {
            OracleError::InvalidInput => "invalid input: name required",
            OracleError::ConfigError => "invalid upstream base URL",
            OracleError::TransportError => "failed to reach upstream",
            OracleError::UpstreamError { .. } => "upstream returned a non-success status",
            OracleError::DecodeError => "failed to parse upstream body",
            OracleError::SerializationError => "cache entry could not be decoded",
        }
    }

    /// What `label` returns for each variant.
    pub open spec fn label_spec(&self) -> Seq<char> {
        match self {
            OracleError::InvalidInput => "invalid input: name required"@,
            OracleError::ConfigError => "invalid upstream base URL"@,
            OracleError::TransportError => "failed to reach upstream"@,
            OracleError::UpstreamError { .. } => "upstream returned a non-success status"@,
            OracleError::DecodeError => "failed to parse upstream body"@,
            OracleError::SerializationError => "cache entry could not be decoded"@,
        }
    }
}

} // verus!
